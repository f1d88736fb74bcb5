//! The per-request snapshot of one served file: length, modification
//! time, content type, and the two entity-tag variants (identity and
//! gzip-encoded), which never share a cache key.

use vstd::prelude::*;
use crate::base36::{encode_bytes, lemma_base36_bytes, spec_base36};
use crate::etag::{spec_etag_wf, spec_etagc, EntityTag, EntityTagView};

verus! {

/// Upper bound (exclusive) on modification times handled here: the first
/// second of year 10000, which keeps date rendering in range.
pub const MAX_TIMESTAMP: i64 = 253402300800;

/// A guessed media type and whether it is worth compressing.
pub struct ContentType {
    pub mime: Vec<u8>,
    pub compressible: bool,
}

/// Mathematical model of a `ContentType`.
pub struct ContentTypeView {
    pub mime: Seq<u8>,
    pub compressible: bool,
}

impl View for ContentType {
    type V = ContentTypeView;

    open spec fn view(&self) -> ContentTypeView {
        ContentTypeView { mime: self.mime@, compressible: self.compressible }
    }
}

/// Immutable metadata of one open file, snapshotted at request time. A
/// second request against the same file takes an independent snapshot.
pub struct ResourceMeta {
    pub len: u64,
    pub last_modified: i64,
    pub content_type: ContentType,
}

/// Mathematical model of a `ResourceMeta`.
pub struct ResourceMetaView {
    pub len: u64,
    pub last_modified: i64,
    pub content_type: ContentTypeView,
}

impl View for ResourceMeta {
    type V = ResourceMetaView;

    open spec fn view(&self) -> ResourceMetaView {
        ResourceMetaView {
            len: self.len,
            last_modified: self.last_modified,
            content_type: self.content_type@,
        }
    }
}

/// A usable snapshot: the modification time is a non-negative second
/// count before year 10000.
pub open spec fn spec_meta_wf(m: ResourceMetaView) -> bool {
    0 <= m.last_modified < MAX_TIMESTAMP
}

/// The identity representation's tag bytes: modification time and length,
/// both base 36, joined by a dash.
pub open spec fn spec_identity_tag(m: ResourceMetaView) -> Seq<u8> {
    spec_base36(m.last_modified as int) + seq![45u8] + spec_base36(m.len as int)
}

/// The gzip representation's tag bytes: the identity tag with a variant
/// suffix, so the two representations never share a validator.
pub open spec fn spec_encoded_tag(m: ResourceMetaView) -> Seq<u8> {
    spec_identity_tag(m) + seq![45u8, 103u8, 122u8]
}

/// The strong entity tag for whichever representation will be sent.
pub open spec fn spec_etag(m: ResourceMetaView, prefer_identity: bool) -> EntityTagView {
    EntityTagView {
        weak: false,
        tag: if prefer_identity {
            spec_identity_tag(m)
        } else {
            spec_encoded_tag(m)
        },
    }
}

impl ResourceMeta {
    /// Build a snapshot from statted values; rejects a modification time
    /// outside the representable range.
    pub fn new(len: u64, last_modified: i64, content_type: ContentType) -> (r: Option<
        ResourceMeta,
    >)
        ensures
            r is Some <==> 0 <= last_modified < MAX_TIMESTAMP,
            r is Some ==> {
                let m = r->0;
                &&& m@.len == len
                &&& m@.last_modified == last_modified
                &&& m@.content_type == content_type@
                &&& spec_meta_wf(m@)
            },
    {
        if 0 <= last_modified && last_modified < MAX_TIMESTAMP {
            Some(ResourceMeta { len, last_modified, content_type })
        } else {
            None
        }
    }

    /// Length of the file in bytes.
    pub fn len(&self) -> (r: u64)
        ensures
            r == self@.len,
    {
        self.len
    }

    /// Modification time, in whole seconds since the epoch.
    pub fn last_modified(&self) -> (r: i64)
        ensures
            r == self@.last_modified,
    {
        self.last_modified
    }

    /// The entity tag of the representation that will actually be sent:
    /// the identity tag, or the encoded variant when gzip was selected.
    pub fn etag(&self, prefer_identity: bool) -> (r: EntityTag)
        requires
            spec_meta_wf(self@),
        ensures
            r@ == spec_etag(self@, prefer_identity),
            spec_etag_wf(r@),
    {
        let mut tag = encode_bytes(self.last_modified as u64);
        tag.push(45);
        let mut len_part = encode_bytes(self.len);
        tag.append(&mut len_part);
        if !prefer_identity {
            tag.push(45);
            tag.push(103);
            tag.push(122);
        }
        proof {
            lemma_base36_bytes(self@.last_modified as int);
            lemma_base36_bytes(self@.len as int);
            if prefer_identity {
                assert(tag@ =~= spec_identity_tag(self@));
            } else {
                assert(tag@ =~= spec_encoded_tag(self@));
            }
            assert forall|i: int| 0 <= i < tag@.len() implies spec_etagc(#[trigger] tag@[i]) by {
                lemma_tag_bytes(self@);
            }
        }
        EntityTag { weak: false, tag }
    }
}

/// Every byte of either tag variant is an allowed tag character.
proof fn lemma_tag_bytes(m: ResourceMetaView)
    requires
        spec_meta_wf(m),
    ensures
        forall|i: int|
            0 <= i < spec_encoded_tag(m).len() ==> spec_etagc(#[trigger] spec_encoded_tag(m)[i]),
        forall|i: int|
            0 <= i < spec_identity_tag(m).len() ==> spec_etagc(
                #[trigger] spec_identity_tag(m)[i],
            ),
{
    lemma_base36_bytes(m.last_modified as int);
    lemma_base36_bytes(m.len as int);
    let a = spec_base36(m.last_modified as int);
    let b = spec_base36(m.len as int);
    assert forall|i: int| 0 <= i < spec_identity_tag(m).len() implies spec_etagc(
        #[trigger] spec_identity_tag(m)[i],
    ) by {
        if i < a.len() {
            assert(spec_identity_tag(m)[i] == a[i]);
        } else if i == a.len() {
            assert(spec_identity_tag(m)[i] == 45u8);
        } else {
            assert(spec_identity_tag(m)[i] == b[i - a.len() - 1]);
        }
    }
    assert forall|i: int| 0 <= i < spec_encoded_tag(m).len() implies spec_etagc(
        #[trigger] spec_encoded_tag(m)[i],
    ) by {
        if i < spec_identity_tag(m).len() {
            assert(spec_encoded_tag(m)[i] == spec_identity_tag(m)[i]);
        }
    }
}

/// A usable snapshot's tags are well-formed in the sense of the entity-
/// tag grammar, whichever representation is selected.
pub proof fn lemma_etag_wf(m: ResourceMetaView, prefer_identity: bool)
    requires
        spec_meta_wf(m),
    ensures
        spec_etag_wf(spec_etag(m, prefer_identity)),
{
    lemma_tag_bytes(m);
}

/// The two tag variants differ: the encoded tag is strictly longer, so a
/// compressible representation never shares a validator with the identity
/// representation.
pub proof fn lemma_etag_variants_differ(m: ResourceMetaView)
    ensures
        spec_etag(m, true).tag != spec_etag(m, false).tag,
{
    assert(spec_encoded_tag(m).len() == spec_identity_tag(m).len() + 3);
}

} // verus!
