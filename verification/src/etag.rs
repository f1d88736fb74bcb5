//! Entity tags: wire form, parsing of `If-Match` / `If-None-Match` header
//! values, and the weak and strong comparison rules.

use vstd::prelude::*;
use crate::util::{
    bytes_eq, find_byte, skip_ws, skip_ws_end, lemma_find_byte_bounds, lemma_skip_ws_bounds,
    spec_find_byte, spec_skip_ws, spec_skip_ws_end,
};

verus! {

/// An entity tag: an opaque validator, optionally weak. `tag` holds the
/// bytes between the quotes of the wire form.
#[derive(Clone, Debug)]
pub struct EntityTag {
    pub weak: bool,
    pub tag: Vec<u8>,
}

/// Mathematical model of an `EntityTag`.
pub struct EntityTagView {
    pub weak: bool,
    pub tag: Seq<u8>,
}

impl View for EntityTag {
    type V = EntityTagView;

    open spec fn view(&self) -> EntityTagView {
        EntityTagView { weak: self.weak, tag: self.tag@ }
    }
}

impl DeepView for EntityTag {
    type V = EntityTagView;

    open spec fn deep_view(&self) -> EntityTagView {
        self@
    }
}

/// A byte allowed inside the quotes of an entity tag: a visible ASCII
/// character other than the double quote and the comma. (A comma would be
/// ambiguous inside a comma-separated tag list; the server's own tags
/// never hold one.)
pub open spec fn spec_etagc(b: u8) -> bool {
    33 <= b <= 126 && b != 34 && b != 44
}

/// A well-formed tag holds only such bytes.
pub open spec fn spec_etag_wf(t: EntityTagView) -> bool {
    forall|i: int| 0 <= i < t.tag.len() ==> spec_etagc(#[trigger] t.tag[i])
}

/// Wire form of an entity tag: `"tag"`, preceded by `W/` when weak.
pub open spec fn spec_etag_wire(t: EntityTagView) -> Seq<u8> {
    let quoted = seq![34u8] + t.tag + seq![34u8];
    if t.weak {
        seq![87u8, 47u8] + quoted
    } else {
        quoted
    }
}

/// Render an entity tag in its wire form.
pub fn format_etag(t: &EntityTag) -> (r: Vec<u8>)
    ensures
        r@ == spec_etag_wire(t@),
{
    let mut out: Vec<u8> = Vec::new();
    if t.weak {
        out.push(87);
        out.push(47);
    }
    out.push(34);
    let ghost head = out@;
    for i in 0..t.tag.len()
        invariant
            out@ == head + t.tag@.subrange(0, i as int),
    {
        out.push(t.tag[i]);
        proof {
            assert(head + t.tag@.subrange(0, i as int) + seq![t.tag@[i as int]] =~= head
                + t.tag@.subrange(0, i + 1));
        }
    }
    proof {
        assert(t.tag@.subrange(0, t.tag@.len() as int) =~= t.tag@);
    }
    out.push(34);
    proof {
        assert(out@ =~= spec_etag_wire(t@));
    }
    out
}

/// Meaning of `s[lo..hi]` as a quoted tag: the bytes between the quotes,
/// all of which must be allowed tag characters.
pub open spec fn spec_parse_quoted(s: Seq<u8>, lo: int, hi: int) -> Option<Seq<u8>>
    recommends
        0 <= lo <= hi <= s.len(),
{
    if hi - lo >= 2 && s[lo] == 34 && s[hi - 1] == 34 && (forall|i: int|
        lo + 1 <= i < hi - 1 ==> spec_etagc(#[trigger] s[i])) {
        Some(s.subrange(lo + 1, hi - 1))
    } else {
        None
    }
}

/// Meaning of `s[lo..hi]` as one entity tag, weak or strong.
pub open spec fn spec_parse_etag(s: Seq<u8>, lo: int, hi: int) -> Option<EntityTagView>
    recommends
        0 <= lo <= hi <= s.len(),
{
    if hi - lo >= 2 && s[lo] == 87 && s[lo + 1] == 47 {
        match spec_parse_quoted(s, lo + 2, hi) {
            Some(t) => Some(EntityTagView { weak: true, tag: t }),
            None => None,
        }
    } else {
        match spec_parse_quoted(s, lo, hi) {
            Some(t) => Some(EntityTagView { weak: false, tag: t }),
            None => None,
        }
    }
}

fn parse_quoted(s: &[u8], lo: usize, hi: usize) -> (r: Option<Vec<u8>>)
    requires
        lo <= hi <= s@.len(),
    ensures
        match r {
            Some(v) => spec_parse_quoted(s@, lo as int, hi as int) == Some(v@),
            None => spec_parse_quoted(s@, lo as int, hi as int) is None,
        },
{
    if hi - lo < 2 || s[lo] != 34 || s[hi - 1] != 34 {
        return None;
    }
    let mut out: Vec<u8> = Vec::new();
    let mut i = lo + 1;
    while i < hi - 1
        invariant
            lo + 1 <= i <= hi - 1,
            hi <= s@.len(),
            out@ == s@.subrange(lo + 1, i as int),
            forall|j: int| lo + 1 <= j < i ==> spec_etagc(#[trigger] s@[j]),
        decreases hi - i,
    {
        let c = s[i];
        if !(33 <= c && c <= 126 && c != 34 && c != 44) {
            return None;
        }
        out.push(c);
        proof {
            assert(s@.subrange(lo + 1, i as int) + seq![s@[i as int]] =~= s@.subrange(
                lo + 1,
                i + 1,
            ));
        }
        i = i + 1;
    }
    Some(out)
}

fn parse_etag(s: &[u8], lo: usize, hi: usize) -> (r: Option<EntityTag>)
    requires
        lo <= hi <= s@.len(),
    ensures
        match r {
            Some(t) => spec_parse_etag(s@, lo as int, hi as int) == Some(t@),
            None => spec_parse_etag(s@, lo as int, hi as int) is None,
        },
{
    if hi - lo >= 2 && s[lo] == 87 && s[lo + 1] == 47 {
        match parse_quoted(s, lo + 2, hi) {
            Some(tag) => Some(EntityTag { weak: true, tag }),
            None => None,
        }
    } else {
        match parse_quoted(s, lo, hi) {
            Some(tag) => Some(EntityTag { weak: false, tag }),
            None => None,
        }
    }
}

/// A parsed `If-Match` or `If-None-Match` header value: `*` or a list of
/// entity tags.
pub enum ETagList {
    Any,
    Tags(Vec<EntityTag>),
}

/// Mathematical model of an `ETagList`.
pub enum ETagListView {
    Any,
    Tags(Seq<EntityTagView>),
}

impl View for ETagList {
    type V = ETagListView;

    open spec fn view(&self) -> ETagListView {
        match self {
            ETagList::Any => ETagListView::Any,
            ETagList::Tags(v) => ETagListView::Tags(v.deep_view()),
        }
    }
}

/// Meaning of the comma-separated entity tags starting at `lo`; `None` when
/// any element fails to parse.
pub open spec fn spec_parse_etag_items(s: Seq<u8>, lo: int) -> Option<Seq<EntityTagView>>
    decreases s.len() - lo,
        when 0 <= lo <= s.len()
        via spec_parse_etag_items_dec
{
    let c = spec_find_byte(s, 44, lo);
    let a = spec_skip_ws(s, lo, c);
    let b = spec_skip_ws_end(s, a, c);
    match spec_parse_etag(s, a, b) {
        None => None,
        Some(t) => {
            if c == s.len() {
                Some(seq![t])
            } else {
                match spec_parse_etag_items(s, c + 1) {
                    None => None,
                    Some(rest) => Some(seq![t] + rest),
                }
            }
        },
    }
}

#[via_fn]
proof fn spec_parse_etag_items_dec(s: Seq<u8>, lo: int) {
    lemma_find_byte_bounds(s, 44, lo);
}

/// Meaning of a whole `If-Match` / `If-None-Match` value: `*`, or a
/// non-empty well-formed list of tags; `None` when malformed.
pub open spec fn spec_parse_etag_list(s: Seq<u8>) -> Option<ETagListView> {
    let a = spec_skip_ws(s, 0, s.len() as int);
    let b = spec_skip_ws_end(s, a, s.len() as int);
    if b - a == 1 && s[a] == 42 {
        Some(ETagListView::Any)
    } else {
        match spec_parse_etag_items(s, 0) {
            None => None,
            Some(items) => Some(ETagListView::Tags(items)),
        }
    }
}

fn parse_etag_items(s: &[u8], lo: usize) -> (r: Option<Vec<EntityTag>>)
    requires
        lo <= s@.len(),
    ensures
        match r {
            Some(v) => spec_parse_etag_items(s@, lo as int) == Some(v.deep_view()),
            None => spec_parse_etag_items(s@, lo as int) is None,
        },
    decreases s@.len() - lo,
{
    let c = find_byte(s, 44, lo);
    let a = skip_ws(s, lo, c);
    let b = skip_ws_end(s, a, c);
    let t = match parse_etag(s, a, b) {
        None => {
            return None;
        },
        Some(t) => t,
    };
    if c == s.len() {
        let mut v: Vec<EntityTag> = Vec::new();
        v.push(t);
        proof {
            assert(v.deep_view() =~= seq![t@]);
        }
        Some(v)
    } else {
        match parse_etag_items(s, c + 1) {
            None => None,
            Some(rest) => {
                let mut v = rest;
                v.insert(0, t);
                proof {
                    assert(v.deep_view() =~= seq![t@] + rest.deep_view());
                }
                Some(v)
            },
        }
    }
}

/// Parse an `If-Match` / `If-None-Match` header value: `*`, or a
/// comma-separated list of entity tags with optional surrounding
/// whitespace. `None` when malformed.
pub fn parse_etag_list(s: &[u8]) -> (r: Option<ETagList>)
    ensures
        match r {
            Some(l) => spec_parse_etag_list(s@) == Some(l@),
            None => spec_parse_etag_list(s@) is None,
        },
{
    let a = skip_ws(s, 0, s.len());
    let b = skip_ws_end(s, a, s.len());
    if b - a == 1 && s[a] == 42 {
        return Some(ETagList::Any);
    }
    match parse_etag_items(s, 0) {
        None => None,
        Some(v) => Some(ETagList::Tags(v)),
    }
}

/// The weak comparison of RFC 7232: the opaque tags agree, weakness
/// ignored.
pub open spec fn spec_weak_match(a: EntityTagView, b: EntityTagView) -> bool {
    a.tag == b.tag
}

/// The strong comparison of RFC 7232: both tags are strong and agree.
pub open spec fn spec_strong_match(a: EntityTagView, b: EntityTagView) -> bool {
    !a.weak && !b.weak && a.tag == b.tag
}

/// Whether some tag of the sequence weak-matches the current tag.
pub open spec fn spec_tags_match_weak(items: Seq<EntityTagView>, t: EntityTagView) -> bool {
    exists|i: int| 0 <= i < items.len() && spec_weak_match(#[trigger] items[i], t)
}

/// Whether some tag of the sequence strong-matches the current tag.
pub open spec fn spec_tags_match_strong(items: Seq<EntityTagView>, t: EntityTagView) -> bool {
    exists|i: int| 0 <= i < items.len() && spec_strong_match(#[trigger] items[i], t)
}

/// Whether a header list matches the current tag under weak comparison
/// (`*` matches every tag).
pub open spec fn spec_list_match_weak(l: ETagListView, t: EntityTagView) -> bool {
    match l {
        ETagListView::Any => true,
        ETagListView::Tags(items) => spec_tags_match_weak(items, t),
    }
}

/// Whether a header list matches the current tag under strong comparison.
pub open spec fn spec_list_match_strong(l: ETagListView, t: EntityTagView) -> bool {
    match l {
        ETagListView::Any => true,
        ETagListView::Tags(items) => spec_tags_match_strong(items, t),
    }
}

fn tags_match_weak(items: &Vec<EntityTag>, t: &EntityTag) -> (r: bool)
    ensures
        r == spec_tags_match_weak(items.deep_view(), t@),
{
    for i in 0..items.len()
        invariant
            forall|j: int| 0 <= j < i ==> !spec_weak_match(#[trigger] items.deep_view()[j], t@),
    {
        if bytes_eq(items[i].tag.as_slice(), t.tag.as_slice()) {
            proof {
                assert(items.deep_view().len() == items@.len());
                assert(spec_weak_match(items.deep_view()[i as int], t@));
            }
            return true;
        }
    }
    false
}

pub fn list_match_weak(l: &ETagList, t: &EntityTag) -> (r: bool)
    ensures
        r == spec_list_match_weak(l@, t@),
{
    match l {
        ETagList::Any => true,
        ETagList::Tags(items) => tags_match_weak(items, t),
    }
}

fn tags_match_strong(items: &Vec<EntityTag>, t: &EntityTag) -> (r: bool)
    ensures
        r == spec_tags_match_strong(items.deep_view(), t@),
{
    for i in 0..items.len()
        invariant
            forall|j: int| 0 <= j < i ==> !spec_strong_match(#[trigger] items.deep_view()[j], t@),
    {
        if !items[i].weak && !t.weak && bytes_eq(items[i].tag.as_slice(), t.tag.as_slice()) {
            proof {
                assert(items.deep_view().len() == items@.len());
                assert(spec_strong_match(items.deep_view()[i as int], t@));
            }
            return true;
        }
    }
    false
}

pub fn list_match_strong(l: &ETagList, t: &EntityTag) -> (r: bool)
    ensures
        r == spec_list_match_strong(l@, t@),
{
    match l {
        ETagList::Any => true,
        ETagList::Tags(items) => tags_match_strong(items, t),
    }
}

/// A well-formed tag survives the round trip through its wire form: parsing
/// what `format_etag` renders yields the tag back, as the only element of
/// the list.
pub proof fn lemma_etag_wire_round_trip(t: EntityTagView)
    requires
        spec_etag_wf(t),
    ensures
        spec_parse_etag_list(spec_etag_wire(t)) == Some(ETagListView::Tags(seq![t])),
{
    let w = spec_etag_wire(t);
    assert forall|i: int| 0 <= i < w.len() implies #[trigger] w[i] != 44 by {
        if t.weak {
            if i == 0 {
                assert(w[i] == 87);
            } else if i == 1 {
                assert(w[i] == 47);
            } else if i == 2 || i == w.len() - 1 {
                assert(w[i] == 34);
            } else {
                assert(w[i] == t.tag[i - 3]);
                assert(spec_etagc(t.tag[i - 3]));
            }
        } else {
            if i == 0 || i == w.len() - 1 {
                assert(w[i] == 34);
            } else {
                assert(w[i] == t.tag[i - 1]);
                assert(spec_etagc(t.tag[i - 1]));
            }
        }
    }
    if t.weak {
        assert(w[0] == 87);
    } else {
        assert(w[0] == 34);
    }
    assert(w[w.len() - 1] == 34);
    lemma_find_no_comma(w, 0);
    lemma_skip_ws_bounds(w, 0, w.len() as int);
    let c = spec_find_byte(w, 44, 0);
    assert(c == w.len());
    assert(spec_skip_ws(w, 0, c) == 0);
    assert(spec_skip_ws_end(w, 0, c) == w.len());
    if t.weak {
        assert(w.subrange(3, w.len() - 1) =~= t.tag);
    } else {
        assert(w.subrange(1, w.len() - 1) =~= t.tag);
    }
    assert(spec_parse_etag(w, 0, w.len() as int) == Some(t));
    assert(spec_parse_etag_items(w, 0) == Some(seq![t]));
    let a = spec_skip_ws(w, 0, w.len() as int);
    let b = spec_skip_ws_end(w, a, w.len() as int);
    assert(a == 0 && b == w.len());
    assert(!(b - a == 1 && w[a] == 42));
}

/// A sequence without a comma is scanned to its end.
proof fn lemma_find_no_comma(s: Seq<u8>, from: int)
    requires
        0 <= from <= s.len(),
        forall|i: int| 0 <= i < s.len() ==> #[trigger] s[i] != 44,
    ensures
        spec_find_byte(s, 44, from) == s.len(),
    decreases s.len() - from,
{
    if from < s.len() {
        lemma_find_no_comma(s, from + 1);
    }
}

} // verus!
