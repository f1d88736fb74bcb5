//! Content negotiation: whether the client's `Accept-Encoding` admits
//! gzip with nonzero preference, and whether a resource is eligible for
//! on-the-fly compression.

use vstd::prelude::*;
use crate::util::{
    find_byte, find_byte_upto, lemma_find_byte_bounds, lower_byte, skip_ws, skip_ws_end,
    spec_find_byte, spec_find_byte_upto, spec_lower, spec_lower_byte, spec_skip_ws,
    spec_skip_ws_end,
};

verus! {

/// A response content-encoding other than identity.
#[derive(Clone, Copy, Debug, PartialEq, Eq, Structural)]
pub enum Encoding {
    Gzip,
}

/// The lower-case bytes of the one coding this server can produce.
pub open spec fn spec_gzip_token() -> Seq<u8> {
    seq![103u8, 122u8, 105u8, 112u8]
}

/// Value of a `q=` parameter in thousandths: `0`/`1` with up to three
/// decimals; anything else is malformed.
pub open spec fn spec_parse_qvalue(s: Seq<u8>, lo: int, hi: int) -> Option<int>
    recommends
        0 <= lo <= hi <= s.len(),
{
    if hi - lo < 1 {
        Option::None
    } else if s[lo] == 48 {
        if hi - lo == 1 {
            Option::Some(0)
        } else if s[lo + 1] == 46 && hi - lo <= 5 && (forall|k: int|
            lo + 2 <= k < hi ==> 48 <= #[trigger] s[k] <= 57) {
            Option::Some(spec_frac_millis(s, lo + 2, hi))
        } else {
            Option::None
        }
    } else if s[lo] == 49 {
        if hi - lo == 1 {
            Option::Some(1000)
        } else if s[lo + 1] == 46 && hi - lo <= 5 && (forall|k: int|
            lo + 2 <= k < hi ==> #[trigger] s[k] == 48) {
            Option::Some(1000)
        } else {
            Option::None
        }
    } else {
        Option::None
    }
}

/// Thousandths named by up to three fraction digits.
pub open spec fn spec_frac_millis(s: Seq<u8>, lo: int, hi: int) -> int
    recommends
        0 <= lo <= hi <= s.len(),
        hi - lo <= 3,
{
    let n = hi - lo;
    if n <= 0 {
        0
    } else if n == 1 {
        (s[lo] - 48) * 100
    } else if n == 2 {
        (s[lo] - 48) * 100 + (s[lo + 1] - 48) * 10
    } else {
        (s[lo] - 48) * 100 + (s[lo + 1] - 48) * 10 + (s[lo + 2] - 48)
    }
}

fn parse_qvalue(s: &[u8], lo: usize, hi: usize) -> (r: Option<u64>)
    requires
        lo <= hi <= s@.len(),
    ensures
        match r {
            Some(q) => spec_parse_qvalue(s@, lo as int, hi as int) == Some(q as int),
            None => spec_parse_qvalue(s@, lo as int, hi as int) is None,
        },
{
    if hi - lo < 1 {
        return None;
    }
    if s[lo] == 48 {
        if hi - lo == 1 {
            return Some(0);
        }
        if s[lo + 1] != 46 || hi - lo > 5 {
            return None;
        }
        let mut q: u64 = 0;
        let mut place: u64 = 100;
        let mut i = lo + 2;
        while i < hi
            invariant
                lo + 2 <= i <= hi <= s@.len(),
                hi - lo <= 5,
                s@[lo as int] == 48,
                s@[lo as int + 1] == 46,
                forall|k: int| lo + 2 <= k < i ==> 48 <= #[trigger] s@[k] <= 57,
                place == if i == lo + 2 {
                    100int
                } else if i == lo + 3 {
                    10int
                } else if i == lo + 4 {
                    1int
                } else {
                    0int
                },
                q == spec_frac_millis(s@, lo + 2, i as int),
            decreases hi - i,
        {
            let c = s[i];
            if !(48 <= c && c <= 57) {
                proof {
                    assert(lo + 2 <= i < hi && !(48 <= s@[i as int] <= 57));
                    assert(!(forall|k2: int| lo + 2 <= k2 < hi ==> 48 <= #[trigger] s@[k2] <= 57));
                }
                return None;
            }
            q = q + (c - 48) as u64 * place;
            place = place / 10;
            i = i + 1;
        }
        Some(q)
    } else if s[lo] == 49 {
        if hi - lo == 1 {
            return Some(1000);
        }
        if s[lo + 1] != 46 || hi - lo > 5 {
            return None;
        }
        let mut i = lo + 2;
        while i < hi
            invariant
                lo + 2 <= i <= hi <= s@.len(),
                hi - lo <= 5,
                s@[lo as int] == 49,
                s@[lo as int + 1] == 46,
                forall|k: int| lo + 2 <= k < i ==> #[trigger] s@[k] == 48,
            decreases hi - i,
        {
            if s[i] != 48 {
                proof {
                    assert(lo + 2 <= i < hi && s@[i as int] != 48);
                    assert(!(forall|k2: int| lo + 2 <= k2 < hi ==> #[trigger] s@[k2] == 48));
                }
                return None;
            }
            i = i + 1;
        }
        Some(1000)
    } else {
        None
    }
}

/// Whether `s[lo..hi]`, case-folded, is exactly `gzip`.
fn range_is_gzip(s: &[u8], lo: usize, hi: usize) -> (r: bool)
    requires
        lo <= hi <= s@.len(),
    ensures
        r == (spec_lower(s@.subrange(lo as int, hi as int)) == spec_gzip_token()),
{
    let ghost sub = s@.subrange(lo as int, hi as int);
    if hi - lo != 4 {
        proof {
            assert(spec_lower(sub).len() == sub.len());
        }
        return false;
    }
    let r = lower_byte(s[lo]) == 103 && lower_byte(s[lo + 1]) == 122 && lower_byte(s[lo + 2])
        == 105 && lower_byte(s[lo + 3]) == 112;
    proof {
        assert(spec_lower(sub).len() == 4);
        assert(spec_lower(sub)[0] == spec_lower_byte(s@[lo as int]));
        assert(spec_lower(sub)[1] == spec_lower_byte(s@[lo as int + 1]));
        assert(spec_lower(sub)[2] == spec_lower_byte(s@[lo as int + 2]));
        assert(spec_lower(sub)[3] == spec_lower_byte(s@[lo as int + 3]));
        if r {
            assert(spec_lower(sub) =~= spec_gzip_token());
        }
    }
    r
}

/// Meaning of one `Accept-Encoding` element in `s[lo..hi]`: a case-folded
/// coding token and its preference in thousandths (1000 when no `q=`
/// parameter is given). Only a single `q=` parameter is understood.
pub open spec fn spec_parse_encoding_item(s: Seq<u8>, lo: int, hi: int) -> Option<(Seq<u8>, int)>
    recommends
        0 <= lo <= hi <= s.len(),
{
    let semi = spec_find_byte_upto(s, 59, lo, hi);
    let a = spec_skip_ws(s, lo, semi);
    let b = spec_skip_ws_end(s, a, semi);
    if a == b {
        Option::None
    } else {
        let token = spec_lower(s.subrange(a, b));
        if semi == hi {
            Option::Some((token, 1000))
        } else {
            let pa = spec_skip_ws(s, semi + 1, hi);
            let pb = spec_skip_ws_end(s, pa, hi);
            if pb - pa >= 2 && s[pa] == 113 && s[pa + 1] == 61 {
                match spec_parse_qvalue(s, pa + 2, pb) {
                    Option::Some(q) => Option::Some((token, q)),
                    Option::None => Option::None,
                }
            } else {
                Option::None
            }
        }
    }
}

/// Whether one parsed element asks for gzip with nonzero preference.
pub open spec fn spec_gzip_item(item: (Seq<u8>, int)) -> bool {
    item.0 == spec_gzip_token() && item.1 > 0
}

/// Evaluate one element: does it parse, and does it ask for gzip?
fn eval_encoding_item(s: &[u8], lo: usize, hi: usize) -> (r: Option<bool>)
    requires
        lo <= hi <= s@.len(),
    ensures
        match spec_parse_encoding_item(s@, lo as int, hi as int) {
            Some(item) => r == Some(spec_gzip_item(item)),
            None => r is None,
        },
{
    let semi = find_byte_upto(s, 59, lo, hi);
    let a = skip_ws(s, lo, semi);
    let b = skip_ws_end(s, a, semi);
    if a == b {
        return None;
    }
    let is_gz = range_is_gzip(s, a, b);
    if semi == hi {
        return Some(is_gz);
    }
    let pa = skip_ws(s, semi + 1, hi);
    let pb = skip_ws_end(s, pa, hi);
    if pb - pa >= 2 && s[pa] == 113 && s[pa + 1] == 61 {
        match parse_qvalue(s, pa + 2, pb) {
            Some(q) => Some(is_gz && q > 0),
            None => None,
        }
    } else {
        None
    }
}

/// Meaning of the comma-separated `Accept-Encoding` elements starting at
/// `lo`; `None` when any element is malformed.
pub open spec fn spec_parse_accept_items(s: Seq<u8>, lo: int) -> Option<Seq<(Seq<u8>, int)>>
    decreases s.len() - lo,
        when 0 <= lo <= s.len()
        via spec_parse_accept_items_dec
{
    let c = spec_find_byte(s, 44, lo);
    match spec_parse_encoding_item(s, lo, c) {
        Option::None => Option::None,
        Option::Some(item) => {
            if c == s.len() {
                Option::Some(seq![item])
            } else {
                match spec_parse_accept_items(s, c + 1) {
                    Option::None => Option::None,
                    Option::Some(rest) => Option::Some(seq![item] + rest),
                }
            }
        },
    }
}

#[via_fn]
proof fn spec_parse_accept_items_dec(s: Seq<u8>, lo: int) {
    lemma_find_byte_bounds(s, 44, lo);
}

/// Whether any parsed element asks for gzip with nonzero preference.
pub open spec fn spec_has_gzip(items: Seq<(Seq<u8>, int)>) -> bool {
    exists|i: int| 0 <= i < items.len() && spec_gzip_item(#[trigger] items[i])
}

proof fn lemma_has_gzip_cons(item: (Seq<u8>, int), rest: Seq<(Seq<u8>, int)>)
    ensures
        spec_has_gzip(seq![item] + rest) == (spec_gzip_item(item) || spec_has_gzip(rest)),
{
    let all = seq![item] + rest;
    if spec_gzip_item(item) {
        assert(all[0] == item);
        assert(spec_has_gzip(all));
    }
    if spec_has_gzip(rest) {
        let i = choose|i: int| 0 <= i < rest.len() && spec_gzip_item(#[trigger] rest[i]);
        assert(all[i + 1] == rest[i]);
        assert(spec_has_gzip(all));
    }
    if spec_has_gzip(all) {
        let i = choose|i: int| 0 <= i < all.len() && spec_gzip_item(#[trigger] all[i]);
        if i == 0 {
            assert(all[0] == item);
        } else {
            assert(all[i] == rest[i - 1]);
            assert(spec_has_gzip(rest));
        }
    }
}

fn scan_accept_items(s: &[u8], lo: usize) -> (r: Option<bool>)
    requires
        lo <= s@.len(),
    ensures
        match spec_parse_accept_items(s@, lo as int) {
            Some(items) => r == Some(spec_has_gzip(items)),
            None => r is None,
        },
    decreases s@.len() - lo,
{
    let c = find_byte(s, 44, lo);
    let here = match eval_encoding_item(s, lo, c) {
        None => {
            return None;
        },
        Some(g) => g,
    };
    if c == s.len() {
        proof {
            let item = spec_parse_encoding_item(s@, lo as int, c as int)->0;
            lemma_has_gzip_cons(item, Seq::empty());
            assert(seq![item] + Seq::<(Seq<u8>, int)>::empty() =~= seq![item]);
        }
        Some(here)
    } else {
        match scan_accept_items(s, c + 1) {
            None => None,
            Some(rest) => {
                proof {
                    let item = spec_parse_encoding_item(s@, lo as int, c as int)->0;
                    if spec_parse_accept_items(s@, c + 1) is Some {
                        lemma_has_gzip_cons(item, spec_parse_accept_items(s@, c + 1)->0);
                    }
                }
                Some(here || rest)
            },
        }
    }
}

/// Whether an `Accept-Encoding` header value (absent, or possibly
/// malformed) admits gzip with nonzero preference.
pub open spec fn spec_negotiates_gzip(h: Option<Seq<u8>>) -> bool {
    match h {
        Option::Some(s) => match spec_parse_accept_items(s, 0) {
            Option::Some(items) => spec_has_gzip(items),
            Option::None => false,
        },
        Option::None => false,
    }
}

/// The model of an optional borrowed header value.
pub open spec fn spec_opt_bytes(h: Option<&Vec<u8>>) -> Option<Seq<u8>> {
    match h {
        Option::Some(b) => Option::Some(b@),
        Option::None => Option::None,
    }
}

/// Select the response content-encoding: `Gzip` when the client's
/// `Accept-Encoding` lists gzip with nonzero preference, else identity
/// (`None`). A missing or malformed header selects identity.
pub fn negotiate_encoding(accept_encoding: Option<&Vec<u8>>) -> (r: Option<Encoding>)
    ensures
        r == (if spec_negotiates_gzip(spec_opt_bytes(accept_encoding)) {
            Option::Some(Encoding::Gzip)
        } else {
            Option::None::<Encoding>
        }),
{
    match accept_encoding {
        Option::None => Option::None,
        Option::Some(h) => {
            match scan_accept_items(h.as_slice(), 0) {
                Option::Some(true) => Option::Some(Encoding::Gzip),
                _ => Option::None,
            }
        },
    }
}

/// The configured compression policy.
pub struct GzipOptions {
    /// Compression level, 1 through 9.
    pub level: u8,
    /// Smallest resource length worth compressing.
    pub threshold: u64,
    /// Extensions compressed even when the content type is not marked
    /// compressible; compared case-insensitively.
    pub also_extensions: Vec<Vec<u8>>,
}

/// Mathematical model of `GzipOptions`.
pub struct GzipOptionsView {
    pub level: u8,
    pub threshold: u64,
    pub also_extensions: Seq<Seq<u8>>,
}

impl View for GzipOptions {
    type V = GzipOptionsView;

    open spec fn view(&self) -> GzipOptionsView {
        GzipOptionsView {
            level: self.level,
            threshold: self.threshold,
            also_extensions: self.also_extensions.deep_view(),
        }
    }
}

/// A usable policy: a level the compressor understands.
pub open spec fn spec_gzip_opts_wf(o: GzipOptionsView) -> bool {
    1 <= o.level <= 9
}

/// Whether the extension's case-folded form stands in the list.
pub open spec fn spec_ext_in_list(list: Seq<Seq<u8>>, e: Seq<u8>) -> bool {
    exists|i: int| 0 <= i < list.len() && spec_lower(#[trigger] list[i]) == spec_lower(e)
}

/// Whether the extension stands in the allow-list, case-insensitively.
pub open spec fn spec_ext_allowed(list: Seq<Seq<u8>>, ext: Option<Seq<u8>>) -> bool {
    match ext {
        Option::Some(e) => spec_ext_in_list(list, e),
        Option::None => false,
    }
}

/// Compression eligibility: a policy is configured, the resource is at
/// least the threshold long, its type is compressible or its extension
/// allow-listed, and the client negotiated gzip.
pub open spec fn spec_should_gzip(
    opts: Option<GzipOptionsView>,
    len: u64,
    compressible: bool,
    ext: Option<Seq<u8>>,
    accept_encoding: Option<Seq<u8>>,
) -> bool {
    match opts {
        Option::None => false,
        Option::Some(o) => (compressible || spec_ext_allowed(o.also_extensions, ext)) && len
            >= o.threshold && spec_negotiates_gzip(accept_encoding),
    }
}

fn ext_allowed(list: &Vec<Vec<u8>>, ext: Option<&Vec<u8>>) -> (r: bool)
    ensures
        r == spec_ext_allowed(list.deep_view(), spec_opt_bytes(ext)),
{
    let e = match ext {
        Option::None => {
            return false;
        },
        Option::Some(e) => e,
    };
    for i in 0..list.len()
        invariant
            spec_opt_bytes(ext) == Option::Some(e@),
            forall|j: int|
                0 <= j < i ==> spec_lower(#[trigger] list.deep_view()[j]) != spec_lower(e@),
    {
        if crate::util::ascii_eq_ignore_case(list[i].as_slice(), e.as_slice()) {
            proof {
                assert(list.deep_view()[i as int] =~= list@[i as int]@);
                assert(spec_lower(list.deep_view()[i as int]) == spec_lower(e@));
                assert(spec_ext_in_list(list.deep_view(), e@));
            }
            return true;
        }
        proof {
            assert(list.deep_view()[i as int] =~= list@[i as int]@);
        }
    }
    false
}

/// The model of an optional borrowed policy.
pub open spec fn spec_opt_gzip_view(o: Option<&GzipOptions>) -> Option<GzipOptionsView> {
    match o {
        Option::Some(o) => Option::Some(o@),
        Option::None => Option::None,
    }
}

/// Decide whether this response will be gzip-compressed.
pub fn should_gzip(
    opts: Option<&GzipOptions>,
    len: u64,
    compressible: bool,
    ext: Option<&Vec<u8>>,
    accept_encoding: Option<&Vec<u8>>,
) -> (r: bool)
    ensures
        r == spec_should_gzip(
            spec_opt_gzip_view(opts),
            len,
            compressible,
            spec_opt_bytes(ext),
            spec_opt_bytes(accept_encoding),
        ),
{
    let o = match opts {
        Option::None => {
            return false;
        },
        Option::Some(o) => o,
    };
    let eligible = compressible || ext_allowed(&o.also_extensions, ext);
    eligible && len >= o.threshold && negotiate_encoding(accept_encoding).is_some()
}

} // verus!
