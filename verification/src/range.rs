//! Resolution of the HTTP `Range` request header against a resource length:
//! single byte ranges only, with the end clamped to the last byte of the
//! resource.

use vstd::prelude::*;
use crate::util::{
    find_byte, find_byte_upto, lemma_find_byte_bounds, lower_byte, parse_u64, skip_ws,
    skip_ws_end, spec_find_byte, spec_find_byte_upto, spec_lower, spec_lower_byte,
    spec_parse_u64, spec_skip_ws, spec_skip_ws_end,
};

verus! {

/// One byte-range-spec from a `Range: bytes=...` header, as the client sent
/// it, before validation against the resource length.
#[derive(Clone, Copy, Debug, PartialEq, Eq, Structural)]
pub enum ByteRangeSpec {
    /// `start-end`, both bounds inclusive.
    FromTo(u64, u64),
    /// `start-`: from `start` through the end of the resource.
    AllFrom(u64),
    /// `-n`: a suffix of the resource.
    Last(u64),
}

/// A parsed `Range` header value.
pub enum RangeHeader {
    /// `bytes=...` with the listed byte-range-specs.
    Bytes(Vec<ByteRangeSpec>),
    /// A range unit other than `bytes`; never satisfiable here.
    Other,
}

/// Mathematical model of a `RangeHeader`.
pub enum RangeHeaderView {
    Bytes(Seq<ByteRangeSpec>),
    Other,
}

impl View for RangeHeader {
    type V = RangeHeaderView;

    open spec fn view(&self) -> RangeHeaderView {
        match self {
            RangeHeader::Bytes(v) => RangeHeaderView::Bytes(v@),
            RangeHeader::Other => RangeHeaderView::Other,
        }
    }
}

/// An interval of byte offsets within a resource, both bounds inclusive.
/// It becomes exclusive-end only at the point of chunk iteration.
#[derive(Clone, Copy, Debug, PartialEq, Eq, Structural)]
pub struct ByteRange {
    pub start: u64,
    pub end: u64,
}

/// The three terminal classifications of a request's `Range` header.
#[derive(Clone, Copy, Debug, PartialEq, Eq, Structural)]
pub enum RequestedRange {
    /// The client did not send a `Range` header.
    Absent,
    /// A `Range` header was sent but cannot be satisfied: malformed, a unit
    /// other than bytes, an empty list, out of bounds, or an empty resource.
    NotSatisfiable,
    /// The request can be served from this clamped sub-range.
    Satisfiable(ByteRange),
}

/// Resolution of a single byte-range-spec against a resource of `len > 0`
/// bytes: the end is clamped to the last byte, a suffix takes at most the
/// whole resource, and a start past the last byte is unsatisfiable.
pub open spec fn spec_resolve_spec(s: ByteRangeSpec, len: u64) -> RequestedRange
    recommends
        len > 0,
{
    let max_end = (len - 1) as u64;
    match s {
        ByteRangeSpec::FromTo(start, end) => {
            let end_c = if end <= max_end {
                end
            } else {
                max_end
            };
            if start <= end_c {
                RequestedRange::Satisfiable(ByteRange { start, end: end_c })
            } else {
                RequestedRange::NotSatisfiable
            }
        },
        ByteRangeSpec::AllFrom(start) => {
            if start <= max_end {
                RequestedRange::Satisfiable(ByteRange { start, end: max_end })
            } else {
                RequestedRange::NotSatisfiable
            }
        },
        ByteRangeSpec::Last(suffix) => {
            if suffix == 0 {
                RequestedRange::NotSatisfiable
            } else {
                let start = if suffix <= max_end {
                    (max_end - suffix) as u64
                } else {
                    0u64
                };
                RequestedRange::Satisfiable(ByteRange { start, end: max_end })
            }
        },
    }
}

/// Full classification of a request's `Range` header: absent, present but
/// unparsable, wrong unit, empty list, empty resource, and otherwise the
/// resolution of the first listed range (later ranges are ignored).
pub open spec fn spec_requested_range(
    has_header: bool,
    header: Option<RangeHeaderView>,
    len: u64,
) -> RequestedRange {
    match header {
        Option::None => if has_header {
            RequestedRange::NotSatisfiable
        } else {
            RequestedRange::Absent
        },
        Option::Some(RangeHeaderView::Other) => RequestedRange::NotSatisfiable,
        Option::Some(RangeHeaderView::Bytes(ranges)) => {
            if ranges.len() == 0 {
                RequestedRange::NotSatisfiable
            } else if len == 0 {
                RequestedRange::NotSatisfiable
            } else {
                spec_resolve_spec(ranges[0], len)
            }
        },
    }
}

/// The model of an optional borrowed header value.
pub open spec fn spec_opt_header_view(h: Option<&RangeHeader>) -> Option<RangeHeaderView> {
    match h {
        Option::Some(h) => Option::Some(h@),
        Option::None => Option::None,
    }
}

/// Classify a request's `Range` header against a resource of `file_len`
/// bytes. `has_header` tells a header that was absent apart from one that
/// was present but failed to parse (`header_value` is `None` in both
/// cases); only the latter is `NotSatisfiable`.
pub fn parse_range_header(
    has_header: bool,
    header_value: Option<&RangeHeader>,
    file_len: u64,
) -> (r: RequestedRange)
    ensures
        r == spec_requested_range(has_header, spec_opt_header_view(header_value), file_len),
{
    match header_value {
        Option::None => {
            if has_header {
                RequestedRange::NotSatisfiable
            } else {
                RequestedRange::Absent
            }
        },
        Option::Some(RangeHeader::Other) => RequestedRange::NotSatisfiable,
        Option::Some(RangeHeader::Bytes(ranges)) => {
            if ranges.len() == 0 || file_len == 0 {
                return RequestedRange::NotSatisfiable;
            }
            let max_end = file_len - 1;
            match ranges[0] {
                ByteRangeSpec::FromTo(start, end) => {
                    let end_c = if end <= max_end {
                        end
                    } else {
                        max_end
                    };
                    if start <= end_c {
                        RequestedRange::Satisfiable(ByteRange { start, end: end_c })
                    } else {
                        RequestedRange::NotSatisfiable
                    }
                },
                ByteRangeSpec::AllFrom(start) => {
                    if start <= max_end {
                        RequestedRange::Satisfiable(ByteRange { start, end: max_end })
                    } else {
                        RequestedRange::NotSatisfiable
                    }
                },
                ByteRangeSpec::Last(suffix) => {
                    if suffix == 0 {
                        RequestedRange::NotSatisfiable
                    } else {
                        let start = if suffix <= max_end {
                            max_end - suffix
                        } else {
                            0u64
                        };
                        RequestedRange::Satisfiable(ByteRange { start, end: max_end })
                    }
                },
            }
        },
    }
}

/// Meaning of `s[lo..hi]` as one byte-range-spec: `a-b`, `a-`, or `-n`.
pub open spec fn spec_parse_byte_range_spec(s: Seq<u8>, lo: int, hi: int) -> Option<ByteRangeSpec>
    recommends
        0 <= lo <= hi <= s.len(),
{
    let dash = spec_find_byte_upto(s, 45, lo, hi);
    if dash == hi {
        Option::None
    } else if dash == lo {
        match spec_parse_u64(s, lo + 1, hi) {
            Option::Some(n) => Option::Some(ByteRangeSpec::Last(n)),
            Option::None => Option::None,
        }
    } else if dash == hi - 1 {
        match spec_parse_u64(s, lo, hi - 1) {
            Option::Some(a) => Option::Some(ByteRangeSpec::AllFrom(a)),
            Option::None => Option::None,
        }
    } else {
        match spec_parse_u64(s, lo, dash) {
            Option::Some(a) => match spec_parse_u64(s, dash + 1, hi) {
                Option::Some(b) => Option::Some(ByteRangeSpec::FromTo(a, b)),
                Option::None => Option::None,
            },
            Option::None => Option::None,
        }
    }
}

fn parse_byte_range_spec(s: &[u8], lo: usize, hi: usize) -> (r: Option<ByteRangeSpec>)
    requires
        lo <= hi <= s@.len(),
    ensures
        r == spec_parse_byte_range_spec(s@, lo as int, hi as int),
{
    let dash = find_byte_upto(s, 45, lo, hi);
    if dash == hi {
        Option::None
    } else if dash == lo {
        match parse_u64(s, lo + 1, hi) {
            Option::Some(n) => Option::Some(ByteRangeSpec::Last(n)),
            Option::None => Option::None,
        }
    } else if dash == hi - 1 {
        match parse_u64(s, lo, hi - 1) {
            Option::Some(a) => Option::Some(ByteRangeSpec::AllFrom(a)),
            Option::None => Option::None,
        }
    } else {
        match parse_u64(s, lo, dash) {
            Option::Some(a) => match parse_u64(s, dash + 1, hi) {
                Option::Some(b) => Option::Some(ByteRangeSpec::FromTo(a, b)),
                Option::None => Option::None,
            },
            Option::None => Option::None,
        }
    }
}

/// Meaning of the comma-separated byte-range-specs starting at `lo`;
/// `None` when any element is malformed.
pub open spec fn spec_parse_range_items(s: Seq<u8>, lo: int) -> Option<Seq<ByteRangeSpec>>
    decreases s.len() - lo,
        when 0 <= lo <= s.len()
        via spec_parse_range_items_dec
{
    let c = spec_find_byte(s, 44, lo);
    let a = spec_skip_ws(s, lo, c);
    let b = spec_skip_ws_end(s, a, c);
    match spec_parse_byte_range_spec(s, a, b) {
        Option::None => Option::None,
        Option::Some(item) => {
            if c == s.len() {
                Option::Some(seq![item])
            } else {
                match spec_parse_range_items(s, c + 1) {
                    Option::None => Option::None,
                    Option::Some(rest) => Option::Some(seq![item] + rest),
                }
            }
        },
    }
}

#[via_fn]
proof fn spec_parse_range_items_dec(s: Seq<u8>, lo: int) {
    lemma_find_byte_bounds(s, 44, lo);
}

fn parse_range_items(s: &[u8], lo: usize) -> (r: Option<Vec<ByteRangeSpec>>)
    requires
        lo <= s@.len(),
    ensures
        match r {
            Some(v) => spec_parse_range_items(s@, lo as int) == Some(v@),
            None => spec_parse_range_items(s@, lo as int) is None,
        },
    decreases s@.len() - lo,
{
    let c = find_byte(s, 44, lo);
    let a = skip_ws(s, lo, c);
    let b = skip_ws_end(s, a, c);
    let item = match parse_byte_range_spec(s, a, b) {
        Option::None => {
            return None;
        },
        Option::Some(item) => item,
    };
    if c == s.len() {
        let mut v: Vec<ByteRangeSpec> = Vec::new();
        v.push(item);
        proof {
            assert(v@ =~= seq![item]);
        }
        Some(v)
    } else {
        match parse_range_items(s, c + 1) {
            None => None,
            Some(rest) => {
                let mut v = rest;
                v.insert(0, item);
                proof {
                    assert(v@ =~= seq![item] + rest@);
                }
                Some(v)
            },
        }
    }
}

/// The lower-case bytes of the one range unit this server understands.
pub open spec fn spec_bytes_unit() -> Seq<u8> {
    seq![98u8, 121u8, 116u8, 101u8, 115u8]
}

/// Meaning of a whole `Range` header value: a unit, `=`, and for the
/// `bytes` unit a list of byte-range-specs. Another unit parses as
/// `Other`; a missing `=` or a malformed list is `None`.
pub open spec fn spec_parse_range_header_value(s: Seq<u8>) -> Option<RangeHeaderView> {
    let eq = spec_find_byte(s, 61, 0);
    if eq == s.len() {
        Option::None
    } else if spec_lower(s.subrange(0, eq)) == spec_bytes_unit() {
        match spec_parse_range_items(s, eq + 1) {
            Option::Some(items) => Option::Some(RangeHeaderView::Bytes(items)),
            Option::None => Option::None,
        }
    } else {
        Option::Some(RangeHeaderView::Other)
    }
}

/// Whether `s[lo..hi]`, case-folded, is exactly `bytes`.
fn range_unit_is_bytes(s: &[u8], lo: usize, hi: usize) -> (r: bool)
    requires
        lo <= hi <= s@.len(),
    ensures
        r == (spec_lower(s@.subrange(lo as int, hi as int)) == spec_bytes_unit()),
{
    let ghost sub = s@.subrange(lo as int, hi as int);
    if hi - lo != 5 {
        proof {
            assert(spec_lower(sub).len() == sub.len());
        }
        return false;
    }
    let r = lower_byte(s[lo]) == 98 && lower_byte(s[lo + 1]) == 121 && lower_byte(s[lo + 2])
        == 116 && lower_byte(s[lo + 3]) == 101 && lower_byte(s[lo + 4]) == 115;
    proof {
        assert(spec_lower(sub).len() == 5);
        assert(spec_lower(sub)[0] == spec_lower_byte(s@[lo as int]));
        assert(spec_lower(sub)[1] == spec_lower_byte(s@[lo as int + 1]));
        assert(spec_lower(sub)[2] == spec_lower_byte(s@[lo as int + 2]));
        assert(spec_lower(sub)[3] == spec_lower_byte(s@[lo as int + 3]));
        assert(spec_lower(sub)[4] == spec_lower_byte(s@[lo as int + 4]));
        if r {
            assert(spec_lower(sub) =~= spec_bytes_unit());
        }
    }
    r
}

/// Parse a `Range` header value from its wire bytes.
pub fn parse_range_header_value(s: &[u8]) -> (r: Option<RangeHeader>)
    ensures
        match r {
            Some(h) => spec_parse_range_header_value(s@) == Some(h@),
            None => spec_parse_range_header_value(s@) is None,
        },
{
    let eq = find_byte(s, 61, 0);
    if eq == s.len() {
        return None;
    }
    if range_unit_is_bytes(s, 0, eq) {
        match parse_range_items(s, eq + 1) {
            Option::Some(items) => Option::Some(RangeHeader::Bytes(items)),
            Option::None => Option::None,
        }
    } else {
        Option::Some(RangeHeader::Other)
    }
}

/// Classification of an optional raw `Range` header against a resource
/// length: absent, or parsed and resolved.
pub open spec fn spec_range_outcome(header: Option<Seq<u8>>, len: u64) -> RequestedRange {
    match header {
        Option::None => spec_requested_range(false, Option::None, len),
        Option::Some(s) => spec_requested_range(true, spec_parse_range_header_value(s), len),
    }
}

/// The model of an optional borrowed header value.
pub open spec fn spec_opt_raw_view(h: Option<&Vec<u8>>) -> Option<Seq<u8>> {
    match h {
        Option::Some(b) => Option::Some(b@),
        Option::None => Option::None,
    }
}

/// Classify a request's raw `Range` header bytes (or its absence)
/// against a resource of `file_len` bytes.
pub fn range_outcome(header: Option<&Vec<u8>>, file_len: u64) -> (r: RequestedRange)
    ensures
        r == spec_range_outcome(spec_opt_raw_view(header), file_len),
{
    match header {
        Option::None => parse_range_header(false, Option::None, file_len),
        Option::Some(raw) => {
            let parsed = parse_range_header_value(raw.as_slice());
            match parsed {
                Option::None => parse_range_header(true, Option::None, file_len),
                Option::Some(h) => parse_range_header(true, Option::Some(&h), file_len),
            }
        },
    }
}

/// A satisfiable outcome always lies inside the resource: the clamped
/// interval satisfies `start <= end < len`.
pub proof fn lemma_requested_range_bounds(
    has_header: bool,
    header: Option<RangeHeaderView>,
    len: u64,
)
    ensures
        (spec_requested_range(has_header, header, len) matches RequestedRange::Satisfiable(br)
            ==> br.start <= br.end < len),
{
    match header {
        Option::Some(RangeHeaderView::Bytes(ranges)) => {
            if ranges.len() > 0 && len > 0 {
                match ranges[0] {
                    ByteRangeSpec::FromTo(start, end) => {
                    },
                    ByteRangeSpec::AllFrom(start) => {
                    },
                    ByteRangeSpec::Last(suffix) => {
                    },
                }
            }
        },
        _ => {
        },
    }
}

/// A satisfiable outcome of a raw header classification lies inside the
/// resource.
pub proof fn lemma_range_bounds(header: Option<Seq<u8>>, len: u64)
    ensures
        (spec_range_outcome(header, len) matches RequestedRange::Satisfiable(br) ==> br.start
            <= br.end < len),
{
    match header {
        Option::Some(s) => {
            lemma_requested_range_bounds(true, spec_parse_range_header_value(s), len);
        },
        Option::None => {
            lemma_requested_range_bounds(false, Option::None, len);
        },
    }
}

/// For a resource of `len > 0` bytes, the request `start-end` is satisfiable
/// exactly when `start <= min(end, len - 1)` (which entails
/// `start <= len - 1`), and then resolves to start `start` and end
/// `min(end, len - 1)`.
pub proof fn lemma_from_to_range(len: u64, start: u64, end: u64)
    requires
        len > 0,
    ensures
        ({
            let r = spec_requested_range(
                true,
                Option::Some(RangeHeaderView::Bytes(seq![ByteRangeSpec::FromTo(start, end)])),
                len,
            );
            let end_c: int = if end <= len - 1 {
                end as int
            } else {
                len - 1
            };
            &&& (r is Satisfiable <==> start <= end_c)
            &&& (r is Satisfiable ==> start <= len - 1)
            &&& (r is Satisfiable ==> r->Satisfiable_0 == ByteRange {
                start,
                end: end_c as u64,
            })
        }),
{
}

/// Against an empty resource, every supplied range — even the degenerate
/// `0-0` — is unsatisfiable.
pub proof fn lemma_empty_resource_not_satisfiable(header: Option<RangeHeaderView>)
    ensures
        spec_requested_range(true, header, 0) is NotSatisfiable,
{
}

/// An absent `Range` header classifies as `None`; a present but unparsable
/// one classifies as `NotSatisfiable`. The two are never conflated.
pub proof fn lemma_absent_vs_unparsable(len: u64)
    ensures
        spec_requested_range(false, Option::None, len) is Absent,
        spec_requested_range(true, Option::None, len) is NotSatisfiable,
{
}

} // verus!
