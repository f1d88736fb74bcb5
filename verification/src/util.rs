//! Byte-level helpers shared by the header parsers: equality, ASCII
//! case-insensitive comparison, searching, whitespace trimming, and
//! decimal numbers.

use vstd::prelude::*;

verus! {

/// Lower-case image of one byte; only ASCII letters are folded.
pub open spec fn spec_lower_byte(b: u8) -> u8 {
    if 65 <= b <= 90 {
        (b + 32) as u8
    } else {
        b
    }
}

/// Lower-case image of a byte sequence, ASCII letters only.
pub open spec fn spec_lower(s: Seq<u8>) -> Seq<u8> {
    s.map_values(|b: u8| spec_lower_byte(b))
}

/// Exact equality of two byte slices.
pub fn bytes_eq(a: &[u8], b: &[u8]) -> (r: bool)
    ensures
        r == (a@ == b@),
{
    if a.len() != b.len() {
        return false;
    }
    for i in 0..a.len()
        invariant
            a@.len() == b@.len(),
            forall|j: int| 0 <= j < i ==> a@[j] == b@[j],
    {
        if a[i] != b[i] {
            return false;
        }
    }
    proof {
        assert(a@ =~= b@);
    }
    true
}

pub fn lower_byte(b: u8) -> (r: u8)
    ensures
        r == spec_lower_byte(b),
{
    if 65 <= b && b <= 90 {
        b + 32
    } else {
        b
    }
}

/// ASCII case-insensitive equality of two byte slices.
pub fn ascii_eq_ignore_case(a: &[u8], b: &[u8]) -> (r: bool)
    ensures
        r == (spec_lower(a@) == spec_lower(b@)),
{
    if a.len() != b.len() {
        proof {
            assert(spec_lower(a@).len() != spec_lower(b@).len());
        }
        return false;
    }
    for i in 0..a.len()
        invariant
            a@.len() == b@.len(),
            forall|j: int| 0 <= j < i ==> spec_lower(a@)[j] == spec_lower(b@)[j],
    {
        if lower_byte(a[i]) != lower_byte(b[i]) {
            proof {
                assert(spec_lower(a@)[i as int] == spec_lower_byte(a@[i as int]));
                assert(spec_lower(b@)[i as int] == spec_lower_byte(b@[i as int]));
            }
            return false;
        }
    }
    proof {
        assert(spec_lower(a@) =~= spec_lower(b@));
    }
    true
}

/// Index of the first occurrence of `b` in `s` at or after `from`, or
/// `s.len()` when there is none.
pub open spec fn spec_find_byte(s: Seq<u8>, b: u8, from: int) -> int
    recommends
        0 <= from <= s.len(),
    decreases s.len() - from,
{
    if from >= s.len() {
        s.len() as int
    } else if s[from] == b {
        from
    } else {
        spec_find_byte(s, b, from + 1)
    }
}

/// The found position lies between `from` and `s.len()`, and is an
/// occurrence unless it is `s.len()`.
pub proof fn lemma_find_byte_bounds(s: Seq<u8>, b: u8, from: int)
    requires
        0 <= from <= s.len(),
    ensures
        from <= spec_find_byte(s, b, from) <= s.len(),
        spec_find_byte(s, b, from) < s.len() ==> s[spec_find_byte(s, b, from)] == b,
    decreases s.len() - from,
{
    if from < s.len() && s[from] != b {
        lemma_find_byte_bounds(s, b, from + 1);
    }
}

pub fn find_byte(s: &[u8], b: u8, from: usize) -> (r: usize)
    requires
        from <= s@.len(),
    ensures
        r == spec_find_byte(s@, b, from as int),
        from <= r <= s@.len(),
{
    let mut i = from;
    while i < s.len()
        invariant
            from <= i <= s@.len(),
            spec_find_byte(s@, b, from as int) == spec_find_byte(s@, b, i as int),
        decreases s@.len() - i,
    {
        if s[i] == b {
            return i;
        }
        i = i + 1;
    }
    i
}

/// Before the found position there is no occurrence.
pub proof fn lemma_find_byte_first(s: Seq<u8>, b: u8, from: int)
    requires
        0 <= from <= s.len(),
    ensures
        forall|k: int| from <= k < spec_find_byte(s, b, from) ==> s[k] != b,
    decreases s.len() - from,
{
    if from < s.len() && s[from] != b {
        lemma_find_byte_first(s, b, from + 1);
    }
}

/// Index of the first occurrence of `b` in `[from, to)`, or `to` when
/// there is none.
pub open spec fn spec_find_byte_upto(s: Seq<u8>, b: u8, from: int, to: int) -> int
    recommends
        0 <= from <= to <= s.len(),
    decreases to - from,
{
    if from >= to {
        to
    } else if s[from] == b {
        from
    } else {
        spec_find_byte_upto(s, b, from + 1, to)
    }
}

pub proof fn lemma_find_byte_upto_props(s: Seq<u8>, b: u8, from: int, to: int)
    requires
        0 <= from <= to <= s.len(),
    ensures
        from <= spec_find_byte_upto(s, b, from, to) <= to,
        spec_find_byte_upto(s, b, from, to) < to ==> s[spec_find_byte_upto(s, b, from, to)] == b,
        forall|k: int| from <= k < spec_find_byte_upto(s, b, from, to) ==> s[k] != b,
    decreases to - from,
{
    if from < to && s[from] != b {
        lemma_find_byte_upto_props(s, b, from + 1, to);
    }
}

pub fn find_byte_upto(s: &[u8], b: u8, from: usize, to: usize) -> (r: usize)
    requires
        from <= to <= s@.len(),
    ensures
        r == spec_find_byte_upto(s@, b, from as int, to as int),
        from <= r <= to,
{
    let mut i = from;
    while i < to
        invariant
            from <= i <= to <= s@.len(),
            spec_find_byte_upto(s@, b, from as int, to as int) == spec_find_byte_upto(
                s@,
                b,
                i as int,
                to as int,
            ),
        decreases to - i,
    {
        if s[i] == b {
            return i;
        }
        i = i + 1;
    }
    i
}

/// Index of the last occurrence of `b` in `[0, upto)`, or `-1` when there
/// is none.
pub open spec fn spec_rfind_byte(s: Seq<u8>, b: u8, upto: int) -> int
    recommends
        0 <= upto <= s.len(),
    decreases upto,
{
    if upto <= 0 {
        -1
    } else if s[upto - 1] == b {
        upto - 1
    } else {
        spec_rfind_byte(s, b, upto - 1)
    }
}

pub proof fn lemma_rfind_byte_props(s: Seq<u8>, b: u8, upto: int)
    requires
        0 <= upto <= s.len(),
    ensures
        -1 <= spec_rfind_byte(s, b, upto) < upto,
        spec_rfind_byte(s, b, upto) >= 0 ==> s[spec_rfind_byte(s, b, upto)] == b,
        forall|k: int| spec_rfind_byte(s, b, upto) < k < upto ==> s[k] != b,
    decreases upto,
{
    if upto > 0 && s[upto - 1] != b {
        lemma_rfind_byte_props(s, b, upto - 1);
    }
}

/// Position after the last occurrence of `b` in `[0, upto)`, as a
/// `usize`-friendly form of `spec_rfind_byte + 1`.
pub fn rfind_byte_plus_one(s: &[u8], b: u8, upto: usize) -> (r: usize)
    requires
        upto <= s@.len(),
    ensures
        r == spec_rfind_byte(s@, b, upto as int) + 1,
        r <= upto,
{
    let mut i = upto;
    while i > 0
        invariant
            i <= upto <= s@.len(),
            spec_rfind_byte(s@, b, upto as int) == spec_rfind_byte(s@, b, i as int),
        decreases i,
    {
        if s[i - 1] == b {
            return i;
        }
        i = i - 1;
    }
    0
}

/// The two slices, one after the other, as a new vector.
pub fn concat_bytes(a: &[u8], b: &[u8]) -> (r: Vec<u8>)
    ensures
        r@ == a@ + b@,
{
    let mut out: Vec<u8> = Vec::new();
    for i in 0..a.len()
        invariant
            out@ == a@.subrange(0, i as int),
    {
        out.push(a[i]);
        proof {
            assert(a@.subrange(0, i as int) + seq![a@[i as int]] =~= a@.subrange(0, i + 1));
        }
    }
    proof {
        assert(a@.subrange(0, a@.len() as int) =~= a@);
    }
    let ghost head = out@;
    for i in 0..b.len()
        invariant
            out@ == head + b@.subrange(0, i as int),
    {
        out.push(b[i]);
        proof {
            assert(head + b@.subrange(0, i as int) + seq![b@[i as int]] =~= head + b@.subrange(
                0,
                i + 1,
            ));
        }
    }
    proof {
        assert(b@.subrange(0, b@.len() as int) =~= b@);
        assert(out@ =~= a@ + b@);
    }
    out
}

/// Whether a byte is linear whitespace inside a header value (space or
/// horizontal tab).
pub open spec fn spec_is_ws(b: u8) -> bool {
    b == 32 || b == 9
}

/// First index in `[lo, hi)` that is not whitespace, or `hi`.
pub open spec fn spec_skip_ws(s: Seq<u8>, lo: int, hi: int) -> int
    recommends
        0 <= lo <= hi <= s.len(),
    decreases hi - lo,
{
    if lo >= hi {
        hi
    } else if spec_is_ws(s[lo]) {
        spec_skip_ws(s, lo + 1, hi)
    } else {
        lo
    }
}

/// Last bound in `(lo, hi]` such that the byte before it is not whitespace,
/// or `lo`.
pub open spec fn spec_skip_ws_end(s: Seq<u8>, lo: int, hi: int) -> int
    recommends
        0 <= lo <= hi <= s.len(),
    decreases hi - lo,
{
    if lo >= hi {
        lo
    } else if spec_is_ws(s[hi - 1]) {
        spec_skip_ws_end(s, lo, hi - 1)
    } else {
        hi
    }
}

pub proof fn lemma_skip_ws_bounds(s: Seq<u8>, lo: int, hi: int)
    requires
        0 <= lo <= hi <= s.len(),
    ensures
        lo <= spec_skip_ws(s, lo, hi) <= hi,
        lo <= spec_skip_ws_end(s, lo, hi) <= hi,
    decreases hi - lo,
{
    if lo < hi {
        if spec_is_ws(s[lo]) || spec_is_ws(s[hi - 1]) {
            if spec_is_ws(s[lo]) {
                lemma_skip_ws_bounds(s, lo + 1, hi);
            }
            if spec_is_ws(s[hi - 1]) {
                lemma_skip_ws_bounds(s, lo, hi - 1);
            }
        }
    }
}

pub fn skip_ws(s: &[u8], lo: usize, hi: usize) -> (r: usize)
    requires
        lo <= hi <= s@.len(),
    ensures
        r == spec_skip_ws(s@, lo as int, hi as int),
        lo <= r <= hi,
{
    let mut i = lo;
    while i < hi
        invariant
            lo <= i <= hi <= s@.len(),
            spec_skip_ws(s@, lo as int, hi as int) == spec_skip_ws(s@, i as int, hi as int),
        decreases hi - i,
    {
        if !(s[i] == 32 || s[i] == 9) {
            return i;
        }
        i = i + 1;
    }
    i
}

pub fn skip_ws_end(s: &[u8], lo: usize, hi: usize) -> (r: usize)
    requires
        lo <= hi <= s@.len(),
    ensures
        r == spec_skip_ws_end(s@, lo as int, hi as int),
        lo <= r <= hi,
{
    let mut i = hi;
    while i > lo
        invariant
            lo <= i <= hi <= s@.len(),
            spec_skip_ws_end(s@, lo as int, hi as int) == spec_skip_ws_end(s@, lo as int, i as int),
        decreases i,
    {
        if !(s[i - 1] == 32 || s[i - 1] == 9) {
            return i;
        }
        i = i - 1;
    }
    i
}

/// Whether `s` is one or more ASCII digits.
pub open spec fn spec_is_digits(s: Seq<u8>) -> bool {
    s.len() > 0 && forall|i: int| 0 <= i < s.len() ==> 48 <= #[trigger] s[i] <= 57
}

/// Numeric value of a sequence of ASCII digits.
pub open spec fn spec_dec_val(s: Seq<u8>) -> int
    recommends
        spec_is_digits(s),
    decreases s.len(),
{
    if s.len() == 0 {
        0
    } else {
        spec_dec_val(s.drop_last()) * 10 + (s.last() - 48)
    }
}

pub proof fn lemma_dec_val_nonneg(s: Seq<u8>)
    requires
        forall|i: int| 0 <= i < s.len() ==> 48 <= #[trigger] s[i] <= 57,
    ensures
        spec_dec_val(s) >= 0,
    decreases s.len(),
{
    if s.len() > 0 {
        assert(forall|i: int|
            0 <= i < s.drop_last().len() ==> 48 <= #[trigger] s.drop_last()[i] <= 57);
        lemma_dec_val_nonneg(s.drop_last());
    }
}

/// A digit string's value only grows as more digits are appended.
pub proof fn lemma_dec_val_prefix_le(s: Seq<u8>, k: int)
    requires
        forall|i: int| 0 <= i < s.len() ==> 48 <= #[trigger] s[i] <= 57,
        0 <= k <= s.len(),
    ensures
        spec_dec_val(s.subrange(0, k)) <= spec_dec_val(s),
    decreases s.len() - k,
{
    if k == s.len() {
        assert(s.subrange(0, k) =~= s);
    } else {
        let a = s.subrange(0, k);
        let b = s.subrange(0, k + 1);
        assert(b.drop_last() =~= a);
        assert(forall|i: int| 0 <= i < a.len() ==> 48 <= #[trigger] a[i] <= 57);
        lemma_dec_val_nonneg(a);
        assert(spec_dec_val(b) == spec_dec_val(a) * 10 + (s[k] - 48));
        lemma_dec_val_prefix_le(s, k + 1);
    }
}

/// Meaning of `s[lo..hi]` as a decimal `u64`: `None` when the slice is
/// empty, holds a non-digit, or its value exceeds `u64::MAX`.
pub open spec fn spec_parse_u64(s: Seq<u8>, lo: int, hi: int) -> Option<u64>
    recommends
        0 <= lo <= hi <= s.len(),
{
    let d = s.subrange(lo, hi);
    if spec_is_digits(d) && spec_dec_val(d) <= u64::MAX {
        Option::Some(spec_dec_val(d) as u64)
    } else {
        Option::None
    }
}

/// Parse the decimal digits in `s[lo..hi]` as a `u64`.
pub fn parse_u64(s: &[u8], lo: usize, hi: usize) -> (r: Option<u64>)
    requires
        lo <= hi <= s@.len(),
    ensures
        r == spec_parse_u64(s@, lo as int, hi as int),
{
    let ghost d = s@.subrange(lo as int, hi as int);
    if lo == hi {
        return None;
    }
    let mut acc: u64 = 0;
    let mut i = lo;
    while i < hi
        invariant
            lo <= i <= hi <= s@.len(),
            d == s@.subrange(lo as int, hi as int),
            forall|j: int| lo <= j < i ==> 48 <= #[trigger] s@[j] <= 57,
            acc == spec_dec_val(s@.subrange(lo as int, i as int)),
        decreases hi - i,
    {
        let c = s[i];
        if !(48 <= c && c <= 57) {
            proof {
                assert(d[i - lo] == s@[i as int]);
            }
            return None;
        }
        let digit = (c - 48) as u64;
        proof {
            assert(s@.subrange(lo as int, i + 1).drop_last() =~= s@.subrange(
                lo as int,
                i as int,
            ));
            assert(s@.subrange(lo as int, i + 1).last() == s@[i as int]);
        }
        let next = match acc.checked_mul(10) {
            Some(x) => x,
            None => {
                proof {
                    overflow_case(s@, lo as int, hi as int, i as int, acc, c);
                }
                return None;
            },
        };
        let next = match next.checked_add(digit) {
            Some(x) => x,
            None => {
                proof {
                    overflow_case(s@, lo as int, hi as int, i as int, acc, c);
                }
                return None;
            },
        };
        acc = next;
        i = i + 1;
    }
    proof {
        assert(s@.subrange(lo as int, hi as int) =~= d);
    }
    Some(acc)
}

/// Relies on `String::from_utf8`: ASCII bytes decode to exactly those code
/// points. (vstd gives this std function no specification.)
#[verifier::external_body]
pub(crate) fn ascii_to_string(b: Vec<u8>) -> (r: String)
    requires
        forall|i: int| 0 <= i < b@.len() ==> b@[i] < 128,
    ensures
        r@.len() == b@.len(),
        forall|i: int| 0 <= i < b@.len() ==> r@[i] == b@[i] as char,
{
    String::from_utf8(b).unwrap_or_default()
}

/// When the running value can no longer be extended inside `u64`, the whole
/// digit string exceeds `u64::MAX`.
proof fn overflow_case(s: Seq<u8>, lo: int, hi: int, i: int, acc: u64, c: u8)
    requires
        0 <= lo <= i < hi <= s.len(),
        forall|j: int| lo <= j < i ==> 48 <= #[trigger] s[j] <= 57,
        48 <= s[i] <= 57,
        c == s[i],
        acc == spec_dec_val(s.subrange(lo, i)),
        acc * 10 + (c - 48) > u64::MAX,
    ensures
        !spec_is_digits(s.subrange(lo, hi)) || spec_dec_val(s.subrange(lo, hi)) > u64::MAX,
{
    let d = s.subrange(lo, hi);
    if spec_is_digits(d) {
        assert(forall|j: int| 0 <= j < d.len() ==> 48 <= #[trigger] d[j] <= 57);
        assert(s.subrange(lo, i + 1).drop_last() =~= s.subrange(lo, i));
        assert(s.subrange(lo, i + 1).last() == s[i]);
        assert(spec_dec_val(s.subrange(lo, i + 1)) == acc * 10 + (c - 48));
        assert(d.subrange(0, i + 1 - lo) =~= s.subrange(lo, i + 1));
        lemma_dec_val_prefix_le(d, i + 1 - lo);
    }
}

} // verus!
