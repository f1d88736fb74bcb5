//! Base-36 rendering of unsigned numbers, used for the server's entity
//! tags and for request identifiers.

use vstd::prelude::*;
use crate::util::ascii_to_string;

verus! {

/// The ASCII byte for one base-36 digit value: `0-9` then `a-z`.
pub open spec fn spec_base36_digit(d: int) -> u8
    recommends
        0 <= d < 36,
{
    if d < 10 {
        (48 + d) as u8
    } else {
        (87 + d) as u8
    }
}

/// The base-36 digits of `n`, most significant first; `0` renders as `"0"`.
pub open spec fn spec_base36(n: int) -> Seq<u8>
    recommends
        n >= 0,
    decreases n,
{
    if n < 36 {
        seq![spec_base36_digit(n)]
    } else {
        spec_base36(n / 36) + seq![spec_base36_digit(n % 36)]
    }
}

/// Every byte of a base-36 rendering is a digit or a lower-case letter —
/// in particular a visible ASCII byte allowed inside an entity tag.
pub proof fn lemma_base36_bytes(n: int)
    requires
        n >= 0,
    ensures
        forall|i: int|
            0 <= i < spec_base36(n).len() ==> {
                let b = #[trigger] spec_base36(n)[i];
                (48 <= b <= 57) || (97 <= b <= 122)
            },
        spec_base36(n).len() >= 1,
    decreases n,
{
    if n >= 36 {
        lemma_base36_bytes(n / 36);
    }
}

/// The base-36 digits of `n`, as bytes.
pub fn encode_bytes(n: u64) -> (r: Vec<u8>)
    ensures
        r@ == spec_base36(n as int),
{
    let mut buf: Vec<u8> = Vec::new();
    let mut m = n;
    while m >= 36
        invariant
            spec_base36(n as int) == spec_base36(m as int) + buf@.reverse(),
        decreases m,
    {
        let d = (m % 36) as u8;
        let b = if d < 10 {
            48 + d
        } else {
            87 + d
        };
        buf.push(b);
        proof {
            assert(b == spec_base36_digit(m as int % 36));
            assert(buf@.reverse() =~= seq![b] + buf@.drop_last().reverse());
            assert(spec_base36(m as int) + buf@.drop_last().reverse() =~= spec_base36(
                m as int / 36,
            ) + buf@.reverse());
        }
        m = m / 36;
    }
    let d = m as u8;
    let b = if d < 10 {
        48 + d
    } else {
        87 + d
    };
    buf.push(b);
    proof {
        assert(b == spec_base36_digit(m as int));
        assert(spec_base36(m as int) =~= seq![b]);
        assert(buf@.reverse() =~= seq![b] + buf@.drop_last().reverse());
    }
    let mut out: Vec<u8> = Vec::new();
    let mut i = buf.len();
    while i > 0
        invariant
            i <= buf@.len(),
            out@.len() == buf@.len() - i,
            forall|k: int| 0 <= k < out@.len() ==> out@[k] == buf@[buf@.len() - 1 - k],
        decreases i,
    {
        i = i - 1;
        out.push(buf[i]);
    }
    proof {
        assert(out@ =~= buf@.reverse());
        assert(spec_base36(n as int) =~= spec_base36(m as int) + buf@.drop_last().reverse());
        assert(out@ =~= spec_base36(n as int));
    }
    out
}

/// Render `n` in base 36 using the digits `0-9a-z`.
pub fn encode(n: u64) -> (r: String)
    ensures
        r@.len() == spec_base36(n as int).len(),
        forall|i: int| 0 <= i < r@.len() ==> r@[i] == spec_base36(n as int)[i] as char,
{
    let bytes = encode_bytes(n);
    proof {
        lemma_base36_bytes(n as int);
    }
    ascii_to_string(bytes)
}

} // verus!
