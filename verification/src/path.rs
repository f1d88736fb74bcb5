//! Mapping of request paths onto the served root directory, rejecting
//! directory traversal before any filesystem access.

use vstd::prelude::*;
use crate::util::{
    concat_bytes, find_byte, lemma_find_byte_bounds, lemma_find_byte_first, lemma_rfind_byte_props,
    rfind_byte_plus_one, spec_find_byte, spec_rfind_byte,
};

verus! {

/// Whether a `.` or `..` path segment starts at position `i`: `l` dots
/// bounded by the string's ends or by separators.
pub open spec fn spec_dot_segment_at(s: Seq<u8>, i: int, l: int) -> bool {
    &&& (l == 1 || l == 2)
    &&& 0 <= i
    &&& i + l <= s.len()
    &&& (i == 0 || s[i - 1] == 47)
    &&& (i + l == s.len() || s[i + l] == 47)
    &&& (forall|k: int| i <= k < i + l ==> s[k] == 46)
}

/// A path is safe when no segment is `.` or `..`; only such special
/// segments could climb or re-anchor the joined path.
pub open spec fn spec_path_safe(s: Seq<u8>) -> bool {
    forall|i: int, l: int| !spec_dot_segment_at(s, i, l)
}

/// Decide whether a request path is free of `.` and `..` segments.
pub fn is_safe_path(path: &[u8]) -> (r: bool)
    ensures
        r == spec_path_safe(path@),
{
    let ghost s = path@;
    let mut i: usize = 0;
    loop
        invariant
            0 <= i <= s.len(),
            s == path@,
            i == 0 || s[i - 1] == 47,
            forall|i2: int, l2: int| spec_dot_segment_at(s, i2, l2) ==> i2 >= i,
        decreases s.len() - i,
    {
        let j = find_byte(path, 47, i);
        proof {
            lemma_find_byte_bounds(s, 47, i as int);
            lemma_find_byte_first(s, 47, i as int);
        }
        let seg_len = j - i;
        if (seg_len == 1 && path[i] == 46) || (seg_len == 2 && path[i] == 46 && path[i + 1]
            == 46) {
            proof {
                assert(spec_dot_segment_at(s, i as int, seg_len as int));
            }
            return false;
        }
        proof {
            assert forall|i2: int, l2: int| spec_dot_segment_at(s, i2, l2) implies i2 >= j + 1 by {
                if i2 < j + 1 {
                    assert(i2 >= i);
                    if i2 == i {
                        // A dot segment here would end at the first separator
                        // (or the end), which is exactly `j`.
                        assert(forall|k: int| i <= k < j ==> s[k] != 47);
                        if i2 + l2 < s.len() {
                            assert(s[i2 + l2] == 47);
                            assert(i2 + l2 >= j);
                        }
                        if i2 + l2 == s.len() {
                            assert(i2 + l2 >= j);
                        }
                        assert(forall|k: int| i2 <= k < i2 + l2 ==> s[k] == 46);
                        assert(i2 + l2 <= j);
                        assert(l2 == seg_len);
                    } else {
                        // A segment can only start after a separator, and
                        // there is none strictly inside `[i, j)`.
                        assert(s[i2 - 1] == 47);
                        assert(i <= i2 - 1 < j);
                        assert(s[i2 - 1] != 47);
                    }
                }
            }
        }
        if j == path.len() {
            proof {
                assert forall|i2: int, l2: int| !spec_dot_segment_at(s, i2, l2) by {
                    if spec_dot_segment_at(s, i2, l2) {
                        assert(i2 + l2 <= s.len() && l2 >= 1);
                    }
                }
            }
            return true;
        }
        i = j + 1;
    }
}

/// Join the served root with a request path. The request path must be
/// absolute and free of `.` / `..` segments; the result is the plain
/// concatenation of the two, so it always stays under the root.
pub fn get_resource_path(root: &[u8], req_path: &[u8]) -> (r: Option<Vec<u8>>)
    ensures
        r is Some <==> req_path@.len() > 0 && req_path@[0] == 47 && spec_path_safe(req_path@),
        r is Some ==> r->0@ == root@ + req_path@,
{
    if req_path.len() == 0 || req_path[0] != 47 {
        return None;
    }
    if !is_safe_path(req_path) {
        return None;
    }
    Some(concat_bytes(root, req_path))
}

/// The extension of the file named by a path: the bytes after the last
/// dot of the final segment, unless that dot starts the segment (a
/// hidden file) or there is none.
pub open spec fn spec_path_extension(s: Seq<u8>) -> Option<Seq<u8>> {
    let seg = spec_rfind_byte(s, 47, s.len() as int) + 1;
    let dot = spec_rfind_byte(s, 46, s.len() as int);
    if dot > seg {
        Option::Some(s.subrange(dot + 1, s.len() as int))
    } else {
        Option::None
    }
}

/// Compute the extension used for the compression allow-list.
pub fn path_extension(path: &[u8]) -> (r: Option<Vec<u8>>)
    ensures
        match r {
            Some(e) => spec_path_extension(path@) == Some(e@),
            None => spec_path_extension(path@) is None,
        },
{
    let seg = rfind_byte_plus_one(path, 47, path.len());
    let dot_plus_one = rfind_byte_plus_one(path, 46, path.len());
    proof {
        lemma_rfind_byte_props(path@, 47, path@.len() as int);
        lemma_rfind_byte_props(path@, 46, path@.len() as int);
    }
    if dot_plus_one >= 1 && dot_plus_one - 1 > seg {
        let mut out: Vec<u8> = Vec::new();
        let mut i = dot_plus_one;
        while i < path.len()
            invariant
                dot_plus_one <= i <= path@.len(),
                out@ == path@.subrange(dot_plus_one as int, i as int),
            decreases path@.len() - i,
        {
            out.push(path[i]);
            proof {
                assert(path@.subrange(dot_plus_one as int, i as int) + seq![path@[i as int]]
                    =~= path@.subrange(dot_plus_one as int, i + 1));
            }
            i = i + 1;
        }
        Some(out)
    } else {
        None
    }
}

} // verus!
