//! Evaluation of conditional request headers against a resource's current
//! validators: the not-modified test and the precondition-failed test.

use vstd::prelude::*;
use crate::etag::{
    ETagList, ETagListView, EntityTag, list_match_strong, list_match_weak, spec_list_match_strong,
    spec_list_match_weak,
};
use crate::etag::EntityTagView;

verus! {

/// The model of an optional borrowed tag list.
pub open spec fn spec_opt_etag_list_view(l: Option<&ETagList>) -> Option<ETagListView> {
    match l {
        Option::Some(l) => Option::Some(l@),
        Option::None => Option::None,
    }
}

/// The not-modified test: an `If-None-Match` list that weak-matches the
/// current tag means not modified; with no such header, an
/// `If-Modified-Since` bound at or after the current modification time
/// means not modified. `If-Modified-Since` is ignored when `If-None-Match`
/// is present.
pub open spec fn spec_is_not_modified(
    if_none_match: Option<ETagListView>,
    if_modified_since: Option<i64>,
    etag: EntityTagView,
    last_modified: i64,
) -> bool {
    match if_none_match {
        Option::Some(l) => spec_list_match_weak(l, etag),
        Option::None => match if_modified_since {
            Option::Some(since) => last_modified <= since,
            Option::None => false,
        },
    }
}

/// The precondition-failed test: an `If-Match` list none of whose tags
/// strong-matches the current tag fails; otherwise an
/// `If-Unmodified-Since` bound strictly before the current modification
/// time fails.
pub open spec fn spec_is_precondition_failed(
    if_match: Option<ETagListView>,
    if_unmodified_since: Option<i64>,
    etag: EntityTagView,
    last_modified: i64,
) -> bool {
    if (match if_match {
        Option::Some(l) => !spec_list_match_strong(l, etag),
        Option::None => false,
    }) {
        true
    } else {
        match if_unmodified_since {
            Option::Some(since) => last_modified > since,
            Option::None => false,
        }
    }
}

/// Decide whether the request is a revalidation hit that should short-
/// circuit to 304.
pub fn is_not_modified(
    if_none_match: Option<&ETagList>,
    if_modified_since: Option<i64>,
    etag: &EntityTag,
    last_modified: i64,
) -> (r: bool)
    ensures
        r == spec_is_not_modified(
            spec_opt_etag_list_view(if_none_match),
            if_modified_since,
            etag@,
            last_modified,
        ),
{
    match if_none_match {
        Option::Some(l) => list_match_weak(l, etag),
        Option::None => match if_modified_since {
            Option::Some(since) => last_modified <= since,
            Option::None => false,
        },
    }
}

/// Decide whether a precondition fails and the request should short-
/// circuit to 412.
pub fn is_precondition_failed(
    if_match: Option<&ETagList>,
    if_unmodified_since: Option<i64>,
    etag: &EntityTag,
    last_modified: i64,
) -> (r: bool)
    ensures
        r == spec_is_precondition_failed(
            spec_opt_etag_list_view(if_match),
            if_unmodified_since,
            etag@,
            last_modified,
        ),
{
    let im_fails = match if_match {
        Option::Some(l) => !list_match_strong(l, etag),
        Option::None => false,
    };
    if im_fails {
        true
    } else {
        match if_unmodified_since {
            Option::Some(since) => last_modified > since,
            Option::None => false,
        }
    }
}

} // verus!
