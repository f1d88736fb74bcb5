//! HTTP dates at the crate boundary: rendering `Last-Modified` and
//! reading `If-Modified-Since` / `If-Unmodified-Since`, through chrono.

use vstd::prelude::*;
use crate::resource::MAX_TIMESTAMP;

verus! {

/// The IMF-fixdate rendering of a second count: what chrono's
/// `%a, %d %b %Y %H:%M:%S GMT` format produces for it. A function of the
/// seconds alone.
pub uninterp spec fn http_date_str(secs: i64) -> Seq<char>;

/// The second count named by an HTTP date string under RFC 2822 parsing
/// (which admits the obsolete `GMT` zone HTTP uses), or nothing when the
/// bytes do not parse. A function of the bytes alone.
pub uninterp spec fn http_date_num(s: Seq<u8>) -> Option<i64>;

/// Relies on chrono's `DateTime::from_timestamp`, total for second counts
/// before year 10000, and on strftime formatting with chrono's fixed
/// English names: the rendering depends on the seconds alone.
#[verifier::external_body]
pub(crate) fn format_http_date(secs: i64) -> (r: String)
    requires
        0 <= secs < MAX_TIMESTAMP,
    ensures
        r@ == http_date_str(secs),
{
    let dt = chrono::DateTime::<chrono::Utc>::from_timestamp(secs, 0).unwrap();
    dt.format("%a, %d %b %Y %H:%M:%S GMT").to_string()
}

/// Relies on chrono's `DateTime::parse_from_rfc2822` and `timestamp`:
/// the parsed second count depends on the bytes alone.
#[verifier::external_body]
pub(crate) fn parse_http_date(s: &[u8]) -> (r: Option<i64>)
    ensures
        r == http_date_num(s@),
{
    match std::str::from_utf8(s) {
        Ok(text) => match chrono::DateTime::parse_from_rfc2822(text) {
            Ok(d) => Some(d.timestamp()),
            Err(_) => None,
        },
        Err(_) => None,
    }
}

} // verus!
