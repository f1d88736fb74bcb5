use hunk::cors::CorsDecision;
use hunk::etag::format_etag;
use hunk::negotiation::GzipOptions;
use hunk::pipeline::{
    handler, invalid_range, method_allowed, method_not_allowed, not_found, BodyPlan, CacheOptions,
    ContentRangeHeader, Method, Options, RequestHeaders,
};
use hunk::resource::{ContentType, ResourceMeta};

fn no_headers() -> RequestHeaders {
    RequestHeaders {
        range: None,
        if_none_match: None,
        if_modified_since: None,
        if_match: None,
        if_unmodified_since: None,
        accept_encoding: None,
        origin: None,
        credentials: false,
    }
}

fn plain_options() -> Options {
    Options { browse: false, gzip: None, cache: None, cors: None }
}

fn meta(len: u64) -> ResourceMeta {
    ResourceMeta::new(
        len,
        784111777,
        ContentType { mime: b"text/plain".to_vec(), compressible: true },
    )
    .expect("timestamp in range")
}

#[test]
fn test_suffix_range_at_end_of_file() {
    // A 10-byte file: `bytes=9-` is satisfiable as the single last byte.
    let mut req = no_headers();
    req.range = Some(b"bytes=9-".to_vec());
    let plan = handler(&plain_options(), &meta(10), b"/f.txt", Method::Get, &req);
    assert_eq!(plan.status, 206);
    assert_eq!(
        plan.content_range,
        Some(ContentRangeHeader::Bytes { start: 9, end: 9, total: 10 })
    );
    match plan.body {
        BodyPlan::FileRange { start, end } => {
            assert_eq!((start, end), (9, 10));
            assert_eq!(end - start, 1);
        }
        _ => panic!("expected a file range body"),
    }
}

#[test]
fn test_range_past_end_of_file() {
    // `bytes=10-` on a 10-byte file cannot be satisfied.
    let mut req = no_headers();
    req.range = Some(b"bytes=10-".to_vec());
    let plan = handler(&plain_options(), &meta(10), b"/f.txt", Method::Get, &req);
    assert_eq!(plan.status, 416);
    assert_eq!(plan.content_range, Some(ContentRangeHeader::Unsatisfied { total: 10 }));
}

#[test]
fn test_range_on_empty_file() {
    // `bytes=0-0` on a 0-byte file is a 416.
    let mut req = no_headers();
    req.range = Some(b"bytes=0-0".to_vec());
    let plan = handler(&plain_options(), &meta(0), b"/f.txt", Method::Get, &req);
    assert_eq!(plan.status, 416);
    assert_eq!(plan.content_range, Some(ContentRangeHeader::Unsatisfied { total: 0 }));
}

#[test]
fn test_stale_if_match_beats_range() {
    // A stale If-Match is a 412, whatever Range asks for.
    let mut req = no_headers();
    req.if_match = Some(b"\"stale-etag\"".to_vec());
    req.range = Some(b"bytes=0-3".to_vec());
    let plan = handler(&plain_options(), &meta(10), b"/f.txt", Method::Get, &req);
    assert_eq!(plan.status, 412);
    assert!(matches!(plan.body, BodyPlan::Empty));
    assert_eq!(plan.content_length, Some(0));
}

#[test]
fn test_traversal_is_never_resolved() {
    // The join refuses the path outright; the transport then answers
    // with the canned 404.
    assert_eq!(hunk::path::get_resource_path(b"/srv", b"/../etc/passwd"), None);
    let plan = not_found();
    assert_eq!(plan.status, 404);
    assert_eq!(plan.content_length, Some(9));
    match plan.body {
        BodyPlan::Text(t) => assert_eq!(t, b"Not Found".to_vec()),
        _ => panic!("expected a text body"),
    }
}

#[test]
fn test_method_gate() {
    assert!(method_allowed(Method::Get));
    assert!(method_allowed(Method::Head));
    assert!(method_allowed(Method::Options));
    assert!(!method_allowed(Method::Other));
    let plan = method_not_allowed();
    assert_eq!(plan.status, 405);
    assert!(plan.allow_methods);
    assert_eq!(plan.content_length, Some(51));
}

#[test]
fn test_plain_get_and_identical_repeat() {
    // Two identical GETs yield identical validators and length.
    let opts = Options {
        browse: false,
        gzip: None,
        cache: Some(CacheOptions { max_age: 60 }),
        cors: None,
    };
    let first = handler(&opts, &meta(42), b"/f.txt", Method::Get, &no_headers());
    let second = handler(&opts, &meta(42), b"/f.txt", Method::Get, &no_headers());
    assert_eq!(first.status, 200);
    assert_eq!(first.content_length, Some(42));
    // The snapshot's modification time, rendered as an IMF-fixdate.
    assert_eq!(
        first.last_modified,
        Some("Sun, 06 Nov 1994 08:49:37 GMT".to_string())
    );
    assert_eq!(first.cache_max_age, Some(60));
    assert!(first.accept_ranges);
    assert!(!first.vary_accept_encoding);
    let t1 = first.etag.as_ref().expect("etag on 200").tag.clone();
    let t2 = second.etag.as_ref().expect("etag on 200").tag.clone();
    assert_eq!(t1, t2);
    assert_eq!(first.last_modified, second.last_modified);
    assert_eq!(first.content_length, second.content_length);
    match first.body {
        BodyPlan::FileRange { start, end } => assert_eq!((start, end), (0, 42)),
        _ => panic!("expected the whole file"),
    }
}

#[test]
fn test_etag_round_trip_revalidates() {
    // The ETag of a first response, echoed as If-None-Match, gives a 304
    // with no body, no Content-Type, and no Content-Length.
    let opts = plain_options();
    let first = handler(&opts, &meta(42), b"/f.txt", Method::Get, &no_headers());
    let etag = first.etag.as_ref().expect("etag on 200");
    let mut req = no_headers();
    req.if_none_match = Some(format_etag(etag));
    let second = handler(&opts, &meta(42), b"/f.txt", Method::Get, &req);
    assert_eq!(second.status, 304);
    assert!(matches!(second.body, BodyPlan::Empty));
    assert!(second.content_type.is_none());
    assert!(second.content_length.is_none());
    assert_eq!(
        second.etag.as_ref().expect("etag rides the 304").tag,
        etag.tag
    );
}

#[test]
fn test_gzip_bypasses_range_and_changes_etag() {
    let opts = Options {
        browse: false,
        gzip: Some(GzipOptions { level: 6, threshold: 10, also_extensions: vec![] }),
        cache: None,
        cors: None,
    };
    // The client asks for both gzip and a range: compression wins and
    // the range is ignored, with chunked transfer instead of a length.
    let mut req = no_headers();
    req.accept_encoding = Some(b"gzip".to_vec());
    req.range = Some(b"bytes=0-3".to_vec());
    let gz_plan = handler(&opts, &meta(100), b"/f.txt", Method::Get, &req);
    assert_eq!(gz_plan.status, 200);
    assert_eq!(gz_plan.gzip_level, Some(6));
    assert!(gz_plan.chunked);
    assert!(gz_plan.content_length.is_none());
    assert!(gz_plan.content_range.is_none());
    assert!(gz_plan.vary_accept_encoding);

    // The same resource without gzip negotiation: identity validator,
    // and the two validators differ.
    let plain = handler(&opts, &meta(100), b"/f.txt", Method::Get, &no_headers());
    assert_eq!(plain.status, 200);
    assert!(plain.gzip_level.is_none());
    assert!(plain.vary_accept_encoding);
    assert_ne!(
        plain.etag.as_ref().expect("identity etag").tag,
        gz_plan.etag.as_ref().expect("encoded etag").tag
    );

    // Below the threshold the response stays identity even for gzip
    // clients.
    let small = handler(&opts, &meta(9), b"/f.txt", Method::Get, &req);
    assert_eq!(small.status, 206, "the range now applies");
}

#[test]
fn test_head_gets_headers_only() {
    let mut req = no_headers();
    req.range = Some(b"bytes=0-3".to_vec());
    let plan = handler(&plain_options(), &meta(10), b"/f.txt", Method::Head, &req);
    assert_eq!(plan.status, 206);
    assert!(matches!(plan.body, BodyPlan::Empty));
    assert_eq!(
        plan.content_range,
        Some(ContentRangeHeader::Bytes { start: 0, end: 3, total: 10 })
    );
}

#[test]
fn test_cors_in_pipeline() {
    let allowed = b"https://a.example".to_vec();
    let opts = Options {
        browse: false,
        gzip: None,
        cache: None,
        cors: Some(hunk::cors::CorsPolicy { allowed_origins: Some(vec![allowed.clone()]) }),
    };
    // Matched origin rides the successful response.
    let mut req = no_headers();
    req.origin = Some(allowed.clone());
    let plan = handler(&opts, &meta(5), b"/f.txt", Method::Get, &req);
    assert_eq!(plan.status, 200);
    match plan.cors {
        CorsDecision::AllowOrigin(o) => assert_eq!(o, allowed),
        _ => panic!("expected the matched origin"),
    }
    // A credentialed request from elsewhere short-circuits.
    let mut bad = no_headers();
    bad.origin = Some(b"https://evil.example".to_vec());
    bad.credentials = true;
    let blocked = handler(&opts, &meta(5), b"/f.txt", Method::Get, &bad);
    assert_eq!(blocked.status, 403);
    assert!(matches!(blocked.body, BodyPlan::Empty));
}

#[test]
fn test_if_modified_since_in_pipeline() {
    // Dates at or after the modification time revalidate; If-None-Match
    // takes precedence over the date.
    let lm = 784111777i64;
    let mut req = no_headers();
    req.if_modified_since = Some(b"Sun, 06 Nov 1994 08:49:37 GMT".to_vec());
    let plan = handler(&plain_options(), &meta(5), b"/f.txt", Method::Get, &req);
    assert_eq!(plan.status, 304);
    let mut earlier = no_headers();
    earlier.if_modified_since = Some(b"Sun, 06 Nov 1994 08:49:36 GMT".to_vec());
    let plan2 = handler(&plain_options(), &meta(5), b"/f.txt", Method::Get, &earlier);
    assert_eq!(plan2.status, 200);
    let mut both = no_headers();
    both.if_none_match = Some(b"\"mismatch\"".to_vec());
    both.if_modified_since = Some(b"Sun, 06 Nov 1994 08:49:37 GMT".to_vec());
    let plan3 = handler(&plain_options(), &meta(5), b"/f.txt", Method::Get, &both);
    assert_eq!(plan3.status, 200, "a non-matching If-None-Match suppresses the date check");
    // A malformed date counts as an absent header.
    let mut bad = no_headers();
    bad.if_modified_since = Some(b"not a date".to_vec());
    let plan4 = handler(&plain_options(), &meta(5), b"/f.txt", Method::Get, &bad);
    assert_eq!(plan4.status, 200);
    let _ = lm;
}

#[test]
fn test_options_served_like_get() {
    // OPTIONS passes the method gate and runs the full pipeline, body
    // included, exactly like GET.
    let plan = handler(&plain_options(), &meta(7), b"/f.txt", Method::Options, &no_headers());
    assert_eq!(plan.status, 200);
    assert_eq!(plan.content_length, Some(7));
    assert!(matches!(plan.body, BodyPlan::FileRange { start: 0, end: 7 }));
}

#[test]
fn test_invalid_range_plan_shape() {
    let plan = invalid_range(10);
    assert_eq!(plan.status, 416);
    assert_eq!(plan.content_range, Some(ContentRangeHeader::Unsatisfied { total: 10 }));
    assert_eq!(plan.content_length, Some(13));
    match plan.body {
        BodyPlan::Text(t) => assert_eq!(t, b"Invalid range".to_vec()),
        _ => panic!("expected a text body"),
    }
}
