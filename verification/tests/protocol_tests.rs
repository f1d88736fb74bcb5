use hunk::base36::encode;
use hunk::chunks::ChunkPlan;
use hunk::cond::{is_not_modified, is_precondition_failed};
use hunk::cors::{evaluate_cors, CorsDecision, CorsPolicy};
use hunk::etag::{format_etag, list_match_strong, list_match_weak, parse_etag_list, ETagList, EntityTag};
use hunk::gzip::CompressionEncoder;
use hunk::negotiation::{negotiate_encoding, should_gzip, Encoding, GzipOptions};
use hunk::path::{get_resource_path, is_safe_path, path_extension};
use hunk::resource::{ContentType, ResourceMeta};
use std::io::Read;

#[test]
fn test_base36_encode() {
    assert_eq!(encode(0), "0");
    assert_eq!(encode(35), "z");
    assert_eq!(encode(36), "10");
    assert_eq!(encode(12345), "9ix");
    assert_eq!(encode(u64::MAX), "3w5e11264sgsf");
}

#[test]
fn test_etag_wire_round_trip() {
    let t = EntityTag { weak: false, tag: b"abc-123".to_vec() };
    let wire = format_etag(&t);
    assert_eq!(wire, b"\"abc-123\"".to_vec());
    match parse_etag_list(&wire) {
        Some(ETagList::Tags(v)) => {
            assert_eq!(v.len(), 1);
            assert!(!v[0].weak);
            assert_eq!(v[0].tag, b"abc-123".to_vec());
        }
        _ => panic!("expected a one-tag list"),
    }
    let w = EntityTag { weak: true, tag: b"xyz".to_vec() };
    assert_eq!(format_etag(&w), b"W/\"xyz\"".to_vec());
}

#[test]
fn test_etag_list_matching() {
    let list = parse_etag_list(b"W/\"one\", \"two\"").expect("list should parse");
    let strong_two = EntityTag { weak: false, tag: b"two".to_vec() };
    let weak_one = EntityTag { weak: false, tag: b"one".to_vec() };
    let other = EntityTag { weak: false, tag: b"three".to_vec() };
    // Weak comparison ignores weakness; strong requires both strong.
    assert!(list_match_weak(&list, &weak_one));
    assert!(!list_match_strong(&list, &weak_one));
    assert!(list_match_weak(&list, &strong_two));
    assert!(list_match_strong(&list, &strong_two));
    assert!(!list_match_weak(&list, &other));
    // `*` matches everything.
    let any = parse_etag_list(b"*").expect("star should parse");
    assert!(list_match_weak(&any, &other));
    assert!(list_match_strong(&any, &other));
    // Malformed lists do not parse.
    assert!(parse_etag_list(b"unquoted").is_none());
    assert!(parse_etag_list(b"\"unterminated").is_none());
}

#[test]
fn test_conditionals() {
    let etag = EntityTag { weak: false, tag: b"t1".to_vec() };
    let matching = parse_etag_list(b"\"t1\"").unwrap();
    let stale = parse_etag_list(b"\"stale-etag\"").unwrap();
    // If-None-Match matching the current tag revalidates.
    assert!(is_not_modified(Some(&matching), None, &etag, 1000));
    assert!(!is_not_modified(Some(&stale), None, &etag, 1000));
    // With If-None-Match present, If-Modified-Since is ignored.
    assert!(!is_not_modified(Some(&stale), Some(2000), &etag, 1000));
    // Without it, the date decides.
    assert!(is_not_modified(None, Some(1000), &etag, 1000));
    assert!(!is_not_modified(None, Some(999), &etag, 1000));
    assert!(!is_not_modified(None, None, &etag, 1000));
    // If-Match failing is a failed precondition, regardless of date.
    assert!(is_precondition_failed(Some(&stale), None, &etag, 1000));
    assert!(!is_precondition_failed(Some(&matching), None, &etag, 1000));
    // If-Unmodified-Since fails when the resource changed later.
    assert!(is_precondition_failed(None, Some(999), &etag, 1000));
    assert!(!is_precondition_failed(None, Some(1000), &etag, 1000));
}

#[test]
fn test_negotiate_encoding() {
    assert_eq!(negotiate_encoding(Some(&b"gzip".to_vec())), Some(Encoding::Gzip));
    assert_eq!(negotiate_encoding(Some(&b"GZIP".to_vec())), Some(Encoding::Gzip));
    assert_eq!(
        negotiate_encoding(Some(&b"br, gzip;q=0.8".to_vec())),
        Some(Encoding::Gzip)
    );
    // Zero preference refuses gzip.
    assert_eq!(negotiate_encoding(Some(&b"gzip;q=0".to_vec())), None);
    assert_eq!(negotiate_encoding(Some(&b"gzip;q=0.000".to_vec())), None);
    assert_eq!(negotiate_encoding(Some(&b"gzip;q=0.001".to_vec())), Some(Encoding::Gzip));
    assert_eq!(negotiate_encoding(Some(&b"identity".to_vec())), None);
    assert_eq!(negotiate_encoding(None), None);
    // A malformed header selects identity.
    assert_eq!(negotiate_encoding(Some(&b"gzip;;q=1".to_vec())), None);
}

#[test]
fn test_should_gzip_eligibility() {
    let opts = GzipOptions { level: 6, threshold: 100, also_extensions: vec![b"svg".to_vec()] };
    let accept = b"gzip".to_vec();
    // Compressible and long enough.
    assert!(should_gzip(Some(&opts), 100, true, None, Some(&accept)));
    // Below the threshold.
    assert!(!should_gzip(Some(&opts), 99, true, None, Some(&accept)));
    // Not compressible, but the extension is allow-listed (case-insensitive).
    let ext = b"SVG".to_vec();
    assert!(should_gzip(Some(&opts), 100, false, Some(&ext), Some(&accept)));
    let other_ext = b"png".to_vec();
    assert!(!should_gzip(Some(&opts), 100, false, Some(&other_ext), Some(&accept)));
    // No policy, or no client preference, means no compression.
    assert!(!should_gzip(None, 1000, true, None, Some(&accept)));
    assert!(!should_gzip(Some(&opts), 1000, true, None, None));
}

#[test]
fn test_cors_decisions() {
    let origin = b"https://a.example".to_vec();
    let other = b"https://b.example".to_vec();
    let open_policy = CorsPolicy { allowed_origins: None };
    let list_policy = CorsPolicy { allowed_origins: Some(vec![origin.clone()]) };
    // CORS off, or no Origin header: nothing to add.
    assert!(matches!(evaluate_cors(None, Some(&origin), false), CorsDecision::NoHeaders));
    assert!(matches!(evaluate_cors(Some(&open_policy), None, false), CorsDecision::NoHeaders));
    // Open policy reflects `*`, but never for credentialed requests.
    assert!(matches!(evaluate_cors(Some(&open_policy), Some(&origin), false), CorsDecision::AllowAny));
    match evaluate_cors(Some(&open_policy), Some(&origin), true) {
        CorsDecision::AllowOrigin(o) => assert_eq!(o, origin),
        _ => panic!("credentialed allow must name the origin"),
    }
    // Allow-list: matched origins are reflected; others are blocked,
    // hard only when credentials are in play.
    match evaluate_cors(Some(&list_policy), Some(&origin), true) {
        CorsDecision::AllowOrigin(o) => assert_eq!(o, origin),
        _ => panic!("listed origin must be allowed"),
    }
    assert!(matches!(evaluate_cors(Some(&list_policy), Some(&other), true), CorsDecision::Forbid));
    assert!(matches!(evaluate_cors(Some(&list_policy), Some(&other), false), CorsDecision::NoHeaders));
}

#[test]
fn test_path_safety() {
    assert!(is_safe_path(b"/a/b/c.txt"));
    assert!(is_safe_path(b"/"));
    assert!(!is_safe_path(b"/../etc/passwd"));
    assert!(!is_safe_path(b"/a/../b"));
    assert!(!is_safe_path(b"/a/./b"));
    assert!(!is_safe_path(b".."));
    // Three dots is an ordinary segment.
    assert!(is_safe_path(b"/..."));

    assert_eq!(get_resource_path(b"/srv", b"/a.txt"), Some(b"/srv/a.txt".to_vec()));
    assert_eq!(get_resource_path(b"/srv", b"/../etc/passwd"), None);
    assert_eq!(get_resource_path(b"/srv", b"no-slash"), None);
    assert_eq!(get_resource_path(b"/srv", b""), None);
}

#[test]
fn test_path_extension() {
    assert_eq!(path_extension(b"/srv/a.txt"), Some(b"txt".to_vec()));
    assert_eq!(path_extension(b"/srv/archive.tar.gz"), Some(b"gz".to_vec()));
    assert_eq!(path_extension(b"/srv/.bashrc"), None);
    assert_eq!(path_extension(b"/srv/noext"), None);
    assert_eq!(path_extension(b"/a.d/plain"), None);
}

#[test]
fn test_chunk_plan() {
    let mut plan = ChunkPlan::new(0, 10, 4);
    assert_eq!(plan.remaining(), 10);
    assert_eq!(plan.next(), Some((0, 4)));
    assert_eq!(plan.next(), Some((4, 4)));
    assert_eq!(plan.next(), Some((8, 2)));
    assert_eq!(plan.next(), None);
    assert_eq!(plan.remaining(), 0);
    // A sub-range starts at its own offset.
    let mut sub = ChunkPlan::new(9, 10, 65536);
    assert_eq!(sub.next(), Some((9, 1)));
    assert_eq!(sub.next(), None);
}

#[test]
fn test_resource_etags_differ_per_encoding() {
    let meta = ResourceMeta::new(
        1234,
        784111777,
        ContentType { mime: b"text/html".to_vec(), compressible: true },
    )
    .expect("timestamp in range");
    let identity = meta.etag(true);
    let encoded = meta.etag(false);
    assert!(!identity.weak);
    assert!(!encoded.weak);
    assert_ne!(identity.tag, encoded.tag);
    // The encoded tag is the identity tag plus a variant suffix.
    assert!(encoded.tag.starts_with(&identity.tag));
    // Out-of-range timestamps are refused, not mangled.
    assert!(ResourceMeta::new(1, -1, ContentType { mime: vec![], compressible: false }).is_none());
}

#[test]
fn test_compression_round_trip() {
    let data = b"hello hello hello hello hello hello hello hello";
    let mut enc = CompressionEncoder::new(6);
    let mut compressed = enc.push(&data[..20]);
    compressed.extend_from_slice(&enc.push(&data[20..]));
    compressed.extend_from_slice(&enc.finish());
    let mut decoder = flate2::read::GzDecoder::new(&compressed[..]);
    let mut out = Vec::new();
    decoder.read_to_end(&mut out).expect("valid gzip stream");
    assert_eq!(out, data.to_vec());
}
