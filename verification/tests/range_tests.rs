use hunk::range::{
    parse_range_header, parse_range_header_value, range_outcome, ByteRange, ByteRangeSpec,
    RangeHeader, RequestedRange,
};

#[test]
fn test_parse_range_header() {
    // Range given but it cannot be parsed.
    assert_eq!(
        RequestedRange::NotSatisfiable,
        parse_range_header(true, None, 0)
    );
    // Range not given at all.
    assert_eq!(RequestedRange::Absent, parse_range_header(false, None, 0));

    // Zero-length entity cannot be satisfied.
    assert_eq!(
        RequestedRange::NotSatisfiable,
        parse_range_header(
            true,
            Some(&RangeHeader::Bytes(vec![ByteRangeSpec::FromTo(0, 0)])),
            0
        )
    );

    assert_eq!(
        RequestedRange::Satisfiable(ByteRange { start: 0, end: 0 }),
        parse_range_header(
            true,
            Some(&RangeHeader::Bytes(vec![ByteRangeSpec::FromTo(0, 0)])),
            1
        )
    );
}

#[test]
fn test_parse_range_header_value_forms() {
    match parse_range_header_value(b"bytes=0-499") {
        Some(RangeHeader::Bytes(v)) => assert_eq!(v, vec![ByteRangeSpec::FromTo(0, 499)]),
        _ => panic!("expected bytes form"),
    }
    match parse_range_header_value(b"bytes=0-499, 500-999") {
        Some(RangeHeader::Bytes(v)) => assert_eq!(
            v,
            vec![ByteRangeSpec::FromTo(0, 499), ByteRangeSpec::FromTo(500, 999)]
        ),
        _ => panic!("expected two ranges"),
    }
    match parse_range_header_value(b"bytes=9-") {
        Some(RangeHeader::Bytes(v)) => assert_eq!(v, vec![ByteRangeSpec::AllFrom(9)]),
        _ => panic!("expected open-ended range"),
    }
    match parse_range_header_value(b"bytes=-5") {
        Some(RangeHeader::Bytes(v)) => assert_eq!(v, vec![ByteRangeSpec::Last(5)]),
        _ => panic!("expected suffix range"),
    }
    match parse_range_header_value(b"chapters=1-2") {
        Some(RangeHeader::Other) => {}
        _ => panic!("expected another unit"),
    }
    assert!(parse_range_header_value(b"bytes=abc").is_none());
    assert!(parse_range_header_value(b"bytes=").is_none());
    assert!(parse_range_header_value(b"nonsense").is_none());
    // A value past u64 fails to parse.
    assert!(parse_range_header_value(b"bytes=99999999999999999999-").is_none());
}

#[test]
fn test_range_outcome_scenarios() {
    // 10-byte file: "9-" is the last byte; "10-" is out of bounds.
    assert_eq!(
        RequestedRange::Satisfiable(ByteRange { start: 9, end: 9 }),
        range_outcome(Some(&b"bytes=9-".to_vec()), 10)
    );
    assert_eq!(
        RequestedRange::NotSatisfiable,
        range_outcome(Some(&b"bytes=10-".to_vec()), 10)
    );
    // End clamped to the last byte.
    assert_eq!(
        RequestedRange::Satisfiable(ByteRange { start: 2, end: 9 }),
        range_outcome(Some(&b"bytes=2-500".to_vec()), 10)
    );
    // Zero-length resource: even 0-0 is unsatisfiable.
    assert_eq!(
        RequestedRange::NotSatisfiable,
        range_outcome(Some(&b"bytes=0-0".to_vec()), 0)
    );
    // No header at all is a distinct outcome.
    assert_eq!(RequestedRange::Absent, range_outcome(None, 10));
    // Unparsable header.
    assert_eq!(
        RequestedRange::NotSatisfiable,
        range_outcome(Some(&b"bytes=x".to_vec()), 10)
    );
    // A zero suffix is unsatisfiable; the first range wins in a list.
    assert_eq!(
        RequestedRange::NotSatisfiable,
        range_outcome(Some(&b"bytes=-0".to_vec()), 10)
    );
    assert_eq!(
        RequestedRange::Satisfiable(ByteRange { start: 1, end: 2 }),
        range_outcome(Some(&b"bytes=1-2, 5-6".to_vec()), 10)
    );
    // A suffix takes the final bytes, bounded below at zero.
    assert_eq!(
        RequestedRange::Satisfiable(ByteRange { start: 4, end: 9 }),
        range_outcome(Some(&b"bytes=-5".to_vec()), 10)
    );
    // Suffix longer than the file is clamped to the whole file.
    assert_eq!(
        RequestedRange::Satisfiable(ByteRange { start: 0, end: 9 }),
        range_outcome(Some(&b"bytes=-50".to_vec()), 10)
    );
}
