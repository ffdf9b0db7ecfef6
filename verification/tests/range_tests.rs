use samserve::parse_range_header;
use samserve::plan_stream;
use samserve::stream::{format_content_range, format_unsat_content_range};
use samserve::StreamPlan;

#[test]
fn both_sides_present() {
    assert_eq!(parse_range_header("bytes=0-0", 2), Some((0, 0)));
    assert_eq!(parse_range_header("bytes=3-7", 100), Some((3, 7)));
    assert_eq!(parse_range_header("bytes=5-2", 100), None);
}

#[test]
fn open_ended_range() {
    assert_eq!(parse_range_header("bytes=5-", 10), Some((5, 9)));
    assert_eq!(parse_range_header("bytes=10-", 10), None);
    assert_eq!(parse_range_header("bytes=0-", 1), Some((0, 0)));
}

#[test]
fn suffix_range() {
    assert_eq!(parse_range_header("bytes=-4", 10), Some((6, 9)));
    assert_eq!(parse_range_header("bytes=-10", 10), Some((0, 9)));
    assert_eq!(parse_range_header("bytes=-15", 10), Some((0, 9)));
}

#[test]
fn suffix_of_zero_length_is_no_range() {
    assert_eq!(parse_range_header("bytes=-0", 10), None);
    assert_eq!(parse_range_header("bytes=-0", 0), None);
}

#[test]
fn malformed_headers_mean_no_range() {
    assert_eq!(parse_range_header("items=0-1", 10), None);
    assert_eq!(parse_range_header("bytes=", 10), None);
    assert_eq!(parse_range_header("bytes=1-2-3", 10), None);
    assert_eq!(parse_range_header("bytes=a-b", 10), None);
    assert_eq!(parse_range_header("bytes", 10), None);
    assert_eq!(parse_range_header("", 10), None);
}

#[test]
fn leading_plus_parses_as_std_does() {
    assert_eq!(parse_range_header("bytes=+1-2", 10), Some((1, 2)));
    // A lone `+` is a non-empty start that fails to parse.
    assert_eq!(parse_range_header("bytes=+-2", 10), None);
}

#[test]
fn unparsable_non_empty_sides_mean_no_range() {
    // A non-empty side that is not a number never turns into the suffix or
    // open-ended form; the header degrades to a full-content response.
    assert_eq!(parse_range_header("bytes=a-5", 10), None);
    assert_eq!(parse_range_header("bytes=5-x", 10), None);
    assert_eq!(parse_range_header("bytes=18446744073709551616-5", 10), None);
    assert_eq!(parse_range_header("bytes=5-18446744073709551616", 10), None);
}

#[test]
fn plan_whole_file() {
    let p = plan_stream("a.txt", None, 2);
    assert_eq!(
        p,
        StreamPlan::Whole {
            content_type: "text/plain".to_string(),
            len: 2,
        }
    );
}

#[test]
fn plan_partial_content() {
    let p = plan_stream("a.txt", Some("bytes=0-0"), 2);
    assert_eq!(
        p,
        StreamPlan::Part {
            content_type: "text/plain".to_string(),
            start: 0,
            end: 0,
            len: 1,
        }
    );
}

#[test]
fn plan_unsatisfiable_range() {
    assert_eq!(plan_stream("a.txt", Some("bytes=5-9"), 2), StreamPlan::Unsatisfiable);
    assert_eq!(plan_stream("a.txt", Some("bytes=-1"), 0), StreamPlan::Unsatisfiable);
}

#[test]
fn plan_bad_range_header_serves_whole() {
    let p = plan_stream("a.bin", Some("bytes=oops"), 7);
    assert_eq!(
        p,
        StreamPlan::Whole {
            content_type: "application/octet-stream".to_string(),
            len: 7,
        }
    );
}

#[test]
fn unknown_extension_is_octet_stream() {
    match plan_stream("file.nosuchext", None, 1) {
        StreamPlan::Whole { content_type, len } => {
            assert_eq!(content_type, "application/octet-stream");
            assert_eq!(len, 1);
        }
        other => panic!("expected whole-file plan, got {:?}", other),
    }
}

#[test]
fn content_range_header_text() {
    assert_eq!(format_content_range(0, 0, 2), b"bytes 0-0/2".to_vec());
    assert_eq!(format_content_range(3, 17, 120), b"bytes 3-17/120".to_vec());
    assert_eq!(format_unsat_content_range(2), b"bytes */2".to_vec());
    assert_eq!(format_unsat_content_range(0), b"bytes */0".to_vec());
}
