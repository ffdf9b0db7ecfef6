use samserve::parse_range_header;
use samserve::plan_stream;
use samserve::resolve_path;
use samserve::route_request;
use samserve::stream::{format_content_range, stream_range, stream_whole};
use samserve::Resolution;
use samserve::Route;
use samserve::StreamPlan;

// Root `.` holding `a.txt` with content "hi": a plain GET serves the whole
// file with its length.
#[test]
fn get_small_text_file() {
    let content = b"hi";
    let path = match resolve_path(".", "/a.txt") {
        Resolution::Resolved(p) => p,
        other => panic!("unexpected resolution {:?}", other),
    };
    assert_eq!(path, b"./a.txt".to_vec());
    let plan = plan_stream("./a.txt", None, content.len() as u64);
    assert_eq!(
        plan,
        StreamPlan::Whole {
            content_type: "text/plain".to_string(),
            len: 2,
        }
    );
    assert_eq!(stream_whole(content), b"hi".to_vec());
}

// The same file with `Range: bytes=0-0` yields one byte and the matching
// `Content-Range` header.
#[test]
fn get_first_byte_of_text_file() {
    let content = b"hi";
    let plan = plan_stream("./a.txt", Some("bytes=0-0"), content.len() as u64);
    match plan {
        StreamPlan::Part { content_type, start, end, len } => {
            assert_eq!(content_type, "text/plain");
            assert_eq!((start, end, len), (0, 0, 1));
            assert_eq!(
                format_content_range(start, end, content.len() as u64),
                b"bytes 0-0/2".to_vec()
            );
            assert_eq!(stream_range(content, start as usize, end as usize), b"h".to_vec());
        }
        other => panic!("expected partial content, got {:?}", other),
    }
}

// A traversal attempt is forbidden under any encoding.
#[test]
fn get_parent_of_root_is_forbidden() {
    for raw in ["/../etc/passwd", "/%2e%2e/etc/passwd", "/%2e./etc/passwd", "/.%2e/etc/passwd"] {
        assert_eq!(resolve_path(".", raw), Resolution::Forbidden, "raw path {:?}", raw);
    }
}

// With uploads disabled every POST is refused before any parsing.
#[test]
fn post_with_uploads_disabled_is_forbidden() {
    assert_eq!(route_request(true, true, false), Route::UploadsDisabled);
}

// The suffix forms of the Range header: `bytes=-0` never names a byte,
// `bytes=-<size>` names the whole file.
#[test]
fn suffix_range_edge_cases() {
    for size in [1u64, 2, 10, 4096] {
        assert_eq!(parse_range_header("bytes=-0", size), None);
        let header = format!("bytes=-{}", size);
        assert_eq!(parse_range_header(&header, size), Some((0, size - 1)));
    }
}
