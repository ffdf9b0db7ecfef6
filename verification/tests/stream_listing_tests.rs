use samserve::render_directory_listing;
use samserve::stream::{stream_range, stream_whole};
use samserve::ListingEntry;

#[test]
fn whole_file_streams_identically() {
    assert_eq!(stream_whole(b"hi"), b"hi".to_vec());
    assert_eq!(stream_whole(b""), Vec::<u8>::new());
}

#[test]
fn range_yields_exactly_the_slice() {
    assert_eq!(stream_range(b"hi", 0, 0), b"h".to_vec());
    assert_eq!(stream_range(b"hi", 1, 1), b"i".to_vec());
    assert_eq!(stream_range(b"hello world", 6, 10), b"world".to_vec());
}

#[test]
fn large_content_crosses_chunk_boundaries() {
    let mut content: Vec<u8> = Vec::new();
    for i in 0..20000usize {
        content.push((i % 251) as u8);
    }
    assert_eq!(stream_whole(content.as_slice()), content);
    let part = stream_range(content.as_slice(), 100, 17000);
    assert_eq!(part.len(), 16901);
    assert_eq!(&part[..], &content[100..=17000]);
}

fn entry(name: &str, is_dir: bool) -> ListingEntry {
    ListingEntry {
        name: name.to_string(),
        is_dir,
    }
}

#[test]
fn listing_escapes_names_and_marks_directories() {
    let entries = vec![entry("a<b&c.txt", false), entry("sub", true)];
    let html = render_directory_listing(&entries, "/", false);
    assert!(html.contains("a&lt;b&amp;c.txt"));
    assert!(!html.contains("a<b&c.txt"));
    assert!(html.contains("<a href=\"sub/\">sub</a>"));
    assert!(html.contains("📁"));
    assert!(html.contains("📄"));
}

#[test]
fn quotes_in_names_cannot_close_the_href_attribute() {
    let entries = vec![entry("a\"b.txt", false)];
    let html = render_directory_listing(&entries, "/", false);
    assert!(html.contains("<a href=\"a&quot;b.txt\">"));
    // Text context leaves the quote alone.
    assert!(html.contains(">a\"b.txt</a>"));
}

#[test]
fn listing_escapes_the_request_path() {
    let entries: Vec<ListingEntry> = vec![];
    let html = render_directory_listing(&entries, "/x<y>&z", false);
    assert!(html.contains("<title>Index of /x&lt;y&gt;&amp;z</title>"));
    assert!(html.contains("<h1>Index of /x&lt;y&gt;&amp;z</h1>"));
}

#[test]
fn upload_form_present_only_when_enabled() {
    let entries = vec![entry("a.txt", false)];
    let with = render_directory_listing(&entries, "/", true);
    assert!(with.contains("<form class=\"upload\""));
    assert!(with.contains("enctype=\"multipart/form-data\""));
    assert!(with.contains("name=\"file\""));
    let without = render_directory_listing(&entries, "/", false);
    assert!(!without.contains("<form"));
}

#[test]
fn empty_directory_still_renders() {
    let entries: Vec<ListingEntry> = vec![];
    let html = render_directory_listing(&entries, "/empty", false);
    assert!(html.contains("<ul>"));
    assert!(html.contains("</ul>"));
    assert!(html.contains("</html>"));
    let with_form = render_directory_listing(&entries, "/empty", true);
    assert!(with_form.contains("<form class=\"upload\""));
}

#[test]
fn entries_appear_in_enumeration_order() {
    let entries = vec![entry("zzz", false), entry("aaa", false)];
    let html = render_directory_listing(&entries, "/", false);
    let z = html.find(">zzz<").expect("zzz missing");
    let a = html.find(">aaa<").expect("aaa missing");
    assert!(z < a);
}
