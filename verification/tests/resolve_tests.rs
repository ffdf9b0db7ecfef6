use samserve::resolve_path;
use samserve::Resolution;

fn resolved(r: Resolution) -> Vec<u8> {
    match r {
        Resolution::Resolved(p) => p,
        other => panic!("expected a resolved path, got {:?}", other),
    }
}

#[test]
fn plain_file_under_root() {
    assert_eq!(resolved(resolve_path(".", "/a.txt")), b"./a.txt".to_vec());
}

#[test]
fn nested_path_under_root() {
    assert_eq!(resolved(resolve_path("/srv", "/a/b/c.txt")), b"/srv/a/b/c.txt".to_vec());
}

#[test]
fn root_marker_and_current_dir_are_noops() {
    assert_eq!(resolved(resolve_path(".", "/./a//b")), b"./a/b".to_vec());
    assert_eq!(resolved(resolve_path(".", "")), b".".to_vec());
    assert_eq!(resolved(resolve_path(".", "/")), b".".to_vec());
}

#[test]
fn parent_component_is_forbidden() {
    assert_eq!(resolve_path(".", "/../etc/passwd"), Resolution::Forbidden);
    assert_eq!(resolve_path(".", "/a/../b"), Resolution::Forbidden);
    assert_eq!(resolve_path(".", "/a/b/c/../../../../x"), Resolution::Forbidden);
    assert_eq!(resolve_path(".", ".."), Resolution::Forbidden);
}

#[test]
fn encoded_parent_component_is_forbidden() {
    assert_eq!(resolve_path(".", "/%2e%2e/etc/passwd"), Resolution::Forbidden);
    assert_eq!(resolve_path(".", "/%2E%2E/etc/passwd"), Resolution::Forbidden);
    assert_eq!(resolve_path(".", "/a/%2e./b"), Resolution::Forbidden);
}

#[test]
fn percent_escapes_decode() {
    assert_eq!(resolved(resolve_path(".", "/a%20b.txt")), b"./a b.txt".to_vec());
    // A `%` not followed by two hex digits passes through unchanged.
    assert_eq!(resolved(resolve_path(".", "/100%")), b"./100%".to_vec());
    assert_eq!(resolved(resolve_path(".", "/a%2x")), b"./a%2x".to_vec());
}

#[test]
fn invalid_utf8_is_bad_encoding() {
    assert_eq!(resolve_path(".", "/%ff"), Resolution::BadEncoding);
    assert_eq!(resolve_path(".", "/%c3%28"), Resolution::BadEncoding);
}

#[test]
fn multibyte_utf8_is_accepted() {
    // "é" percent-encoded as UTF-8.
    assert_eq!(resolved(resolve_path(".", "/caf%c3%a9")), "./café".as_bytes().to_vec());
}

#[test]
fn dotted_names_that_are_not_traversal_pass() {
    assert_eq!(resolved(resolve_path(".", "/a..b/...")), b"./a..b/...".to_vec());
    assert_eq!(resolved(resolve_path(".", "/.hidden")), b"./.hidden".to_vec());
}
