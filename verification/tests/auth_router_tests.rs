use base64::engine::general_purpose;
use base64::Engine as _;
use samserve::check_basic_auth;
use samserve::classify_target;
use samserve::route_request;
use samserve::Args;
use samserve::Route;
use samserve::ServeKind;

#[test]
fn no_credential_allows_everything() {
    assert!(check_basic_auth(None, None));
    assert!(check_basic_auth(None, Some("Basic whatever")));
}

#[test]
fn missing_header_is_denied() {
    let token = general_purpose::STANDARD.encode("admin:secret");
    assert!(!check_basic_auth(Some(&token), None));
}

#[test]
fn matching_token_is_allowed() {
    let token = general_purpose::STANDARD.encode("admin:secret");
    let header = format!("Basic {}", token);
    assert!(check_basic_auth(Some(&token), Some(&header)));
}

#[test]
fn wrong_scheme_or_token_is_denied() {
    let token = general_purpose::STANDARD.encode("admin:secret");
    let lower = format!("basic {}", token);
    assert!(!check_basic_auth(Some(&token), Some(&lower)));
    let wrong = general_purpose::STANDARD.encode("admin:wrong");
    let header = format!("Basic {}", wrong);
    assert!(!check_basic_auth(Some(&token), Some(&header)));
    // A prefix of the right token is not enough.
    let short = format!("Basic {}", &token[..token.len() - 1]);
    assert!(!check_basic_auth(Some(&token), Some(&short)));
}

#[test]
fn unauthorized_requests_never_reach_the_handlers() {
    assert_eq!(route_request(false, false, false), Route::Unauthorized);
    assert_eq!(route_request(false, true, true), Route::Unauthorized);
}

#[test]
fn post_routing_depends_on_the_upload_flag() {
    assert_eq!(route_request(true, true, false), Route::UploadsDisabled);
    assert_eq!(route_request(true, true, true), Route::Upload);
    assert_eq!(route_request(true, false, true), Route::Serve);
    assert_eq!(route_request(true, false, false), Route::Serve);
}

#[test]
fn target_classification() {
    assert_eq!(classify_target(false, false), ServeKind::File);
    assert_eq!(classify_target(false, true), ServeKind::File);
    assert_eq!(classify_target(true, true), ServeKind::IndexFile);
    assert_eq!(classify_target(true, false), ServeKind::Listing);
}

#[test]
fn default_configuration() {
    let a = Args::default();
    assert_eq!(a.root, ".");
    assert_eq!(a.ip, "0.0.0.0");
    assert_eq!(a.port, 8000);
    assert!(!a.upload);
    assert!(a.auth.is_none());
}
