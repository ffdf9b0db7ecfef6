//! Per-request dispatch: the auth gate first, then POST to the upload path
//! (when enabled) and everything else to resolution and serving.

use vstd::prelude::*;

verus! {

/// Where a request goes after the auth gate.
#[derive(PartialEq, Eq, Structural, Debug)]
pub enum Route {
    /// Auth is configured and the request did not satisfy it: status 401
    /// with `WWW-Authenticate: Basic realm="Restricted"`.
    Unauthorized,
    /// A POST while uploads are disabled: status 403.
    UploadsDisabled,
    /// A POST with uploads enabled: the upload pipeline.
    Upload,
    /// Any other method: resolve the path and serve it.
    Serve,
}

pub open spec fn spec_route(allowed: bool, is_post: bool, upload_enabled: bool) -> Route {
    if !allowed {
        Route::Unauthorized
    } else if is_post && upload_enabled {
        Route::Upload
    } else if is_post {
        Route::UploadsDisabled
    } else {
        Route::Serve
    }
}

/// Dispatches a request: `allowed` is the auth gate's verdict.
pub fn route_request(allowed: bool, is_post: bool, upload_enabled: bool) -> (r: Route)
    ensures
        r == spec_route(allowed, is_post, upload_enabled),
{
    if !allowed {
        Route::Unauthorized
    } else if is_post && upload_enabled {
        Route::Upload
    } else if is_post {
        Route::UploadsDisabled
    } else {
        Route::Serve
    }
}

/// How a successfully resolved GET target is served.
#[derive(PartialEq, Eq, Structural, Debug)]
pub enum ServeKind {
    /// A regular file: stream it (whole or ranged).
    File,
    /// A directory holding an index document: stream that document.
    IndexFile,
    /// A directory without an index document: render a listing.
    Listing,
}

pub open spec fn spec_classify_target(is_dir: bool, has_index: bool) -> ServeKind {
    if !is_dir {
        ServeKind::File
    } else if has_index {
        ServeKind::IndexFile
    } else {
        ServeKind::Listing
    }
}

/// Chooses how to serve a resolved path from its filesystem metadata:
/// `has_index` says whether the directory holds an `index.html` entry.
pub fn classify_target(is_dir: bool, has_index: bool) -> (r: ServeKind)
    ensures
        r == spec_classify_target(is_dir, has_index),
{
    if !is_dir {
        ServeKind::File
    } else if has_index {
        ServeKind::IndexFile
    } else {
        ServeKind::Listing
    }
}

} // verus!
