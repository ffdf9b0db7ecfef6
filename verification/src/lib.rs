//! A small static file server library: safe path resolution under a root
//! directory, byte-range parsing, content streaming plans, directory-listing
//! rendering, multipart upload decisions, and a Basic-Auth gate. The
//! surrounding process (argument parsing, the TCP listener, the async
//! request loop, file and network I/O) lives outside this crate and calls
//! into these verified functions with plain values.

pub mod args;
pub mod auth;
pub mod listing;
pub mod range;
pub mod resolve;
pub mod router;
pub mod stream;
pub mod text;
pub mod upload;

pub use args::Args;
pub use auth::check_basic_auth;
pub use listing::render_directory_listing;
pub use listing::ListingEntry;
pub use range::parse_range_header;
pub use resolve::resolve_path;
pub use resolve::Resolution;
pub use router::classify_target;
pub use router::route_request;
pub use router::Route;
pub use router::ServeKind;
pub use stream::plan_stream;
pub use stream::StreamPlan;
pub use upload::is_file_field;
pub use upload::plan_upload;
pub use upload::safe_file_name;
pub use upload::upload_destination;
pub use upload::UploadDecision;
