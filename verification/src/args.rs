//! Startup configuration: fixed at process start, read-only afterwards, and
//! shared by every request handler.

use vstd::prelude::*;

verus! {

/// The server's configuration.
pub struct Args {
    /// Root directory to serve files from.
    pub root: String,
    /// IP address to bind to.
    pub ip: String,
    /// Port to listen on.
    pub port: u16,
    /// Whether upload support is enabled.
    pub upload: bool,
    /// Optional credential, `username:password`.
    pub auth: Option<String>,
}

impl Default for Args {
    /// Serve the current directory on all interfaces, port 8000, with
    /// uploads disabled and no credential.
    fn default() -> (r: Args)
        ensures
            r.root@ == "."@,
            r.ip@ == "0.0.0.0"@,
            r.port == 8000,
            !r.upload,
            r.auth is None,
    {
        Args {
            root: ".".to_owned(),
            ip: "0.0.0.0".to_owned(),
            port: 8000,
            upload: false,
            auth: None,
        }
    }
}

} // verus!
