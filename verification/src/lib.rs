//! Resolution of request paths to files under a root directory, for serving
//! static assets below a mounted URL prefix.
//!
//! The library decides; it never touches the file system. Paths are
//! `/`-separated text. A caller asks the library which path to look at,
//! reports what the file system said about it, and gets back the single file,
//! if any, that may be returned for the request.

pub mod config;
pub mod errors;
pub mod mime;
pub mod paths;
pub mod static_server;

pub use config::StaticServerConfig;
pub use errors::ServeError;
pub use mime::guess_mime_type;
pub use paths::normalize_mount_path;
pub use static_server::Probe;
pub use static_server::StaticFile;
pub use static_server::StaticServer;
