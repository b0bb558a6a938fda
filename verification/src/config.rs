use vstd::prelude::*;

verus! {

/// Configuration of a static file server: where it is mounted, which
/// directory it serves, and whether a directory is answered with its
/// `index.html`.
#[derive(Clone, Debug)]
pub struct StaticServerConfig {
    pub mount_path: String,
    pub root_dir: String,
    pub serve_index: bool,
}

} // verus!
