//! The resolver: from a request path to the one file that may be served.

use vstd::prelude::*;
use vstd::string::*;
use crate::config::StaticServerConfig;
use crate::errors::ServeError;
use crate::mime::guess_mime_type;
use crate::mime::mime_of_path;
use crate::paths::has_prefix;
use crate::paths::is_normalized_mount;
use crate::paths::is_within;
use crate::paths::join_path;
use crate::paths::joined;
use crate::paths::normalize_mount_path;
use crate::paths::normalized_mount;
use crate::paths::relative_part;
use crate::paths::strip_mount;
use crate::paths::within;

verus! {

/// A static file server: a mount prefix in normal form, the root directory
/// below which every served file lies, and the index policy.
pub struct StaticServer {
    mount_path: String,
    root_dir: String,
    serve_index: bool,
}

/// A file that is served: its bytes, its content type and its path.
#[derive(Debug)]
pub struct StaticFile {
    pub body: Vec<u8>,
    pub mime_type: String,
    pub path: String,
}

/// What the file system said of one target path and of the root directory.
#[derive(Debug)]
pub struct Probe {
    /// The canonical form of the target path: absolute, with every symbolic
    /// link and relative segment resolved. `None` where it has none, as for a
    /// path that does not exist.
    pub canonical_path: Option<String>,
    /// The canonical form of the root directory, or `None`.
    pub canonical_root: Option<String>,
    /// Whether the canonical target exists and is a regular file.
    pub is_file: bool,
}

/// The path to look at for `request`: `None` where the request does not
/// begin with `mount`, else what is left behind the mount, joined onto
/// `root`.
pub open spec fn candidate_of(mount: Seq<char>, root: Seq<char>, request: Seq<char>) -> Option<
    Seq<char>,
> {
    if mount.is_prefix_of(request) {
        Some(joined(root, relative_part(mount, request)))
    } else {
        None
    }
}

/// The path that is meant to be read: the index file of a directory where
/// those are served, else the candidate itself.
pub open spec fn target_of(candidate: Seq<char>, is_dir: bool, serve_index: bool) -> Seq<char> {
    if is_dir && serve_index {
        joined(candidate, "index.html"@)
    } else {
        candidate
    }
}

/// The file that may be returned: the canonical target, where the request
/// belongs to the mount, both canonical forms exist, the target lies within
/// the root and is a regular file.
pub open spec fn resolved(mount: Seq<char>, request: Seq<char>, probe: Probe) -> Option<Seq<char>> {
    match (probe.canonical_path, probe.canonical_root) {
        (Some(path), Some(root)) => if mount.is_prefix_of(request) && within(path@, root@)
            && probe.is_file {
            Some(path@)
        } else {
            None
        },
        _ => None,
    }
}

/// A file system, as far as resolution reads it: which paths are
/// directories, which are regular files, and the canonical form of each path
/// that has one.
pub struct FileSystem {
    pub dirs: Set<Seq<char>>,
    pub files: Set<Seq<char>>,
    pub canonical: Map<Seq<char>, Seq<char>>,
}

/// The file that a server with these settings returns for `request` on the
/// file system `fs`: the request must belong to the mount; what is left of
/// it is joined onto the root; a directory is replaced by its index file
/// where those are served; the canonical form of that target must exist, lie
/// within the canonical root and be a regular file, and is the answer.
pub open spec fn resolution(
    mount: Seq<char>,
    root: Seq<char>,
    serve_index: bool,
    request: Seq<char>,
    fs: FileSystem,
) -> Option<Seq<char>> {
    match candidate_of(mount, root, request) {
        None => None,
        Some(candidate) => {
            let target = target_of(candidate, fs.dirs.contains(candidate), serve_index);
            if fs.canonical.dom().contains(target) && fs.canonical.dom().contains(root) && within(
                fs.canonical[target],
                fs.canonical[root],
            ) && fs.files.contains(fs.canonical[target]) {
                Some(fs.canonical[target])
            } else {
                None
            }
        },
    }
}

/// `probe` says of `target` and `root` what `fs` holds of them.
pub open spec fn probe_reports(
    probe: Probe,
    fs: FileSystem,
    target: Seq<char>,
    root: Seq<char>,
) -> bool {
    &&& probe.canonical_path is Some <==> fs.canonical.dom().contains(target)
    &&& probe.canonical_path is Some ==> probe.canonical_path.unwrap()@ == fs.canonical[target]
    &&& probe.canonical_root is Some <==> fs.canonical.dom().contains(root)
    &&& probe.canonical_root is Some ==> probe.canonical_root.unwrap()@ == fs.canonical[root]
    &&& probe.canonical_path is Some ==> (probe.is_file <==> fs.files.contains(
        fs.canonical[target],
    ))
}

/// The steps compute the resolution: where the candidate of a request was
/// asked about, its target was probed, and the probe reports the file
/// system truly, the file resolved from the probe is the file that the
/// server returns on that file system.
pub proof fn lemma_steps_give_resolution(
    mount: Seq<char>,
    root: Seq<char>,
    serve_index: bool,
    request: Seq<char>,
    fs: FileSystem,
    probe: Probe,
)
    requires
        candidate_of(mount, root, request) is Some,
        probe_reports(
            probe,
            fs,
            target_of(
                candidate_of(mount, root, request).unwrap(),
                fs.dirs.contains(candidate_of(mount, root, request).unwrap()),
                serve_index,
            ),
            root,
        ),
    ensures
        resolved(mount, request, probe) == resolution(mount, root, serve_index, request, fs),
{
}

/// A request that does not begin with the mount prefix resolves to nothing,
/// whatever the root and whatever is on the file system.
pub proof fn lemma_outside_mount_is_absent(
    mount: Seq<char>,
    root: Seq<char>,
    serve_index: bool,
    request: Seq<char>,
    fs: FileSystem,
    probe: Probe,
)
    requires
        !mount.is_prefix_of(request),
    ensures
        candidate_of(mount, root, request) is None,
        resolved(mount, request, probe) is None,
        resolution(mount, root, serve_index, request, fs) is None,
{
}

/// Containment: whatever the request, a file that is returned lies within
/// the canonical root and is a regular file. A request whose target is, in
/// canonical form, outside the root resolves to nothing.
pub proof fn lemma_resolution_is_contained(
    mount: Seq<char>,
    root: Seq<char>,
    serve_index: bool,
    request: Seq<char>,
    fs: FileSystem,
)
    ensures
        resolution(mount, root, serve_index, request, fs) is Some ==> {
            let path = resolution(mount, root, serve_index, request, fs).unwrap();
            &&& fs.canonical.dom().contains(root)
            &&& within(path, fs.canonical[root])
            &&& fs.files.contains(path)
        },
        candidate_of(mount, root, request) is Some ==> {
            let candidate = candidate_of(mount, root, request).unwrap();
            let target = target_of(candidate, fs.dirs.contains(candidate), serve_index);
            fs.canonical.dom().contains(target) && fs.canonical.dom().contains(root) && !within(
                fs.canonical[target],
                fs.canonical[root],
            ) ==> resolution(mount, root, serve_index, request, fs) is None
        },
{
}

/// A path within a root begins with it; a root is within itself; and a path
/// one component below a root that does not end in a slash is within it.
pub proof fn lemma_within_facts(path: Seq<char>, root: Seq<char>, name: Seq<char>)
    ensures
        within(path, root) ==> root.is_prefix_of(path),
        within(root, root),
        within(root + seq!['/'] + name, root),
{
    assert(root =~= root.subrange(0, root.len() as int));
    let below = root + seq!['/'] + name;
    assert(root =~= below.subrange(0, root.len() as int));
    assert(below[root.len() as int] == '/');
}

impl Probe {
    /// The probe of a request for which there is nothing to look at.
    pub fn nothing() -> (out: Probe)
        ensures
            out.canonical_path is None,
            out.canonical_root is None,
            !out.is_file,
    {
        Probe { canonical_path: None, canonical_root: None, is_file: false }
    }
}

impl StaticFile {
    /// A served file, from its three parts.
    pub fn new(body: Vec<u8>, mime_type: String, path: String) -> (out: StaticFile)
        ensures
            out.body == body,
            out.mime_type == mime_type,
            out.path == path,
    {
        StaticFile { body, mime_type, path }
    }
}

impl StaticServer {
    #[verifier::type_invariant]
    spec fn well_formed(self) -> bool {
        is_normalized_mount(self.mount_path@)
    }

    /// The mount prefix, as text.
    pub closed spec fn mount(self) -> Seq<char> {
        self.mount_path@
    }

    /// The root directory, as text.
    pub closed spec fn root(self) -> Seq<char> {
        self.root_dir@
    }

    /// Whether a directory is answered with its index file.
    pub closed spec fn index_served(self) -> bool {
        self.serve_index
    }

    /// A server for `config`. The mount prefix is put in normal form; every
    /// text has one.
    pub fn from_config(config: StaticServerConfig) -> (out: StaticServer)
        ensures
            out.mount() == normalized_mount(config.mount_path@),
            is_normalized_mount(out.mount()),
            out.root() == config.root_dir@,
            out.index_served() == config.serve_index,
    {
        let mount_path = normalize_mount_path(config.mount_path.as_str());
        StaticServer { mount_path, root_dir: config.root_dir, serve_index: config.serve_index }
    }

    /// The mount prefix. It is in normal form for every server: exactly `/`,
    /// or with exactly one leading slash and no trailing one.
    pub fn mount_path(&self) -> (out: &str)
        ensures
            out@ == self.mount(),
            is_normalized_mount(out@),
    {
        proof {
            use_type_invariant(self);
        }
        self.mount_path.as_str()
    }

    /// The root directory.
    pub fn root_dir(&self) -> (out: &str)
        ensures
            out@ == self.root(),
    {
        self.root_dir.as_str()
    }

    /// Whether a directory is answered with its index file.
    pub fn serve_index(&self) -> (out: bool)
        ensures
            out == self.index_served(),
    {
        self.serve_index
    }

    /// The path to ask the file system about first: whether it is a
    /// directory. `None` where the request does not belong to this mount.
    pub fn candidate_path(&self, request_path: &str) -> (out: Option<String>)
        ensures
            out.is_some() == self.mount().is_prefix_of(request_path@),
            match out {
                Some(path) => candidate_of(self.mount(), self.root(), request_path@) == Some(
                    path@,
                ),
                None => candidate_of(self.mount(), self.root(), request_path@) is None,
            },
    {
        if !has_prefix(request_path, self.mount_path.as_str()) {
            return None;
        }
        let relative = strip_mount(request_path, self.mount_path.as_str());
        Some(join_path(self.root_dir.as_str(), relative))
    }

    /// The path that is meant to be read, and so the one to canonicalize:
    /// `index.html` below `candidate` where `candidate` is a directory and
    /// index files are served, else `candidate`.
    pub fn target_path(&self, candidate: String, is_dir: bool) -> (out: String)
        ensures
            out@ == target_of(candidate@, is_dir, self.index_served()),
    {
        if is_dir && self.serve_index {
            join_path(candidate.as_str(), "index.html")
        } else {
            candidate
        }
    }

    /// The file that may be returned for `request_path`, given what the file
    /// system said of its target: the canonical target, if the request
    /// belongs to this mount, the target lies within the root and is a
    /// regular file.
    pub fn resolve(&self, request_path: &str, probe: &Probe) -> (out: Option<String>)
        ensures
            match out {
                Some(path) => resolved(self.mount(), request_path@, *probe) == Some(path@),
                None => resolved(self.mount(), request_path@, *probe) is None,
            },
            !self.mount().is_prefix_of(request_path@) ==> out is None,
            out is Some ==> probe.canonical_root is Some && within(
                out.unwrap()@,
                probe.canonical_root.unwrap()@,
            ),
            out is Some ==> probe.is_file && probe.canonical_path == out,
    {
        if !has_prefix(request_path, self.mount_path.as_str()) {
            return None;
        }
        match (&probe.canonical_path, &probe.canonical_root) {
            (Some(path), Some(root)) => {
                if is_within(path.as_str(), root.as_str()) && probe.is_file {
                    Some(path.clone())
                } else {
                    None
                }
            },
            _ => None,
        }
    }

    /// The path whose bytes are to be read for `request_path`, or
    /// `NotFound` where none may be returned.
    pub fn locate(&self, request_path: &str, probe: &Probe) -> (out: Result<String, ServeError>)
        ensures
            match out {
                Ok(path) => resolved(self.mount(), request_path@, *probe) == Some(path@),
                Err(err) => err is NotFound && resolved(self.mount(), request_path@, *probe)
                    is None,
            },
    {
        match self.resolve(request_path, probe) {
            Some(path) => Ok(path),
            None => Err(ServeError::NotFound),
        }
    }

    /// The served file, from the located `path` and the outcome of reading
    /// it: the bytes as they were read, with the content type of `path`; or
    /// the I/O failure, wrapped.
    pub fn read_file(&self, path: String, content: Result<Vec<u8>, std::io::Error>) -> (out: Result<
        StaticFile,
        ServeError,
    >)
        ensures
            match content {
                Ok(bytes) => out is Ok && out.unwrap().body == bytes && out.unwrap().path
                    == path && out.unwrap().mime_type@ == mime_of_path(path@),
                Err(failure) => out == Err::<StaticFile, ServeError>(ServeError::Io(failure)),
            },
    {
        match content {
            Ok(body) => {
                let mime_type = guess_mime_type(path.as_str());
                Ok(StaticFile::new(body, mime_type, path))
            },
            Err(failure) => Err(ServeError::Io(failure)),
        }
    }
}

} // verus!
