//! Why a request could not be served.

use vstd::prelude::*;
use vstd::string::*;

verus! {

/// A failure of the operating system to read a file, carried through
/// unopened.
#[verifier::external_type_specification]
#[verifier::external_body]
pub struct ExIoError(std::io::Error);

/// The two ways in which serving a request fails.
#[derive(Debug)]
pub enum ServeError {
    /// No file may be returned for the request. Why is not told: a request
    /// outside the mount, a path that leaves the root, a missing file and a
    /// directory that is not served all look the same.
    NotFound,
    /// The file was found and could not be read.
    Io(std::io::Error),
}

/// The text of `std::io::Error`, as its `Display` impl writes it. Nothing is
/// claimed of the text.
#[verifier::external_body]
fn io_error_text(err: &std::io::Error) -> (out: String) {
    format!("{}", err)
}

impl ServeError {
    /// A line of text for the error.
    pub fn message(&self) -> (out: String)
        ensures
            self is NotFound ==> out@ == "File not found"@,
            self is Io ==> "IO error: "@.is_prefix_of(out@),
    {
        match self {
            ServeError::NotFound => String::from_str("File not found"),
            ServeError::Io(err) => {
                let detail = io_error_text(err);
                let out = String::from_str("IO error: ").concat(detail.as_str());
                assert(out@.subrange(0, "IO error: "@.len() as int) =~= "IO error: "@);
                out
            },
        }
    }

    /// The failure underneath, if there is one.
    pub fn source(&self) -> (out: Option<&std::io::Error>)
        ensures
            match *self {
                ServeError::NotFound => out is None,
                ServeError::Io(err) => out == Some(&err),
            },
    {
        match self {
            ServeError::NotFound => None,
            ServeError::Io(err) => Some(err),
        }
    }
}

} // verus!
