use pavex_static_files::ServeError;
use std::io::{Error, ErrorKind};

#[test]
fn not_found_has_its_own_line() {
    assert_eq!(ServeError::NotFound.message(), "File not found");
    assert!(ServeError::NotFound.source().is_none());
}

#[test]
fn io_error_shows_the_cause() {
    let cause = Error::new(ErrorKind::PermissionDenied, "no entry");
    let shown = format!("{}", cause);
    let err = ServeError::Io(cause);
    assert_eq!(err.message(), format!("IO error: {}", shown));
    assert_eq!(err.message(), "IO error: no entry");
    let source = err.source().unwrap();
    assert_eq!(source.kind(), ErrorKind::PermissionDenied);
}
