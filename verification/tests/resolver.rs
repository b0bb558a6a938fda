use pavex_static_files::{Probe, ServeError, StaticFile, StaticServer, StaticServerConfig};
use std::io::{Error, ErrorKind};

fn server(mount: &str, root: &str, serve_index: bool) -> StaticServer {
    StaticServer::from_config(StaticServerConfig {
        mount_path: mount.to_string(),
        root_dir: root.to_string(),
        serve_index,
    })
}

fn probe(path: Option<&str>, root: Option<&str>, is_file: bool) -> Probe {
    Probe {
        canonical_path: path.map(|p| p.to_string()),
        canonical_root: root.map(|p| p.to_string()),
        is_file,
    }
}

#[test]
fn from_config_keeps_root_and_flag_and_normalizes_mount() {
    let s = server("static/", "/srv/www", true);
    assert_eq!(s.mount_path(), "/static");
    assert_eq!(s.root_dir(), "/srv/www");
    assert!(s.serve_index());
    let t = server("/", "relative/root", false);
    assert_eq!(t.mount_path(), "/");
    assert_eq!(t.root_dir(), "relative/root");
    assert!(!t.serve_index());
}

#[test]
fn candidate_is_the_rest_joined_onto_the_root() {
    let s = server("/static", "/srv/www", false);
    assert_eq!(s.candidate_path("/static/hello.txt"), Some("/srv/www/hello.txt".to_string()));
    assert_eq!(s.candidate_path("/static"), Some("/srv/www/".to_string()));
    assert_eq!(s.candidate_path("/static/"), Some("/srv/www/".to_string()));
    assert_eq!(
        s.candidate_path("/static/../outside.txt"),
        Some("/srv/www/../outside.txt".to_string())
    );
    assert_eq!(s.candidate_path("/static//etc/passwd"), Some("/etc/passwd".to_string()));
}

#[test]
fn request_outside_the_mount_has_no_candidate() {
    let s = server("/static", "/srv/www", false);
    assert_eq!(s.candidate_path("/other/hello.txt"), None);
    assert_eq!(s.candidate_path("/stati"), None);
    assert_eq!(s.candidate_path(""), None);
    assert_eq!(s.candidate_path("static/hello.txt"), None);
}

#[test]
fn target_is_the_index_file_of_a_served_directory() {
    let with_index = server("/static", "/srv/www", true);
    assert_eq!(
        with_index.target_path("/srv/www/docs".to_string(), true),
        "/srv/www/docs/index.html"
    );
    assert_eq!(with_index.target_path("/srv/www/".to_string(), true), "/srv/www/index.html");
    assert_eq!(with_index.target_path("/srv/www/a.txt".to_string(), false), "/srv/www/a.txt");
    let without = server("/static", "/srv/www", false);
    assert_eq!(without.target_path("/srv/www/docs".to_string(), true), "/srv/www/docs");
    assert_eq!(without.target_path("/srv/www/a.txt".to_string(), false), "/srv/www/a.txt");
}

#[test]
fn resolve_returns_the_canonical_file_within_the_root() {
    let s = server("/static", "/srv/www", false);
    let seen = probe(Some("/srv/www/hello.txt"), Some("/srv/www"), true);
    assert_eq!(s.resolve("/static/hello.txt", &seen), Some("/srv/www/hello.txt".to_string()));
}

#[test]
fn resolve_is_absent_outside_the_mount() {
    let s = server("/static", "/srv/www", false);
    let seen = probe(Some("/srv/www/hello.txt"), Some("/srv/www"), true);
    assert_eq!(s.resolve("/other/hello.txt", &seen), None);
    assert_eq!(s.resolve("/", &seen), None);
    assert_eq!(s.resolve("", &seen), None);
}

#[test]
fn resolve_is_absent_outside_the_root() {
    let s = server("/static", "/tmp/root", false);
    let seen = probe(Some("/tmp/outside.txt"), Some("/tmp/root"), true);
    assert_eq!(s.resolve("/static/../outside.txt", &seen), None);
    let sibling = probe(Some("/tmp/root2/a.txt"), Some("/tmp/root"), true);
    assert_eq!(s.resolve("/static/../root2/a.txt", &sibling), None);
}

#[test]
fn resolve_is_absent_without_a_regular_file() {
    let s = server("/static", "/srv/www", false);
    let dir = probe(Some("/srv/www/docs"), Some("/srv/www"), false);
    assert_eq!(s.resolve("/static/docs", &dir), None);
}

#[test]
fn resolve_is_absent_without_canonical_forms() {
    let s = server("/static", "/srv/www", false);
    assert_eq!(s.resolve("/static/a", &probe(None, Some("/srv/www"), true)), None);
    assert_eq!(s.resolve("/static/a", &probe(Some("/srv/www/a"), None, true)), None);
    assert_eq!(s.resolve("/static/a", &Probe::nothing()), None);
}

#[test]
fn locate_turns_absence_into_not_found() {
    let s = server("/static", "/srv/www", false);
    let seen = probe(Some("/srv/www/hello.txt"), Some("/srv/www"), true);
    assert_eq!(s.locate("/static/hello.txt", &seen).unwrap(), "/srv/www/hello.txt");
    assert!(matches!(s.locate("/other", &seen), Err(ServeError::NotFound)));
    let outside = probe(Some("/srv/outside.txt"), Some("/srv/www"), true);
    assert!(matches!(s.locate("/static/../outside.txt", &outside), Err(ServeError::NotFound)));
    assert!(matches!(s.locate("/static/x", &Probe::nothing()), Err(ServeError::NotFound)));
}

#[test]
fn read_file_attaches_the_content_type() {
    let s = server("/static", "/srv/www", false);
    let file: StaticFile = s
        .read_file("/srv/www/hello.txt".to_string(), Ok(b"Hello, world!".to_vec()))
        .unwrap();
    assert_eq!(file.body, b"Hello, world!");
    assert_eq!(file.mime_type, "text/plain");
    assert_eq!(file.path, "/srv/www/hello.txt");
}

#[test]
fn read_file_wraps_the_failure_to_read() {
    let s = server("/static", "/srv/www", false);
    let failure = Error::new(ErrorKind::PermissionDenied, "denied");
    match s.read_file("/srv/www/hello.txt".to_string(), Err(failure)) {
        Err(ServeError::Io(cause)) => assert_eq!(cause.kind(), ErrorKind::PermissionDenied),
        _ => panic!("an I/O failure is reported as such"),
    }
}

#[test]
fn static_file_is_made_of_its_parts() {
    let file = StaticFile::new(vec![1, 2, 3], "text/css".to_string(), "/a/b.css".to_string());
    assert_eq!(file.body, vec![1, 2, 3]);
    assert_eq!(file.mime_type, "text/css");
    assert_eq!(file.path, "/a/b.css");
}
