use openfi_proto::extensions::{last_dot_piece, FilePath, PathBufDetemineMimeExt, PathBufFileUtilExt};
use openfi_proto::responders::{etag, is_not_modified};

fn path(s: &str) -> FilePath {
    FilePath::new(Some(s.to_owned()))
}

#[test]
fn file_paths() {
    assert!(path("./sites/index/index.html").is_file());
    assert_eq!(path("./sites/index/index.html").get_file_ext(), "html");
    assert_eq!(path("a.b.c").get_file_ext(), "c");
    assert_eq!(path("a.b.c").get_file_name(), "c");
    assert!(!path("noext").is_file());
    assert_eq!(path("noext").get_file_ext(), "noext");
    assert!(!FilePath::new(None).is_file());
    assert_eq!(path("dir.d/file").get_file_ext(), "d/file");
    assert_eq!(path("trailing.").get_file_ext(), "");
    assert_eq!(last_dot_piece("x.\u{e9}t\u{e9}"), "\u{e9}t\u{e9}");
}

#[test]
fn mime_types() {
    assert_eq!(path("./sites/index/index.html").get_mime_type(), "text/html");
    assert_eq!(path("style.css").get_mime_type(), "text/css");
    assert_eq!(path("app.js").get_mime_type(), "text/javascript");
    assert_eq!(path("logo.PNG").get_mime_type(), "image/png");
    assert_eq!(path("file.unknownext").get_mime_type(), "text/plain");
    assert_eq!(path("trailing.").get_mime_type(), "text/plain");
}

#[test]
fn entity_tags() {
    assert_eq!(etag(0), b"0".to_vec());
    assert_eq!(etag(7), b"7".to_vec());
    assert_eq!(etag(10), b"10".to_vec());
    assert_eq!(etag(12345), b"12345".to_vec());
    assert_eq!(etag(u64::MAX), b"18446744073709551615".to_vec());
}

#[test]
fn not_modified_answers() {
    assert!(is_not_modified(Some(b"12345"), 12345));
    assert!(!is_not_modified(Some(b"012345"), 12345));
    assert!(!is_not_modified(Some(b"1234"), 12345));
    assert!(!is_not_modified(None, 12345));
}
