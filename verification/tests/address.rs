use s3edit::address::ParseError;
use s3edit::address::RemoteReference;

#[test]
fn resolves_container_key_and_extension() {
    let r = RemoteReference::resolve("s3://c/a/b.ext").unwrap();
    assert_eq!(r.container, "c");
    assert_eq!(r.key, "a/b.ext");
    assert_eq!(r.extension, Some("ext".to_string()));
}

#[test]
fn resolves_nested_key() {
    let r = RemoteReference::resolve("s3://bucket1/dir/file.txt").unwrap();
    assert_eq!(r.container, "bucket1");
    assert_eq!(r.key, "dir/file.txt");
    assert_eq!(r.extension, Some("txt".to_string()));
}

#[test]
fn rejects_missing_scheme() {
    assert_eq!(
        RemoteReference::resolve("bucket/key").unwrap_err(),
        ParseError::MissingScheme
    );
    assert_eq!(RemoteReference::resolve("").unwrap_err(), ParseError::MissingScheme);
    assert_eq!(
        RemoteReference::resolve("http://bucket/key").unwrap_err(),
        ParseError::MissingScheme
    );
}

#[test]
fn rejects_unrecognized_scheme() {
    assert_eq!(
        RemoteReference::resolve("ftp://bucket1/file").unwrap_err(),
        ParseError::MissingScheme
    );
}

#[test]
fn rejects_empty_container() {
    assert_eq!(RemoteReference::resolve("s3://").unwrap_err(), ParseError::MissingContainer);
    assert_eq!(
        RemoteReference::resolve("s3:///key").unwrap_err(),
        ParseError::MissingContainer
    );
}

#[test]
fn container_alone_gives_empty_key() {
    let r = RemoteReference::resolve("s3://bucket").unwrap();
    assert_eq!(r.container, "bucket");
    assert_eq!(r.key, "");
    assert_eq!(r.extension, None);

    let r = RemoteReference::resolve("s3://bucket/").unwrap();
    assert_eq!(r.container, "bucket");
    assert_eq!(r.key, "");
    assert_eq!(r.extension, None);
}

#[test]
fn key_without_dot_has_no_extension() {
    let r = RemoteReference::resolve("s3://bucket/dir/file").unwrap();
    assert_eq!(r.key, "dir/file");
    assert_eq!(r.extension, None);
}

#[test]
fn last_dot_is_found_anywhere_in_key() {
    // The last `.` is looked for in the whole key, not only in its final
    // segment, so a dot in an earlier segment still yields a hint.
    let r = RemoteReference::resolve("s3://bucket/a.b/c").unwrap();
    assert_eq!(r.key, "a.b/c");
    assert_eq!(r.extension, Some("b/c".to_string()));
}

#[test]
fn extension_after_last_of_several_dots() {
    let r = RemoteReference::resolve("s3://bucket/archive.tar.gz").unwrap();
    assert_eq!(r.extension, Some("gz".to_string()));
}
