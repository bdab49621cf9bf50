//! Tests for the storage abstraction and its local filesystem backend:
//! key shape, path safety, and blob round trips on a real directory.

use klotho::storage::local::LocalFilesystem;
use klotho::storage::{sanitized_filename, Error, ErrorKind, Storage};

fn blocking<F: std::future::Future>(f: F) -> F::Output {
    async_std::task::block_on(f)
}

fn test_dir(name: &str) -> String {
    let dir = format!("/tmp/klotho-blob-tests-{}", name);
    blocking(async_std::fs::create_dir_all(&dir)).expect("cannot create test directory");
    dir
}

fn is_uuid_text(key: &str) -> bool {
    let b = key.as_bytes();
    b.len() == 36
        && b.iter().enumerate().all(|(i, c)| {
            if i == 8 || i == 13 || i == 18 || i == 23 {
                *c == b'-'
            } else if i == 14 {
                *c == b'4'
            } else if i == 19 {
                matches!(*c, b'8' | b'9' | b'a' | b'b')
            } else {
                c.is_ascii_hexdigit() && !c.is_ascii_uppercase()
            }
        })
}

#[test]
fn store_returns_uuid_key_with_extension_and_writes_data() {
    let base = test_dir("store");
    let storage = LocalFilesystem::new(base.clone()).unwrap();
    let key = storage.store(b"Hello", Some(".txt")).unwrap();
    assert!(key.ends_with(".txt"));
    assert!(is_uuid_text(&key[..key.len() - 4]));
    let path = storage.path(&key).unwrap();
    assert_eq!(path, format!("{}/{}", base, key));
    let contents = blocking(async_std::fs::read(&path)).unwrap();
    assert_eq!(contents, b"Hello");
}

#[test]
fn store_without_extension_returns_bare_uuid_key() {
    let base = test_dir("store-bare");
    let storage = LocalFilesystem::new(base).unwrap();
    let key = storage.store(b"data", None).unwrap();
    assert!(is_uuid_text(&key));
}

#[test]
fn remove_drops_the_blob_and_reading_then_fails() {
    let base = test_dir("remove");
    let storage = LocalFilesystem::new(base).unwrap();
    let key = storage.store(b"Hello", Some(".txt")).unwrap();
    let path = storage.path(&key).unwrap();
    storage.remove(&key).unwrap();
    assert!(blocking(async_std::fs::read(&path)).is_err());
    // Removing the same key again finds no blob, with the cause attached.
    let e = storage.remove(&key).unwrap_err();
    assert_eq!(e.kind(), ErrorKind::NotFound);
    assert!(e.inner().is_some());
}

#[test]
fn traversal_keys_resolve_only_to_the_final_segment() {
    let base = test_dir("traversal");
    let storage = LocalFilesystem::new(base.clone()).unwrap();
    let path = storage.path("../../etc/passwd").unwrap();
    assert_eq!(path, format!("{}/passwd", base));
    assert!(!path.contains(".."));
}

#[test]
fn bare_traversal_tokens_are_rejected() {
    let base = test_dir("tokens");
    let storage = LocalFilesystem::new(base).unwrap();
    for key in ["", ".", "..", "a/", "a/.", "a/.."] {
        let e = storage.path(key).unwrap_err();
        assert_eq!(e.kind(), ErrorKind::CannotWrite);
        assert_eq!(e.inner(), None);
        let e = storage.remove(key).unwrap_err();
        assert_eq!(e.kind(), ErrorKind::CannotWrite);
        assert_eq!(e.inner(), None);
    }
}

#[test]
fn sanitized_filename_keeps_only_the_final_segment() {
    assert_eq!(sanitized_filename("plain.txt"), Some(String::from("plain.txt")));
    assert_eq!(sanitized_filename("dir/inner.txt"), Some(String::from("inner.txt")));
    assert_eq!(sanitized_filename("../../etc/passwd"), Some(String::from("passwd")));
    assert_eq!(sanitized_filename("trailing/"), None);
    assert_eq!(sanitized_filename(".."), None);
    assert_eq!(sanitized_filename("a/.."), None);
}

#[test]
fn construction_fails_on_a_missing_directory() {
    let e = LocalFilesystem::new(String::from("/tmp/klotho-no-such-dir-here/nested")).unwrap_err();
    assert_eq!(e.kind(), ErrorKind::InvalidConfiguration);
    assert_eq!(
        e.inner(),
        Some(&String::from(
            "Path /tmp/klotho-no-such-dir-here/nested is not a directory or accessible"
        ))
    );
}

#[test]
fn storage_error_message_renders_phrase_and_cause() {
    let e = Error::new(ErrorKind::InvalidConfiguration, Some(String::from("bad dir")));
    assert_eq!(e.message(), "Invalid storage configuration: bad dir");
    let e = Error::new(ErrorKind::CannotWrite, None);
    assert_eq!(e.message(), "Failed to write to storage");
    let e = Error::new(ErrorKind::OutOfSpace, None);
    assert_eq!(e.message(), "Storage is out of space");
    let e = Error::new(ErrorKind::NotFound, None);
    assert_eq!(e.message(), "File not found");
    assert_eq!(e.inner(), None);
}

#[test]
fn storage_trait_dispatches_to_the_local_backend() {
    let base = test_dir("dyn");
    let storage: Box<dyn Storage> = Box::new(LocalFilesystem::new(base.clone()).unwrap());
    let key = storage.store(b"via trait", None).unwrap();
    let path = storage.path(&key).unwrap();
    assert_eq!(path, format!("{}/{}", base, key));
    storage.remove(&key).unwrap();
}
