//! Local filesystem implementation: one file per blob, named by its key,
//! in a single configured base directory.

use vstd::prelude::*;
use crate::storage::{Error, ErrorKind, Storage, final_segment, lemma_final_segment_of_plain,
    sanitized_filename, valid_segment};

verus! {

/// A character of a UUID's textual body: a lowercase hexadecimal digit.
pub open spec fn uuid_char(c: char) -> bool {
    ('0' <= c && c <= '9') || ('a' <= c && c <= 'f')
}

/// The hyphenated textual form of a version-4 UUID: 36 characters, `'-'`
/// exactly at positions 8, 13, 18 and 23, lowercase hexadecimal digits
/// elsewhere, the version digit `'4'` at position 14, and a variant digit
/// among 8, 9, a, b at position 19.
pub open spec fn uuid_text(s: Seq<char>) -> bool {
    &&& s.len() == 36
    &&& forall|i: int|
        0 <= i < 36 ==> ((#[trigger] s[i]) == '-' <==> (i == 8 || i == 13 || i == 18 || i == 23))
    &&& forall|i: int|
        0 <= i < 36 && !(i == 8 || i == 13 || i == 18 || i == 23) ==> uuid_char(#[trigger] s[i])
    &&& s[14] == '4'
    &&& (s[19] == '8' || s[19] == '9' || s[19] == 'a' || s[19] == 'b')
}

/// The message an inaccessible base directory is reported with.
pub open spec fn invalid_dir_text(p: Seq<char>) -> Seq<char> {
    "Path "@ + p + " is not a directory or accessible"@
}

/// Relies on `uuid::Uuid::new_v4` and the `Display` form of `Uuid`: a
/// randomly generated UUID printed hyphenated in lowercase — 36 characters
/// with `'-'` at positions 8, 13, 18 and 23 and lowercase hexadecimal
/// digits elsewhere. `new_v4` masks in the version and variant, so the
/// digit at position 14 is `'4'` and the one at position 19 is among
/// 8, 9, a, b. The value is random, so only the shape is stated.
#[verifier::external_body]
fn fresh_key_text() -> (r: String)
    ensures
        uuid_text(r@),
{
    uuid::Uuid::new_v4().to_string()
}

/// Relies on `async_std::path::Path::is_dir`, run to completion with
/// `async_std::task::block_on`: whether the path names an existing,
/// accessible directory. The answer depends on the state of the
/// filesystem, so nothing is promised of it.
#[verifier::external_body]
fn probe_is_dir(path: &str) -> bool {
    async_std::task::block_on(async_std::path::Path::new(path).is_dir())
}

/// Relies on `async_std::fs::write`, run to completion with
/// `async_std::task::block_on`: creates or truncates the file at `path`
/// and writes `data` as its full contents. Success depends on the state of
/// the filesystem; a failure is returned as the underlying error's
/// message.
#[verifier::external_body]
fn fs_write(path: &str, data: &[u8]) -> Result<(), String> {
    match async_std::task::block_on(async_std::fs::write(path, data)) {
        Ok(()) => Ok(()),
        Err(e) => Err(format!("{}", e)),
    }
}

/// Relies on `async_std::fs::remove_file`, run to completion with
/// `async_std::task::block_on`: removes the file at `path`. A failure is
/// returned as a flag telling a missing file apart from any other cause,
/// plus the underlying error's message.
#[verifier::external_body]
fn fs_remove(path: &str) -> Result<(), (bool, String)> {
    match async_std::task::block_on(async_std::fs::remove_file(path)) {
        Ok(()) => Ok(()),
        Err(e) => Err((e.kind() == std::io::ErrorKind::NotFound, format!("{}", e))),
    }
}

/// `base` and `name` joined by a single separator.
fn join_path(base: &String, name: &str) -> (r: String)
    ensures
        r@ == base@ + "/"@ + name@,
{
    let mut p = base.clone();
    p.append("/");
    p.append(name);
    p
}

/// A blob store over one local directory: one file per blob, named by its
/// opaque key, no subdirectories.
#[derive(Debug, Clone, PartialEq, Eq)]
pub struct LocalFilesystem {
    pub base_dir: String,
}

impl LocalFilesystem {
    /// Builds the store over `base_dir`, which the caller has already
    /// probed: `is_directory` says whether the path names an accessible
    /// directory. Fails with `InvalidConfiguration`, naming the path, when
    /// it does not.
    pub fn from_checked_dir(base_dir: String, is_directory: bool) -> (r: Result<
        LocalFilesystem,
        Error,
    >)
        ensures
            is_directory ==> (r matches Ok(f) && f.base_dir == base_dir),
            !is_directory ==> (r matches Err(e) && e.kind is InvalidConfiguration && (
            e.inner matches Some(m) && m@ == invalid_dir_text(base_dir@))),
    {
        if is_directory {
            Ok(LocalFilesystem { base_dir })
        } else {
            let mut m = String::from_str("Path ");
            m.append(base_dir.as_str());
            m.append(" is not a directory or accessible");
            Err(Error::new(ErrorKind::InvalidConfiguration, Some(m)))
        }
    }

    /// Checks once that the specified directory exists and creates a new
    /// instance; no repeat check is performed on later calls.
    pub fn new(base_dir: String) -> (r: Result<LocalFilesystem, Error>)
        ensures
            r matches Ok(f) ==> f.base_dir == base_dir,
            r matches Err(e) ==> (e.kind is InvalidConfiguration && (e.inner matches Some(m)
                && m@ == invalid_dir_text(base_dir@))),
    {
        let is_directory = probe_is_dir(base_dir.as_str());
        LocalFilesystem::from_checked_dir(base_dir, is_directory)
    }

    /// Turns the outcome of writing a fresh blob into the store's answer:
    /// the key on success, `CannotWrite` carrying the cause otherwise.
    pub fn store_outcome(filename: String, write_result: Result<(), String>) -> (r: Result<
        String,
        Error,
    >)
        ensures
            write_result is Ok ==> (r matches Ok(k) && k == filename),
            write_result matches Err(m) ==> (r matches Err(e) && e.kind is CannotWrite && (
            e.inner matches Some(n) && n == m)),
    {
        match write_result {
            Ok(()) => Ok(filename),
            Err(m) => Err(Error::new(ErrorKind::CannotWrite, Some(m))),
        }
    }

    /// Stores data as the full contents of a new blob under a freshly
    /// generated key: the UUID's 36-character text with the extension, if
    /// any, appended verbatim. Whether the write succeeds depends on the
    /// filesystem; a returned key always has that shape.
    pub fn store(&self, data: &[u8], extension: Option<&str>) -> (r: Result<String, Error>)
        ensures
            r matches Ok(key) ==> key@.len() >= 36 && uuid_text(key@.take(36)) && key@.skip(36)
                == (match extension {
                Some(e) => e@,
                None => Seq::<char>::empty(),
            }),
            r matches Err(e) ==> e.kind is CannotWrite && e.inner is Some,
    {
        let mut filename = fresh_key_text();
        match extension {
            Some(ext) => filename.append(ext),
            None => (),
        }
        proof {
            assert(filename@.take(36) =~= filename@.subrange(0, 36));
        }
        let target_path = join_path(&self.base_dir, filename.as_str());
        let write_result = fs_write(target_path.as_str(), data);
        proof {
            assert(filename@.skip(36) =~= (match extension {
                Some(e) => e@,
                None => Seq::<char>::empty(),
            }));
        }
        LocalFilesystem::store_outcome(filename, write_result)
    }

    /// Constructs the fully qualified location of the blob a key
    /// addresses: the base directory, a separator, and the key's final
    /// path segment only — directory components a caller embedded in the
    /// key are discarded. Fails with `CannotWrite` when the final segment
    /// is no valid filename.
    pub fn path(&self, filename: &str) -> (r: Result<String, Error>)
        ensures
            match r {
                Ok(p) => valid_segment(final_segment(filename@)) && p@ == self.base_dir@ + "/"@
                    + final_segment(filename@),
                Err(e) => e.kind is CannotWrite && e.inner is None && !valid_segment(
                    final_segment(filename@),
                ),
            },
    {
        match sanitized_filename(filename) {
            Some(seg) => Ok(join_path(&self.base_dir, seg.as_str())),
            None => Err(Error::new(ErrorKind::CannotWrite, None)),
        }
    }

    /// Turns the outcome of removing a blob into the store's answer,
    /// routing a missing file to `NotFound` and any other failure to
    /// `CannotWrite`, both carrying the cause.
    pub fn remove_outcome(outcome: Result<(), (bool, String)>) -> (r: Result<(), Error>)
        ensures
            outcome is Ok ==> r is Ok,
            outcome matches Err(p) ==> (r matches Err(e) && e.kind == (if p.0 {
                ErrorKind::NotFound
            } else {
                ErrorKind::CannotWrite
            }) && (e.inner matches Some(m) && m == p.1)),
    {
        match outcome {
            Ok(()) => Ok(()),
            Err((missing, m)) => {
                if missing {
                    Err(Error::new(ErrorKind::NotFound, Some(m)))
                } else {
                    Err(Error::new(ErrorKind::CannotWrite, Some(m)))
                }
            },
        }
    }

    /// Removes the blob a key addresses, after the same final-segment
    /// guard as `path`. A key whose final segment is no valid filename
    /// fails with `CannotWrite` carrying no cause, and only such a key
    /// does; a missing blob fails with `NotFound`; whether the removal
    /// succeeds depends on the filesystem, and a filesystem failure always
    /// carries the underlying cause.
    pub fn remove(&self, filename: &str) -> (r: Result<(), Error>)
        ensures
            match r {
                Ok(u) => valid_segment(final_segment(filename@)),
                Err(e) => {
                    &&& (e.kind is CannotWrite || e.kind is NotFound)
                    &&& !valid_segment(final_segment(filename@)) ==> (e.kind is CannotWrite
                        && e.inner is None)
                    &&& valid_segment(final_segment(filename@)) ==> e.inner is Some
                    &&& e.inner is None ==> !valid_segment(final_segment(filename@))
                },
            },
    {
        let seg = match sanitized_filename(filename) {
            Some(seg) => seg,
            None => {
                return Err(Error::new(ErrorKind::CannotWrite, None));
            },
        };
        let target_path = join_path(&self.base_dir, seg.as_str());
        LocalFilesystem::remove_outcome(fs_remove(target_path.as_str()))
    }
}

impl Storage for LocalFilesystem {
    fn store(&self, data: &[u8], extension: Option<&str>) -> Result<String, Error> {
        LocalFilesystem::store(self, data, extension)
    }

    fn path(&self, filename: &str) -> Result<String, Error> {
        LocalFilesystem::path(self, filename)
    }

    fn remove(&self, filename: &str) -> Result<(), Error> {
        LocalFilesystem::remove(self, filename)
    }
}

/// A key the local store hands out resolves to itself: with an extension
/// free of separators, the key's final segment is the whole key and is a
/// valid filename, so `path` accepts it and resolves it directly under the
/// base directory.
pub proof fn lemma_store_key_resolves(key: Seq<char>, ext: Seq<char>)
    requires
        key.len() >= 36,
        uuid_text(key.take(36)),
        key.skip(36) == ext,
        forall|i: int| 0 <= i < ext.len() ==> ext[i] != '/',
    ensures
        final_segment(key) == key,
        valid_segment(key),
{
    assert forall|i: int| 0 <= i < key.len() implies key[i] != '/' by {
        if i < 36 {
            assert(key.take(36)[i] == key[i]);
            if i == 8 || i == 13 || i == 18 || i == 23 {
                assert(key.take(36)[i] == '-');
            } else {
                assert(uuid_char(key.take(36)[i]));
            }
        } else {
            assert(key.skip(36)[i - 36] == key[i]);
        }
    }
    lemma_final_segment_of_plain(key);
}

} // verus!
