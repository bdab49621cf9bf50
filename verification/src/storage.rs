//! File storage abstraction layer: opaque-key blob persistence.
//!
//! A storage backend hands out capability keys for stored blobs. Before a
//! key is resolved against the backend's namespace it is stripped down to
//! its final path segment, so a key embedding directory components can
//! never escape the configured base.

use vstd::prelude::*;

pub mod local;

verus! {

/// Classifies a storage failure.
#[derive(Debug, Clone, Copy, PartialEq, Eq, Hash, Structural)]
#[non_exhaustive]
pub enum ErrorKind {
    /// Invalid configuration state was detected.
    InvalidConfiguration,
    /// Storage backend is out of storage.
    OutOfSpace,
    /// Failed to write data to storage.
    CannotWrite,
    /// File not found.
    NotFound,
    /// Other error.
    Other,
}

/// The phrase a kind is rendered with.
pub open spec fn kind_phrase(kind: ErrorKind) -> Seq<char> {
    match kind {
        ErrorKind::InvalidConfiguration => "Invalid storage configuration"@,
        ErrorKind::OutOfSpace => "Storage is out of space"@,
        ErrorKind::CannotWrite => "Failed to write to storage"@,
        ErrorKind::NotFound => "File not found"@,
        ErrorKind::Other => "Other storage error"@,
    }
}

/// An error about storage manipulation: a kind tag plus an optional
/// message carried over from the underlying cause.
#[derive(Debug, Clone, PartialEq, Eq)]
pub struct Error {
    pub kind: ErrorKind,
    pub inner: Option<String>,
}

impl Error {
    /// Constructs an error.
    pub fn new(kind: ErrorKind, inner: Option<String>) -> (r: Error)
        ensures
            r == (Error { kind, inner }),
    {
        Error { kind, inner }
    }

    /// Gets the error kind.
    pub fn kind(&self) -> (r: ErrorKind)
        ensures
            r == self.kind,
    {
        self.kind
    }

    /// Gets the inner cause's message if one exists.
    pub fn inner(&self) -> (r: Option<&String>)
        ensures
            r is Some <==> self.inner is Some,
            r matches Some(m) ==> self.inner matches Some(n) && m == n,
    {
        self.inner.as_ref()
    }

    /// Renders a human-readable message: the kind's phrase, then the inner
    /// cause's message after a separator, if one exists.
    pub fn message(&self) -> (r: String)
        ensures
            match self.inner {
                Some(m) => r@ == kind_phrase(self.kind) + ": "@ + m@,
                None => r@ == kind_phrase(self.kind),
            },
    {
        let mut s = match self.kind {
            ErrorKind::InvalidConfiguration => String::from_str("Invalid storage configuration"),
            ErrorKind::OutOfSpace => String::from_str("Storage is out of space"),
            ErrorKind::CannotWrite => String::from_str("Failed to write to storage"),
            ErrorKind::NotFound => String::from_str("File not found"),
            ErrorKind::Other => String::from_str("Other storage error"),
        };
        match &self.inner {
            Some(m) => {
                s.append(": ");
                s.append(m.as_str());
            },
            None => {},
        }
        s
    }
}

/// The final path segment of `s`: the longest suffix free of `'/'`.
pub open spec fn final_segment(s: Seq<char>) -> Seq<char>
    decreases s.len(),
{
    if s.len() == 0 {
        Seq::empty()
    } else if s.last() == '/' {
        Seq::empty()
    } else {
        final_segment(s.drop_last()).push(s.last())
    }
}

/// A valid filename: non-empty and not a bare directory reference.
pub open spec fn valid_segment(seg: Seq<char>) -> bool {
    &&& seg.len() > 0
    &&& !(seg.len() == 1 && seg[0] == '.')
    &&& !(seg.len() == 2 && seg[0] == '.' && seg[1] == '.')
}

/// The final segment of a key never contains a separator and never
/// outgrows the key: whatever directory components a caller embeds in a
/// key, resolving only the final segment cannot escape the base directory.
pub proof fn lemma_final_segment_no_slash(s: Seq<char>)
    ensures
        final_segment(s).len() <= s.len(),
        forall|i: int| 0 <= i < final_segment(s).len() ==> final_segment(s)[i] != '/',
    decreases s.len(),
{
    if s.len() > 0 && s.last() != '/' {
        lemma_final_segment_no_slash(s.drop_last());
    }
}

/// A key without separators is its own final segment.
pub proof fn lemma_final_segment_of_plain(s: Seq<char>)
    requires
        forall|i: int| 0 <= i < s.len() ==> s[i] != '/',
    ensures
        final_segment(s) == s,
    decreases s.len(),
{
    if s.len() > 0 {
        assert(s.last() != '/');
        lemma_final_segment_of_plain(s.drop_last());
        assert(s.drop_last().push(s.last()) =~= s);
    } else {
        assert(final_segment(s) =~= s);
    }
}

/// The final segment is the suffix that follows the last separator.
proof fn lemma_final_segment_after_slash(s: Seq<char>, start: int)
    requires
        0 <= start <= s.len(),
        start == 0 || s[start - 1] == '/',
        forall|k: int| start <= k < s.len() ==> s[k] != '/',
    ensures
        final_segment(s) == s.subrange(start, s.len() as int),
    decreases s.len(),
{
    if s.len() == start {
        if start == 0 {
            assert(final_segment(s) =~= s.subrange(0, 0));
        } else {
            assert(s.last() == '/');
            assert(final_segment(s) =~= s.subrange(start, s.len() as int));
        }
    } else {
        assert(s.last() != '/');
        lemma_final_segment_after_slash(s.drop_last(), start);
        assert(s.drop_last().subrange(start, s.len() - 1).push(s.last()) =~= s.subrange(
            start,
            s.len() as int,
        ));
    }
}

/// Strips a key down to its final path segment and checks that the result
/// is a valid filename: non-empty and not a bare directory reference.
/// Returns the segment, or `None` for a key whose final segment is no
/// valid filename.
pub fn sanitized_filename(key: &str) -> (r: Option<String>)
    ensures
        match r {
            Some(seg) => seg@ == final_segment(key@) && valid_segment(final_segment(key@)),
            None => !valid_segment(final_segment(key@)),
        },
{
    let len = key.unicode_len();
    let mut start: usize = 0;
    let mut i: usize = 0;
    while i < len
        invariant
            len == key@.len(),
            i <= len,
            start <= i,
            start == 0 || key@[start - 1] == '/',
            forall|k: int| start <= k < i ==> key@[k] != '/',
        decreases len - i,
    {
        if key.get_char(i) == '/' {
            start = i + 1;
        }
        i = i + 1;
    }
    proof {
        lemma_final_segment_after_slash(key@, start as int);
    }
    let seg = key.substring_char(start, len);
    let seg_len = len - start;
    if seg_len == 0 {
        return None;
    }
    if seg_len == 1 && seg.get_char(0) == '.' {
        return None;
    }
    if seg_len == 2 && seg.get_char(0) == '.' && seg.get_char(1) == '.' {
        return None;
    }
    Some(String::from_str(seg))
}

/// Storage manipulation abstraction: opaque-key-addressed blob persistence.
/// A backend hands out a key on `store`, resolves a key to a fully
/// qualified location with `path`, and drops a blob with `remove`.
pub trait Storage {
    /// Stores data as a new blob.
    /// If it succeeded, the object key (filename) is returned.
    fn store(&self, data: &[u8], extension: Option<&str>) -> Result<String, Error>;

    /// Constructs a fully qualified filepath for a key.
    fn path(&self, filename: &str) -> Result<String, Error>;

    /// Drops the blob a key addresses.
    fn remove(&self, filename: &str) -> Result<(), Error>;
}

} // verus!
