//! Bookmark data types.

use vstd::prelude::*;

verus! {

/// A point in time with a fixed offset from UTC, held as plain values:
/// seconds since the Unix epoch, nanoseconds past that second, and the
/// local offset in seconds. Ordering and equality go by the instant
/// (`secs`, `nanos`); the offset only records how the time was written.
#[derive(Debug, Clone, Copy, PartialEq, Eq, Structural)]
pub struct Timestamp {
    pub secs: i64,
    pub nanos: u32,
    pub offset_secs: i32,
}

impl Timestamp {
    /// Well-formed: nanoseconds below two seconds' worth (a leap second may
    /// push the count past 999,999,999), offset strictly within one day.
    pub open spec fn wf(self) -> bool {
        self.nanos < 2_000_000_000 && -86_400 < self.offset_secs < 86_400
    }

    /// The instant `self` is at or before the instant `other`.
    pub open spec fn le_spec(self, other: Timestamp) -> bool {
        self.secs < other.secs || (self.secs == other.secs && self.nanos <= other.nanos)
    }

    /// Compares two timestamps by their instants.
    pub fn le(&self, other: &Timestamp) -> (r: bool)
        ensures
            r == self.le_spec(*other),
    {
        self.secs < other.secs || (self.secs == other.secs && self.nanos <= other.nanos)
    }

    /// Builds a timestamp from its parts.
    pub fn new(secs: i64, nanos: u32, offset_secs: i32) -> (r: Timestamp)
        ensures
            r == (Timestamp { secs, nanos, offset_secs }),
    {
        Timestamp { secs, nanos, offset_secs }
    }

    /// Relies on `chrono::Local::now`: the current wall-clock time in the
    /// local time zone. `timestamp_subsec_nanos` stays below 2,000,000,000
    /// (a leap second may exceed 999,999,999), and a `FixedOffset` holds an
    /// offset strictly between -86,400 and 86,400 seconds. Nothing else can
    /// be promised of the clock's value.
    #[verifier::external_body]
    pub(crate) fn now() -> (r: Timestamp)
        ensures
            r.wf(),
    {
        let now = chrono::Local::now().fixed_offset();
        Timestamp {
            secs: now.timestamp(),
            nanos: now.timestamp_subsec_nanos(),
            offset_secs: now.offset().local_minus_utc(),
        }
    }
}

/// A stored bookmark. Immutable once returned by the repository: `id` and
/// `created_at` are set at insertion and never change afterwards, and
/// `updated_at` never decreases across the row's lifetime.
#[derive(Debug, Clone, PartialEq, Eq)]
pub struct Bookmark {
    pub id: i64,
    pub title: String,
    pub url: Option<String>,
    pub description: Option<String>,
    pub created_at: Timestamp,
    pub updated_at: Timestamp,
}

impl Bookmark {
    /// Well-formed: a positive id, well-formed timestamps, and an
    /// `updated_at` that never precedes `created_at`.
    pub open spec fn wf(self) -> bool {
        self.id >= 1 && self.created_at.wf() && self.updated_at.wf()
            && self.created_at.le_spec(self.updated_at)
    }

    /// Unique ID.
    pub fn id(&self) -> (r: i64)
        ensures
            r == self.id,
    {
        self.id
    }

    /// Bookmark title.
    pub fn title(&self) -> (r: &str)
        ensures
            r@ == self.title@,
    {
        self.title.as_str()
    }

    /// Bookmark URL if set.
    pub fn url(&self) -> (r: Option<&String>)
        ensures
            r is Some <==> self.url is Some,
            r matches Some(u) ==> self.url matches Some(v) && u == v,
    {
        self.url.as_ref()
    }

    /// Description text in CommonMark.
    pub fn description(&self) -> (r: Option<&String>)
        ensures
            r is Some <==> self.description is Some,
            r matches Some(u) ==> self.description matches Some(v) && u == v,
    {
        self.description.as_ref()
    }

    /// The datetime when this bookmark was created.
    pub fn created_at(&self) -> (r: Timestamp)
        ensures
            r == self.created_at,
    {
        self.created_at
    }

    /// The datetime when this bookmark was last updated.
    pub fn updated_at(&self) -> (r: Timestamp)
        ensures
            r == self.updated_at,
    {
        self.updated_at
    }
}

/// A mutable staging value assembling a create or update request. The
/// presence of `id` is what makes a request an update.
#[derive(Debug, Clone, PartialEq, Eq)]
pub struct BookmarkBuilder {
    pub id: Option<i64>,
    pub title: String,
    pub url: Option<String>,
    pub description: Option<String>,
}

impl BookmarkBuilder {
    /// Creates a new builder carrying only a title.
    pub fn new(title: String) -> (r: BookmarkBuilder)
        ensures
            r == (BookmarkBuilder { id: None, title, url: None, description: None }),
    {
        BookmarkBuilder { id: None, title, url: None, description: None }
    }

    /// Sets an existing ID.
    pub fn with_id(self, id: Option<i64>) -> (r: BookmarkBuilder)
        ensures
            r == (BookmarkBuilder { id, ..self }),
    {
        BookmarkBuilder { id, ..self }
    }

    /// Sets the URL.
    pub fn with_url(self, url: String) -> (r: BookmarkBuilder)
        ensures
            r == (BookmarkBuilder { url: Some(url), ..self }),
    {
        BookmarkBuilder { url: Some(url), ..self }
    }

    /// Sets the description.
    pub fn with_description(self, description: String) -> (r: BookmarkBuilder)
        ensures
            r == (BookmarkBuilder { description: Some(description), ..self }),
    {
        BookmarkBuilder { description: Some(description), ..self }
    }
}

} // verus!
