//! Bookmark repository: error taxonomy and the semantics of the five
//! operations over the `bookmarks` table.
//!
//! The table itself is modelled by [`BookmarkStore`], an in-memory image of
//! the relation: rows in primary-key order, plus the next id the store will
//! assign. Every operation is specified and verified against that model;
//! the SQL text a relational backend would run for the range query is built
//! by [`range_query_string`].

use vstd::prelude::*;
use crate::schema::{Bookmark, BookmarkBuilder, Timestamp};

verus! {

/// Classifies a repository failure.
#[derive(Debug, Clone, Copy, PartialEq, Eq, Hash, Structural)]
#[non_exhaustive]
pub enum ErrorKind {
    /// Invalid caller input was detected.
    ValidationError,
    /// Bookmark not found.
    NotFound,
    /// Other error.
    Other,
}

/// The phrase a kind is rendered with.
pub open spec fn kind_phrase(kind: ErrorKind) -> Seq<char> {
    match kind {
        ErrorKind::ValidationError => "Validation error"@,
        ErrorKind::NotFound => "Bookmark not found"@,
        ErrorKind::Other => "Other database error"@,
    }
}

/// An error about database manipulation: a kind tag plus an optional
/// message carried over from the underlying cause.
#[derive(Debug, Clone, PartialEq, Eq)]
pub struct Error {
    pub kind: ErrorKind,
    pub inner: Option<String>,
}

impl Error {
    /// Constructs an error.
    pub fn new(kind: ErrorKind, inner: Option<String>) -> (r: Error)
        ensures
            r == (Error { kind, inner }),
    {
        Error { kind, inner }
    }

    /// Gets the error kind.
    pub fn kind(&self) -> (r: ErrorKind)
        ensures
            r == self.kind,
    {
        self.kind
    }

    /// Gets the inner cause's message if one exists.
    pub fn inner(&self) -> (r: Option<&String>)
        ensures
            r is Some <==> self.inner is Some,
            r matches Some(m) ==> self.inner matches Some(n) && m == n,
    {
        self.inner.as_ref()
    }

    /// Renders a human-readable message: the kind's phrase, then the inner
    /// cause's message after a separator, if one exists.
    pub fn message(&self) -> (r: String)
        ensures
            match self.inner {
                Some(m) => r@ == kind_phrase(self.kind) + ": "@ + m@,
                None => r@ == kind_phrase(self.kind),
            },
    {
        let mut s = match self.kind {
            ErrorKind::ValidationError => String::from_str("Validation error"),
            ErrorKind::NotFound => String::from_str("Bookmark not found"),
            ErrorKind::Other => String::from_str("Other database error"),
        };
        match &self.inner {
            Some(m) => {
                s.append(": ");
                s.append(m.as_str());
            },
            None => {},
        }
        s
    }
}

/// Some row of `rows` carries the id.
pub open spec fn has_id(rows: Seq<Bookmark>, id: i64) -> bool {
    exists|k: int| 0 <= k < rows.len() && (#[trigger] rows[k]).id == id
}

/// Row ids are strictly increasing, so in particular unique.
pub open spec fn sorted_by_id(rows: Seq<Bookmark>) -> bool {
    forall|i: int, j: int| #![trigger rows[i], rows[j]] 0 <= i < j < rows.len() ==> rows[i].id < rows[j].id
}

/// Row ids are strictly decreasing.
pub open spec fn sorted_by_id_desc(rows: Seq<Bookmark>) -> bool {
    forall|i: int, j: int| #![trigger rows[i], rows[j]] 0 <= i < j < rows.len() ==> rows[i].id > rows[j].id
}

/// `created_at` lies within the inclusive bounds that are present.
pub open spec fn in_created_range(b: Bookmark, since: Option<Timestamp>, until: Option<Timestamp>) -> bool {
    &&& (match since {
        Some(s) => s.le_spec(b.created_at),
        None => true,
    })
    &&& (match until {
        Some(u) => b.created_at.le_spec(u),
        None => true,
    })
}

/// Exactly the rows whose `created_at` lies within the bounds, in row order.
pub open spec fn matching_rows(
    rows: Seq<Bookmark>,
    since: Option<Timestamp>,
    until: Option<Timestamp>,
) -> Seq<Bookmark> {
    rows.filter(|b: Bookmark| in_created_range(b, since, until))
}

/// An in-memory image of the `bookmarks` relation: the rows in primary-key
/// order and the next id the store will assign.
#[derive(Debug, Clone, PartialEq, Eq)]
pub struct BookmarkStore {
    pub rows: Vec<Bookmark>,
    pub next_id: i64,
}

impl BookmarkStore {
    /// Well-formed: rows strictly ordered by id, every row well-formed,
    /// and every id already assigned below `next_id`.
    pub open spec fn wf(self) -> bool {
        &&& sorted_by_id(self.rows@)
        &&& forall|k: int| 0 <= k < self.rows@.len() ==> (#[trigger] self.rows@[k]).wf()
        &&& forall|k: int| 0 <= k < self.rows@.len() ==> (#[trigger] self.rows@[k]).id < self.next_id
        &&& self.next_id >= 1
    }

    /// An empty table; the first assigned id will be 1.
    pub fn new() -> (r: BookmarkStore)
        ensures
            r.wf(),
            r.rows@ == Seq::<Bookmark>::empty(),
            r.next_id == 1,
    {
        BookmarkStore { rows: Vec::new(), next_id: 1 }
    }
}

/// An owned copy of a row, equal to the original.
fn clone_bookmark(b: &Bookmark) -> (r: Bookmark)
    ensures
        r == *b,
{
    Bookmark {
        id: b.id,
        title: b.title.clone(),
        url: (match &b.url {
            Some(u) => Some(u.clone()),
            None => None,
        }),
        description: (match &b.description {
            Some(d) => Some(d.clone()),
            None => None,
        }),
        created_at: b.created_at,
        updated_at: b.updated_at,
    }
}

/// A decimal digit as text.
pub open spec fn digit_text(d: nat) -> Seq<char> {
    if d == 0 {
        "0"@
    } else if d == 1 {
        "1"@
    } else if d == 2 {
        "2"@
    } else if d == 3 {
        "3"@
    } else if d == 4 {
        "4"@
    } else if d == 5 {
        "5"@
    } else if d == 6 {
        "6"@
    } else if d == 7 {
        "7"@
    } else if d == 8 {
        "8"@
    } else {
        "9"@
    }
}

/// A non-negative number in decimal, most significant digit first.
pub open spec fn decimal_text(n: nat) -> Seq<char>
    decreases n,
{
    if n < 10 {
        digit_text(n)
    } else {
        decimal_text(n / 10) + digit_text(n % 10)
    }
}

/// An integer in decimal, with a leading sign when negative.
pub open spec fn int_text(n: int) -> Seq<char> {
    if n < 0 {
        "-"@ + decimal_text((-n) as nat)
    } else {
        decimal_text(n as nat)
    }
}

/// The message a missing id is reported with.
pub open spec fn not_found_text(id: i64) -> Seq<char> {
    "Bookmark #"@ + int_text(id as int) + " not found"@
}

/// One decimal digit as a string slice.
fn digit_str(d: u64) -> (r: &'static str)
    requires
        d < 10,
    ensures
        r@ == digit_text(d as nat),
{
    match d {
        0 => "0",
        1 => "1",
        2 => "2",
        3 => "3",
        4 => "4",
        5 => "5",
        6 => "6",
        7 => "7",
        8 => "8",
        _ => "9",
    }
}

/// Renders a non-negative number in decimal.
fn decimal_digits_string(n: u64) -> (r: String)
    ensures
        r@ == decimal_text(n as nat),
    decreases n,
{
    let d = digit_str(n % 10);
    if n < 10 {
        String::from_str(d)
    } else {
        proof {
            assert(n / 10 < n) by (nonlinear_arith)
                requires
                    n >= 10,
            ;
        }
        let mut s = decimal_digits_string(n / 10);
        s.append(d);
        s
    }
}

/// Renders an integer in decimal, with a leading sign when negative.
fn decimal_string(n: i64) -> (r: String)
    ensures
        r@ == int_text(n as int),
{
    if n >= 0 {
        decimal_digits_string(n as u64)
    } else {
        let magnitude: u64 = ((-(n + 1)) as u64) + 1;
        proof {
            assert(magnitude as int == -(n as int));
        }
        let mut s = String::from_str("-");
        s.append(decimal_digits_string(magnitude).as_str());
        s
    }
}

/// The message a missing id is reported with.
fn not_found_message(id: i64) -> (r: String)
    ensures
        r@ == not_found_text(id),
{
    let mut s = String::from_str("Bookmark #");
    s.append(decimal_string(id).as_str());
    s.append(" not found");
    s
}

/// The index of the row carrying `id`, if any row does.
fn find_index(rows: &Vec<Bookmark>, id: i64) -> (r: Option<usize>)
    ensures
        match r {
            Some(i) => i < rows@.len() && rows@[i as int].id == id,
            None => !has_id(rows@, id),
        },
{
    let mut i: usize = 0;
    while i < rows.len()
        invariant
            i <= rows@.len(),
            forall|k: int| 0 <= k < i ==> (#[trigger] rows@[k]).id != id,
        decreases rows@.len() - i,
    {
        if rows[i].id == id {
            return Some(i);
        }
        i = i + 1;
    }
    None
}

/// Fetches just one bookmark: the row carrying `id`, or `NotFound` if no
/// row does.
pub fn fetch_bookmark(store: &BookmarkStore, id: i64) -> (r: Result<Bookmark, Error>)
    ensures
        match r {
            Ok(b) => b.id == id && store.rows@.contains(b),
            Err(e) => e.kind is NotFound && (e.inner matches Some(m) && m@ == not_found_text(id))
                && !has_id(store.rows@, id),
        },
{
    match find_index(&store.rows, id) {
        Some(i) => {
            let b = clone_bookmark(&store.rows[i]);
            proof {
                assert(store.rows@.contains(store.rows@[i as int]));
            }
            Ok(b)
        },
        None => Err(Error::new(ErrorKind::NotFound, Some(not_found_message(id)))),
    }
}

/// Fetches bookmarks whose `created_at` lies in the inclusive range the
/// bounds describe, ordered by id per the `descending` flag. An unbounded
/// scan (neither bound) is prohibited and fails with `ValidationError`.
pub fn fetch_bookmarks_by_created_at(
    store: &BookmarkStore,
    since: Option<Timestamp>,
    until: Option<Timestamp>,
    descending: bool,
) -> (r: Result<Vec<Bookmark>, Error>)
    ensures
        since is None && until is None ==> (r matches Err(e) && e.kind is ValidationError && (
        e.inner matches Some(m) && m@ == "Unbound range fetch is prohibited"@)),
        !(since is None && until is None) && !descending ==> (r matches Ok(v) && v@
            == matching_rows(store.rows@, since, until)),
        !(since is None && until is None) && descending ==> (r matches Ok(v) && v@
            == matching_rows(store.rows@, since, until).reverse()),
{
    if since.is_none() && until.is_none() {
        return Err(
            Error::new(
                ErrorKind::ValidationError,
                Some(String::from_str("Unbound range fetch is prohibited")),
            ),
        );
    }
    let mut out: Vec<Bookmark> = Vec::new();
    let mut i: usize = 0;
    while i < store.rows.len()
        invariant
            i <= store.rows@.len(),
            out@ == matching_rows(store.rows@.take(i as int), since, until),
        decreases store.rows@.len() - i,
    {
        let b = &store.rows[i];
        let sat = (match since {
            Some(s) => s.le(&b.created_at),
            None => true,
        }) && (match until {
            Some(u) => b.created_at.le(&u),
            None => true,
        });
        proof {
            broadcast use Seq::lemma_filter_push;

            assert(store.rows@.take(i as int + 1) =~= store.rows@.take(i as int).push(
                store.rows@[i as int],
            ));
        }
        if sat {
            out.push(clone_bookmark(b));
        }
        i = i + 1;
    }
    proof {
        assert(store.rows@.take(store.rows@.len() as int) =~= store.rows@);
    }
    if descending {
        let ghost forward = out@;
        let mut rev: Vec<Bookmark> = Vec::new();
        while out.len() > 0
            invariant
                out@ == forward.take(out@.len() as int),
                rev@.len() + out@.len() == forward.len(),
                forall|m: int| 0 <= m < rev@.len() ==> rev@[m] == forward[forward.len() - 1 - m],
            decreases out@.len(),
        {
            let ghost k0 = out@.len() as int;
            let b = out.pop().unwrap();
            rev.push(b);
            proof {
                assert(forward.take(k0)[k0 - 1] == forward[k0 - 1]);
                assert(out@ =~= forward.take(k0 - 1));
            }
        }
        proof {
            assert(rev@ =~= forward.reverse());
        }
        Ok(rev)
    } else {
        Ok(out)
    }
}

/// Registers a new bookmark as of the clock reading `now`: any id in the
/// builder is ignored, the store assigns the next id, and the new row has
/// `created_at` equal to `updated_at` equal to `now`.
pub fn register_bookmark_at(
    store: &mut BookmarkStore,
    builder: BookmarkBuilder,
    now: Timestamp,
) -> (r: Result<Bookmark, Error>)
    requires
        old(store).wf(),
        old(store).next_id < i64::MAX,
        now.wf(),
    ensures
        final(store).wf(),
        final(store).next_id == old(store).next_id + 1,
        r matches Ok(b) && b == (Bookmark {
            id: old(store).next_id,
            title: builder.title,
            url: builder.url,
            description: builder.description,
            created_at: now,
            updated_at: now,
        }) && final(store).rows@ == old(store).rows@.push(b),
{
    let b = Bookmark {
        id: store.next_id,
        title: builder.title,
        url: builder.url,
        description: builder.description,
        created_at: now,
        updated_at: now,
    };
    let returned = clone_bookmark(&b);
    store.rows.push(b);
    store.next_id = store.next_id + 1;
    proof {
        let rows2 = store.rows@;
        let n = rows2.len() as int;
        assert forall|a: int, c: int| 0 <= a < c < n implies rows2[a].id < rows2[c].id by {
            if c < n - 1 {
                assert(old(store).rows@[a].id < old(store).rows@[c].id);
            } else {
                assert(rows2[a] == old(store).rows@[a]);
            }
        }
    }
    Ok(returned)
}

/// Registers a new bookmark as of the current local time.
pub fn register_bookmark(store: &mut BookmarkStore, builder: BookmarkBuilder) -> (r: Result<
    Bookmark,
    Error,
>)
    requires
        old(store).wf(),
        old(store).next_id < i64::MAX,
    ensures
        final(store).wf(),
        final(store).next_id == old(store).next_id + 1,
        r matches Ok(b) && b.id == old(store).next_id && b.title == builder.title && b.url
            == builder.url && b.description == builder.description && b.created_at == b.updated_at
            && b.created_at.wf() && final(store).rows@ == old(store).rows@.push(b),
{
    let now = Timestamp::now();
    register_bookmark_at(store, builder, now)
}

/// Updates the row named by the builder's id as of the clock reading `now`:
/// title, url and description are overwritten, `id` and `created_at` are
/// left untouched, and `updated_at` advances to `now` but never backwards.
/// A builder without an id fails `ValidationError`; an id no row carries
/// fails `NotFound`.
pub fn update_bookmark_at(
    store: &mut BookmarkStore,
    builder: BookmarkBuilder,
    now: Timestamp,
) -> (r: Result<Bookmark, Error>)
    requires
        old(store).wf(),
        now.wf(),
    ensures
        final(store).wf(),
        final(store).next_id == old(store).next_id,
        match builder.id {
            None => r matches Err(e) && e.kind is ValidationError && (e.inner matches Some(m)
                && m@ == "No ID given for updating bookmark"@) && *final(store) == *old(store),
            Some(id) => if has_id(old(store).rows@, id) {
                r matches Ok(b) && b.id == id && b.title == builder.title && b.url == builder.url
                    && b.description == builder.description && exists|i: int|
                    #![auto]
                    0 <= i < old(store).rows@.len() && old(store).rows@[i].id == id
                        && b.created_at == old(store).rows@[i].created_at && old(
                        store,
                    ).rows@[i].updated_at.le_spec(b.updated_at) && b.updated_at == (if old(
                        store,
                    ).rows@[i].updated_at.le_spec(now) {
                        now
                    } else {
                        old(store).rows@[i].updated_at
                    }) && final(store).rows@ == old(store).rows@.update(i, b)
            } else {
                r matches Err(e) && e.kind is NotFound && (e.inner matches Some(m) && m@
                    == not_found_text(id)) && *final(store) == *old(store)
            },
        },
{
    let id = match builder.id {
        Some(id) => id,
        None => {
            return Err(
                Error::new(
                    ErrorKind::ValidationError,
                    Some(String::from_str("No ID given for updating bookmark")),
                ),
            );
        },
    };
    match find_index(&store.rows, id) {
        None => Err(Error::new(ErrorKind::NotFound, Some(not_found_message(id)))),
        Some(i) => {
            let row = &store.rows[i];
            let updated_at = if row.updated_at.le(&now) {
                now
            } else {
                row.updated_at
            };
            let b = Bookmark {
                id,
                title: builder.title,
                url: builder.url,
                description: builder.description,
                created_at: row.created_at,
                updated_at,
            };
            let returned = clone_bookmark(&b);
            let ghost prev = store.rows@;
            store.rows[i] = b;
            proof {
                let rows2 = store.rows@;
                let n = rows2.len() as int;
                assert forall|a: int, c: int| 0 <= a < c < n implies rows2[a].id < rows2[c].id by {
                    assert(prev[a].id < prev[c].id);
                    assert(rows2[a].id == prev[a].id && rows2[c].id == prev[c].id);
                }
            }
            Ok(returned)
        },
    }
}

/// Updates the row named by the builder's id as of the current local time.
pub fn update_bookmark(store: &mut BookmarkStore, builder: BookmarkBuilder) -> (r: Result<
    Bookmark,
    Error,
>)
    requires
        old(store).wf(),
    ensures
        final(store).wf(),
        final(store).next_id == old(store).next_id,
        match builder.id {
            None => r matches Err(e) && e.kind is ValidationError && (e.inner matches Some(m)
                && m@ == "No ID given for updating bookmark"@) && *final(store) == *old(store),
            Some(id) => if has_id(old(store).rows@, id) {
                r matches Ok(b) && b.id == id && b.title == builder.title && b.url == builder.url
                    && b.description == builder.description && exists|i: int|
                    #![auto]
                    0 <= i < old(store).rows@.len() && old(store).rows@[i].id == id
                        && b.created_at == old(store).rows@[i].created_at && old(
                        store,
                    ).rows@[i].updated_at.le_spec(b.updated_at) && final(store).rows@ == old(
                        store,
                    ).rows@.update(i, b)
            } else {
                r matches Err(e) && e.kind is NotFound && (e.inner matches Some(m) && m@
                    == not_found_text(id)) && *final(store) == *old(store)
            },
        },
{
    let now = Timestamp::now();
    update_bookmark_at(store, builder, now)
}

/// Deletes the row carrying `id` and returns it as it existed immediately
/// before deletion; fails `NotFound` if no row carries `id`. Afterwards no
/// row carries `id`, so a subsequent fetch fails `NotFound`.
pub fn delete_bookmark(store: &mut BookmarkStore, id: i64) -> (r: Result<Bookmark, Error>)
    requires
        old(store).wf(),
    ensures
        final(store).wf(),
        final(store).next_id == old(store).next_id,
        if has_id(old(store).rows@, id) {
            r matches Ok(b) && b.id == id && !has_id(final(store).rows@, id) && exists|i: int|
                #![auto]
                0 <= i < old(store).rows@.len() && old(store).rows@[i] == b && final(store).rows@
                    == old(store).rows@.remove(i)
        } else {
            r matches Err(e) && e.kind is NotFound && (e.inner matches Some(m) && m@
                == not_found_text(id)) && *final(store) == *old(store)
        },
{
    match find_index(&store.rows, id) {
        None => Err(Error::new(ErrorKind::NotFound, Some(not_found_message(id)))),
        Some(i) => {
            let ghost prev = store.rows@;
            let b = store.rows.remove(i);
            proof {
                let rows2 = store.rows@;
                let n = rows2.len() as int;
                assert forall|a: int, c: int| 0 <= a < c < n implies rows2[a].id < rows2[c].id by {
                    let pa: int = if a < i { a } else { a + 1 };
                    let pc: int = if c < i { c } else { c + 1 };
                    assert(rows2[a] == prev[pa] && rows2[c] == prev[pc]);
                    assert(prev[pa].id < prev[pc].id);
                }
                assert forall|k: int| 0 <= k < rows2.len() implies (#[trigger] rows2[k]).id
                    != id by {
                    let pk: int = if k < i { k } else { k + 1 };
                    assert(rows2[k] == prev[pk]);
                    if pk < i {
                        assert(prev[pk].id < prev[i as int].id);
                    } else {
                        assert(prev[i as int].id < prev[pk].id);
                    }
                }
            }
            Ok(b)
        },
    }
}


/// The `ORDER BY` keyword a range query uses for the flag.
pub fn order_keyword(descending: bool) -> (r: &'static str)
    ensures
        r@ == order_text(descending),
{
    if descending {
        "DESC"
    } else {
        "ASC"
    }
}

/// The `ORDER BY` keyword as text.
pub open spec fn order_text(descending: bool) -> Seq<char> {
    if descending {
        "DESC"@
    } else {
        "ASC"@
    }
}

/// The `WHERE` clause the present bounds select, as text. Meaningful only
/// when at least one bound is present.
pub open spec fn where_clause_text(has_since: bool, has_until: bool) -> Seq<char> {
    if has_since && has_until {
        "WHERE \"created_at\" BETWEEN $1 AND $2"@
    } else if has_since {
        "WHERE \"created_at\" >= $1"@
    } else {
        "WHERE \"created_at\" <= $2"@
    }
}

/// The full statement text of a range query.
pub open spec fn range_query_text(has_since: bool, has_until: bool, descending: bool) -> Seq<
    char,
> {
    "SELECT * FROM \"bookmarks\" "@ + where_clause_text(has_since, has_until)
        + " ORDER BY \"id\" "@ + order_text(descending) + ";"@
}

/// Builds the SQL text a relational backend would run for a range query
/// over `created_at`, with inclusive bounds bound as `$1` and `$2` and rows
/// ordered by id. An unbounded range is prohibited and fails with
/// `ValidationError`.
pub fn range_query_string(
    since: &Option<Timestamp>,
    until: &Option<Timestamp>,
    descending: bool,
) -> (r: Result<String, Error>)
    ensures
        since is None && until is None ==> (r matches Err(e) && e.kind is ValidationError && (
        e.inner matches Some(m) && m@ == "Unbound range fetch is prohibited"@)),
        !(since is None && until is None) ==> (r matches Ok(q) && q@ == range_query_text(
            since is Some,
            until is Some,
            descending,
        )),
{
    let where_clause = if since.is_some() && until.is_some() {
        "WHERE \"created_at\" BETWEEN $1 AND $2"
    } else if since.is_some() {
        "WHERE \"created_at\" >= $1"
    } else if until.is_some() {
        "WHERE \"created_at\" <= $2"
    } else {
        return Err(
            Error::new(
                ErrorKind::ValidationError,
                Some(String::from_str("Unbound range fetch is prohibited")),
            ),
        );
    };
    let mut q = String::from_str("SELECT * FROM \"bookmarks\" ");
    q.append(where_clause);
    q.append(" ORDER BY \"id\" ");
    q.append(order_keyword(descending));
    q.append(";");
    Ok(q)
}

/// After a create pushes a fresh row whose id exceeds every existing id,
/// the assigned id names exactly the created row: the new table carries the
/// id, and any row carrying it equals the created one — so a fetch by the
/// returned id yields the created entity, with its title, url, description
/// and timestamps exactly as the create returned them.
pub proof fn lemma_register_then_fetch(rows: Seq<Bookmark>, b: Bookmark)
    requires
        sorted_by_id(rows),
        forall|k: int| 0 <= k < rows.len() ==> (#[trigger] rows[k]).id < b.id,
    ensures
        has_id(rows.push(b), b.id),
        forall|x: Bookmark| #[trigger] rows.push(b).contains(x) && x.id == b.id ==> x == b,
{
    let rows2 = rows.push(b);
    assert(rows2[rows.len() as int] == b);
    assert forall|x: Bookmark| rows2.contains(x) && x.id == b.id implies x == b by {
        let k = choose|k: int| 0 <= k < rows2.len() && rows2[k] == x;
        if k < rows.len() {
            assert(rows[k].id < b.id);
        }
    }
}

/// Filtering a table sorted by id keeps it sorted, and returns only rows
/// of the table.
proof fn lemma_matching_rows_sorted(
    rows: Seq<Bookmark>,
    since: Option<Timestamp>,
    until: Option<Timestamp>,
)
    requires
        sorted_by_id(rows),
    ensures
        sorted_by_id(matching_rows(rows, since, until)),
        forall|m: int| 0 <= m < matching_rows(rows, since, until).len() ==> rows.contains(
            #[trigger] matching_rows(rows, since, until)[m],
        ),
    decreases rows.len(),
{
    broadcast use Seq::lemma_filter_push;

    let pred = |b: Bookmark| in_created_range(b, since, until);
    if rows.len() == 0 {
        assert(matching_rows(rows, since, until) =~= Seq::<Bookmark>::empty()) by {
            reveal(Seq::filter);
        }
    } else {
        let s = rows.drop_last();
        let x = rows.last();
        assert(sorted_by_id(s));
        lemma_matching_rows_sorted(s, since, until);
        assert(s.push(x) =~= rows);
        let ms = matching_rows(s, since, until);
        let mr = matching_rows(rows, since, until);
        assert forall|m: int| 0 <= m < ms.len() implies rows.contains(ms[m]) by {
            assert(s.contains(ms[m]));
            let k = choose|k: int| 0 <= k < s.len() && s[k] == ms[m];
            assert(rows[k] == ms[m]);
        }
        assert forall|m: int| 0 <= m < ms.len() implies ms[m].id < x.id by {
            let k = choose|k: int| 0 <= k < s.len() && s[k] == ms[m];
            assert(rows[k].id < rows[rows.len() - 1].id);
        }
        if pred(x) {
            assert(mr == ms.push(x));
            assert(rows.contains(x)) by {
                assert(rows[rows.len() - 1] == x);
            }
            assert forall|i: int, j: int| #![trigger mr[i], mr[j]] 0 <= i < j < mr.len() implies
                mr[i].id < mr[j].id by {
                if j < mr.len() - 1 {
                    assert(ms[i].id < ms[j].id);
                } else {
                    assert(mr[i] == ms[i]);
                }
            }
        } else {
            assert(mr == ms);
        }
    }
}

/// A range query returns rows in primary-key order: on a table sorted by
/// id, the matching rows stay sorted ascending, and the reversed result —
/// what the query returns with the descending flag — is sorted descending.
pub proof fn lemma_range_results_ordered(
    rows: Seq<Bookmark>,
    since: Option<Timestamp>,
    until: Option<Timestamp>,
)
    requires
        sorted_by_id(rows),
    ensures
        sorted_by_id(matching_rows(rows, since, until)),
        sorted_by_id_desc(matching_rows(rows, since, until).reverse()),
{
    lemma_matching_rows_sorted(rows, since, until);
    let m = matching_rows(rows, since, until);
    let rv = m.reverse();
    assert forall|i: int, j: int| #![trigger rv[i], rv[j]] 0 <= i < j < rv.len() implies rv[i].id
        > rv[j].id by {
        assert(rv[i] == m[m.len() - 1 - i]);
        assert(rv[j] == m[m.len() - 1 - j]);
        assert(m[m.len() - 1 - j].id < m[m.len() - 1 - i].id);
    }
}

} // verus!

