//! Tests for the bookmark repository: the five operations and their
//! error classification.

use klotho::database::{
    fetch_bookmark, fetch_bookmarks_by_created_at, delete_bookmark, order_keyword,
    range_query_string, register_bookmark, register_bookmark_at, update_bookmark_at, BookmarkStore,
    Error, ErrorKind,
};
use klotho::schema::{BookmarkBuilder, Timestamp};

fn ts(secs: i64) -> Timestamp {
    Timestamp::new(secs, 0, 32400)
}

#[test]
fn create_assigns_first_id_and_returns_fields() {
    let mut store = BookmarkStore::new();
    let builder = BookmarkBuilder::new(String::from("Example"))
        .with_url(String::from("https://e.com"));
    let t0 = ts(1000);
    let b = register_bookmark_at(&mut store, builder, t0).unwrap();
    assert_eq!(b.id(), 1);
    assert_eq!(b.title(), "Example");
    assert_eq!(b.url(), Some(&String::from("https://e.com")));
    assert_eq!(b.description(), None);
    assert_eq!(b.created_at(), t0);
    assert_eq!(b.updated_at(), t0);
}

#[test]
fn create_then_fetch_yields_identical_entity() {
    let mut store = BookmarkStore::new();
    let builder = BookmarkBuilder::new(String::from("Example"))
        .with_url(String::from("https://e.com"))
        .with_description(String::from("notes"));
    let created = register_bookmark_at(&mut store, builder, ts(5)).unwrap();
    let fetched = fetch_bookmark(&store, created.id()).unwrap();
    assert_eq!(fetched, created);
    assert_eq!(fetched.created_at(), fetched.updated_at());
}

#[test]
fn create_ignores_id_in_builder() {
    let mut store = BookmarkStore::new();
    let builder = BookmarkBuilder::new(String::from("Example")).with_id(Some(77));
    let b = register_bookmark_at(&mut store, builder, ts(5)).unwrap();
    assert_eq!(b.id(), 1);
}

#[test]
fn create_with_real_clock_sets_equal_timestamps() {
    let mut store = BookmarkStore::new();
    let b = register_bookmark(&mut store, BookmarkBuilder::new(String::from("Now"))).unwrap();
    assert_eq!(b.created_at(), b.updated_at());
    assert_eq!(b.id(), 1);
}

#[test]
fn update_keeps_id_and_created_at_and_advances_updated_at() {
    let mut store = BookmarkStore::new();
    let t0 = ts(1000);
    let created = register_bookmark_at(
        &mut store,
        BookmarkBuilder::new(String::from("Example")).with_url(String::from("https://e.com")),
        t0,
    )
    .unwrap();
    let t1 = ts(2000);
    let updated = update_bookmark_at(
        &mut store,
        BookmarkBuilder::new(String::from("Example 2"))
            .with_id(Some(created.id()))
            .with_url(String::from("https://e.com")),
        t1,
    )
    .unwrap();
    assert_eq!(updated.id(), 1);
    assert_eq!(updated.title(), "Example 2");
    assert_eq!(updated.url(), Some(&String::from("https://e.com")));
    assert_eq!(updated.created_at(), t0);
    assert_eq!(updated.updated_at(), t1);
}

#[test]
fn update_never_moves_updated_at_backwards() {
    let mut store = BookmarkStore::new();
    let t0 = ts(1000);
    register_bookmark_at(&mut store, BookmarkBuilder::new(String::from("A")), t0).unwrap();
    // A clock reading before the row's updated_at leaves updated_at in place.
    let early = ts(10);
    let updated = update_bookmark_at(
        &mut store,
        BookmarkBuilder::new(String::from("B")).with_id(Some(1)),
        early,
    )
    .unwrap();
    assert_eq!(updated.updated_at(), t0);
    assert_eq!(updated.created_at(), t0);
}

#[test]
fn update_without_id_fails_validation() {
    let mut store = BookmarkStore::new();
    register_bookmark_at(&mut store, BookmarkBuilder::new(String::from("A")), ts(1)).unwrap();
    let e = update_bookmark_at(&mut store, BookmarkBuilder::new(String::from("B")), ts(2))
        .unwrap_err();
    assert_eq!(e.kind(), ErrorKind::ValidationError);
    assert_eq!(e.inner(), Some(&String::from("No ID given for updating bookmark")));
}

#[test]
fn update_of_missing_id_fails_not_found() {
    let mut store = BookmarkStore::new();
    register_bookmark_at(&mut store, BookmarkBuilder::new(String::from("A")), ts(1)).unwrap();
    let e = update_bookmark_at(
        &mut store,
        BookmarkBuilder::new(String::from("B")).with_id(Some(42)),
        ts(2),
    )
    .unwrap_err();
    assert_eq!(e.kind(), ErrorKind::NotFound);
    assert_eq!(e.inner(), Some(&String::from("Bookmark #42 not found")));
}

#[test]
fn fetch_on_empty_table_fails_not_found() {
    let store = BookmarkStore::new();
    let e = fetch_bookmark(&store, 999).unwrap_err();
    assert_eq!(e.kind(), ErrorKind::NotFound);
    assert_eq!(e.inner(), Some(&String::from("Bookmark #999 not found")));
    assert_eq!(e.message(), "Bookmark not found: Bookmark #999 not found");
}

#[test]
fn not_found_message_renders_negative_and_zero_ids() {
    let store = BookmarkStore::new();
    let e = fetch_bookmark(&store, -5).unwrap_err();
    assert_eq!(e.inner(), Some(&String::from("Bookmark #-5 not found")));
    let e = fetch_bookmark(&store, 0).unwrap_err();
    assert_eq!(e.inner(), Some(&String::from("Bookmark #0 not found")));
    let e = fetch_bookmark(&store, 1234567890123).unwrap_err();
    assert_eq!(e.inner(), Some(&String::from("Bookmark #1234567890123 not found")));
}

#[test]
fn delete_returns_last_state_and_fetch_then_fails() {
    let mut store = BookmarkStore::new();
    let t0 = ts(1000);
    register_bookmark_at(
        &mut store,
        BookmarkBuilder::new(String::from("Example")).with_url(String::from("https://e.com")),
        t0,
    )
    .unwrap();
    let t1 = ts(2000);
    let updated = update_bookmark_at(
        &mut store,
        BookmarkBuilder::new(String::from("Example 2"))
            .with_id(Some(1))
            .with_url(String::from("https://e.com")),
        t1,
    )
    .unwrap();
    let deleted = delete_bookmark(&mut store, 1).unwrap();
    assert_eq!(deleted, updated);
    let e = fetch_bookmark(&store, 1).unwrap_err();
    assert_eq!(e.kind(), ErrorKind::NotFound);
}

#[test]
fn delete_of_missing_id_fails_not_found() {
    let mut store = BookmarkStore::new();
    let e = delete_bookmark(&mut store, 1).unwrap_err();
    assert_eq!(e.kind(), ErrorKind::NotFound);
    assert_eq!(e.inner(), Some(&String::from("Bookmark #1 not found")));
}

#[test]
fn unbounded_range_fails_validation_for_any_contents() {
    let empty = BookmarkStore::new();
    let e = fetch_bookmarks_by_created_at(&empty, None, None, false).unwrap_err();
    assert_eq!(e.kind(), ErrorKind::ValidationError);
    assert_eq!(e.inner(), Some(&String::from("Unbound range fetch is prohibited")));

    let mut filled = BookmarkStore::new();
    register_bookmark_at(&mut filled, BookmarkBuilder::new(String::from("A")), ts(1)).unwrap();
    let e = fetch_bookmarks_by_created_at(&filled, None, None, true).unwrap_err();
    assert_eq!(e.kind(), ErrorKind::ValidationError);
}

fn three_rows() -> BookmarkStore {
    let mut store = BookmarkStore::new();
    register_bookmark_at(&mut store, BookmarkBuilder::new(String::from("A")), ts(10)).unwrap();
    register_bookmark_at(&mut store, BookmarkBuilder::new(String::from("B")), ts(20)).unwrap();
    register_bookmark_at(&mut store, BookmarkBuilder::new(String::from("C")), ts(30)).unwrap();
    store
}

#[test]
fn range_returns_exactly_rows_within_bounds_ascending() {
    let store = three_rows();
    let rows = fetch_bookmarks_by_created_at(&store, Some(ts(15)), Some(ts(35)), false).unwrap();
    let ids: Vec<i64> = rows.iter().map(|b| b.id()).collect();
    assert_eq!(ids, vec![2, 3]);
    // Bounds are inclusive on both ends.
    let rows = fetch_bookmarks_by_created_at(&store, Some(ts(10)), Some(ts(20)), false).unwrap();
    let ids: Vec<i64> = rows.iter().map(|b| b.id()).collect();
    assert_eq!(ids, vec![1, 2]);
}

#[test]
fn range_orders_by_id_descending_when_asked() {
    let store = three_rows();
    let rows = fetch_bookmarks_by_created_at(&store, Some(ts(0)), Some(ts(100)), true).unwrap();
    let ids: Vec<i64> = rows.iter().map(|b| b.id()).collect();
    assert_eq!(ids, vec![3, 2, 1]);
}

#[test]
fn range_with_one_bound_is_half_open() {
    let store = three_rows();
    let rows = fetch_bookmarks_by_created_at(&store, Some(ts(20)), None, false).unwrap();
    let ids: Vec<i64> = rows.iter().map(|b| b.id()).collect();
    assert_eq!(ids, vec![2, 3]);
    let rows = fetch_bookmarks_by_created_at(&store, None, Some(ts(20)), false).unwrap();
    let ids: Vec<i64> = rows.iter().map(|b| b.id()).collect();
    assert_eq!(ids, vec![1, 2]);
}

#[test]
fn range_query_text_matches_bounds_and_order() {
    let q = range_query_string(&Some(ts(1)), &Some(ts(2)), false).unwrap();
    assert_eq!(
        q,
        "SELECT * FROM \"bookmarks\" WHERE \"created_at\" BETWEEN $1 AND $2 ORDER BY \"id\" ASC;"
    );
    let q = range_query_string(&Some(ts(1)), &None, true).unwrap();
    assert_eq!(
        q,
        "SELECT * FROM \"bookmarks\" WHERE \"created_at\" >= $1 ORDER BY \"id\" DESC;"
    );
    let q = range_query_string(&None, &Some(ts(2)), false).unwrap();
    assert_eq!(
        q,
        "SELECT * FROM \"bookmarks\" WHERE \"created_at\" <= $2 ORDER BY \"id\" ASC;"
    );
    let e = range_query_string(&None, &None, false).unwrap_err();
    assert_eq!(e.kind(), ErrorKind::ValidationError);
    assert_eq!(order_keyword(true), "DESC");
    assert_eq!(order_keyword(false), "ASC");
}

#[test]
fn error_message_renders_phrase_and_cause() {
    let e = Error::new(ErrorKind::ValidationError, Some(String::from("no id")));
    assert_eq!(e.message(), "Validation error: no id");
    let e = Error::new(ErrorKind::NotFound, None);
    assert_eq!(e.message(), "Bookmark not found");
    let e = Error::new(ErrorKind::Other, Some(String::from("io")));
    assert_eq!(e.message(), "Other database error: io");
    assert_eq!(e.inner(), Some(&String::from("io")));
}

#[test]
fn timestamps_compare_by_instant() {
    assert!(Timestamp::new(1, 0, 0).le(&Timestamp::new(1, 0, 3600)));
    assert!(Timestamp::new(1, 5, 0).le(&Timestamp::new(2, 0, 0)));
    assert!(!Timestamp::new(2, 1, 0).le(&Timestamp::new(2, 0, 0)));
}
