use le_grillon::db::{LeGrillonDb, OpenWindowStore};
use le_grillon::ids::{next_window_id, IdAllocator};
use le_grillon::messages::{DbCommand, GlobalAppMsg};
use le_grillon::row::OpenWindow;

fn row(id: usize, method: &str, uri: &str, body: &str) -> OpenWindow {
    OpenWindow {
        id,
        method: method.to_string(),
        uri: uri.to_string(),
        path: String::new(),
        query: String::new(),
        headers: vec![("accept".to_string(), "*/*".to_string())],
        body: body.to_string(),
    }
}

fn same(a: &OpenWindow, b: &OpenWindow) -> bool {
    a.id == b.id
        && a.method == b.method
        && a.uri == b.uri
        && a.path == b.path
        && a.query == b.query
        && a.headers == b.headers
        && a.body == b.body
}

#[test]
fn first_ids_count_up_from_zero() {
    let mut ids = IdAllocator::new();
    assert_eq!(ids.next(), 0);
    assert_eq!(ids.next(), 1);
    assert_eq!(next_window_id(&mut ids), 2);
    assert!(ids.has_room());
}

#[test]
fn ids_are_pairwise_distinct() {
    let mut ids = IdAllocator::new();
    let mut seen: Vec<usize> = Vec::new();
    for round in 0..200usize {
        if round % 7 == 3 {
            ids.advance_past(round * 2);
        }
        let id = ids.next();
        assert!(!seen.contains(&id));
        seen.push(id);
    }
    assert_eq!(seen.len(), 200);
}

#[test]
fn next_after_advance_is_greater() {
    let mut ids = IdAllocator::new();
    ids.advance_past(7);
    assert_eq!(ids.next(), 8);
    let mut fresh = IdAllocator::new();
    fresh.advance_past(0);
    assert!(fresh.next() > 0);
}

#[test]
fn advance_below_counter_changes_nothing() {
    let mut ids = IdAllocator::new();
    ids.advance_past(41);
    ids.advance_past(3);
    assert_eq!(ids.next(), 42);
    ids.advance_past(42);
    ids.advance_past(42);
    assert_eq!(ids.next(), 43);
}

#[test]
fn allocator_without_room_says_so() {
    let mut ids = IdAllocator::new();
    ids.advance_past(usize::MAX - 1);
    assert!(!ids.has_room());
}

#[test]
fn upsert_then_fetch_holds_the_row() {
    let mut store = OpenWindowStore::new();
    store.upsert(row(3, "POST", "http://example.test", "x"));
    store.upsert(row(5, "GET", "http://h/", ""));
    let rows = store.fetch_all();
    assert_eq!(rows.len(), 2);
    assert!(rows.iter().any(|r| same(r, &row(3, "POST", "http://example.test", "x"))));
    assert!(rows.iter().any(|r| same(r, &row(5, "GET", "http://h/", ""))));
}

#[test]
fn delete_then_fetch_lacks_the_row() {
    let mut store = OpenWindowStore::new();
    store.upsert(row(3, "POST", "http://example.test", "x"));
    store.upsert(row(5, "GET", "http://h/", ""));
    store.delete(3);
    let rows = store.fetch_all();
    assert_eq!(rows.len(), 1);
    assert!(rows.iter().all(|r| r.id != 3));
    assert_eq!(rows[0].id, 5);
}

#[test]
fn upsert_twice_keeps_one_row() {
    let mut store = OpenWindowStore::new();
    store.upsert(row(9, "PUT", "http://a/", "b"));
    store.upsert(row(9, "PUT", "http://a/", "b"));
    let rows = store.fetch_all();
    assert_eq!(rows.iter().filter(|r| r.id == 9).count(), 1);
    assert!(same(&rows[0], &row(9, "PUT", "http://a/", "b")));
}

#[test]
fn upsert_replaces_the_whole_row() {
    let mut store = OpenWindowStore::new();
    store.upsert(row(9, "PUT", "http://a/", "b"));
    store.upsert(row(9, "PATCH", "http://c/", "d"));
    let rows = store.fetch_all();
    assert_eq!(rows.len(), 1);
    assert!(same(&rows[0], &row(9, "PATCH", "http://c/", "d")));
}

#[test]
fn delete_of_absent_id_is_silent() {
    let mut store = OpenWindowStore::new();
    store.delete(4);
    assert_eq!(store.fetch_all().len(), 0);
    store.upsert(row(1, "GET", "http://a/", ""));
    store.delete(4);
    assert_eq!(store.fetch_all().len(), 1);
}

#[test]
fn duplicate_is_equal_field_by_field() {
    let original = row(2, "DELETE", "http://d/", "payload");
    let copy = original.duplicate();
    assert!(same(&original, &copy));
}

#[test]
fn gateway_loads_rows_last_writer_wins() {
    let db = LeGrillonDb::new(vec![
        row(1, "GET", "http://one/", ""),
        row(2, "GET", "http://two/", ""),
        row(1, "POST", "http://uno/", "z"),
    ]);
    let rows = db.fetch_all();
    assert_eq!(rows.len(), 2);
    assert!(rows.iter().any(|r| same(r, &row(1, "POST", "http://uno/", "z"))));
    assert!(rows.iter().any(|r| same(r, &row(2, "GET", "http://two/", ""))));
}

#[test]
fn gateway_handles_each_event() {
    let mut db = LeGrillonDb::new(Vec::new());
    assert!(matches!(db.handle(&GlobalAppMsg::OpenEmptyWindow), DbCommand::Nothing));
    assert!(matches!(
        db.handle(&GlobalAppMsg::Restore(row(4, "GET", "http://r/", ""))),
        DbCommand::Nothing
    ));
    assert_eq!(db.fetch_all().len(), 0);
    match db.handle(&GlobalAppMsg::SaveWindowState(row(4, "GET", "http://r/", ""))) {
        DbCommand::Upsert(saved) => assert!(same(&saved, &row(4, "GET", "http://r/", ""))),
        other => panic!("unexpected command {:?}", other),
    }
    assert_eq!(db.fetch_all().len(), 1);
    assert!(matches!(db.handle(&GlobalAppMsg::CloseApp), DbCommand::Nothing));
    assert_eq!(db.fetch_all().len(), 1);
    assert!(matches!(db.handle(&GlobalAppMsg::CloseWindow(4)), DbCommand::Delete(4)));
    assert_eq!(db.fetch_all().len(), 0);
    assert!(matches!(db.handle(&GlobalAppMsg::CloseWindow(4)), DbCommand::Delete(4)));
}

#[test]
fn gateway_restore_advances_past_greatest_id() {
    let db = LeGrillonDb::new(vec![
        row(7, "GET", "http://h/", ""),
        row(12, "GET", "http://i/", ""),
        row(3, "GET", "http://j/", ""),
    ]);
    let mut ids = IdAllocator::new();
    let msgs = db.restore(&mut ids);
    assert_eq!(msgs.len(), 3);
    let mut restored: Vec<usize> = Vec::new();
    for msg in &msgs {
        match msg {
            GlobalAppMsg::Restore(r) => restored.push(r.id),
            other => panic!("unexpected message {:?}", other),
        }
    }
    restored.sort();
    assert_eq!(restored, vec![3, 7, 12]);
    assert_eq!(ids.next(), 13);
}

#[test]
fn gateway_restore_of_nothing_leaves_the_counter() {
    let db = LeGrillonDb::new(Vec::new());
    let mut ids = IdAllocator::new();
    assert_eq!(ids.next(), 0);
    let msgs = db.restore(&mut ids);
    assert!(msgs.is_empty());
    assert_eq!(ids.next(), 1);
}
