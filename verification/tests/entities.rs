use kroeg_cellar::cellarentitystore::{CellarEntityStore, Param, Target};
use kroeg_cellar::codec::Row;
use kroeg_cellar::entitystore::{
    collect_put_iris, collection_ids, collection_pointer, default_graph, find_collection, get,
    get_ids, insert_collection, insertable_quads, inverse_ids, put, quad_columns, read_collection,
    read_collection_inverse, remove_collection, Window,
};
use kroeg_cellar::error::AnyError;
use kroeg_cellar::queuestore::{add, get_item, mark_failure, mark_success, queue_item};
use kroeg_cellar::statements::StatementId;
use kroeg_cellar::tap::{CollectionPointer, QuadContents, QueueItem, StringQuad};
use kroeg_cellar::types::CollectionItem;

const XSD_STRING: &str = "http://www.w3.org/2001/XMLSchema#string";

fn literal(subject: &str, predicate: &str, type_id: &str, value: &str, lang: Option<&str>) -> StringQuad {
    StringQuad {
        subject_id: subject.to_string(),
        predicate_id: predicate.to_string(),
        contents: QuadContents::Object(
            type_id.to_string(),
            value.to_string(),
            lang.map(|l| l.to_string()),
        ),
    }
}

fn node(subject: &str, predicate: &str, object: &str) -> StringQuad {
    StringQuad {
        subject_id: subject.to_string(),
        predicate_id: predicate.to_string(),
        contents: QuadContents::Id(object.to_string()),
    }
}

fn item(id: i32, object_id: i32) -> CollectionItem {
    CollectionItem { id, collection_id: 1, object_id }
}

fn window(count: Option<u32>, cursor: Option<&str>) -> Window {
    match read_collection(count, cursor.map(|c| c.to_string())) {
        Ok(w) => w,
        Err(_) => panic!("the cursor was refused"),
    }
}

#[test]
fn iris_of_a_quad_are_added_once() {
    let mut set = vec!["urn:p".to_string()];
    get_ids(&node("urn:s", "urn:p", "urn:o"), &mut set);
    assert_eq!(set, vec!["urn:p", "urn:o", "urn:s"]);
    get_ids(&literal("urn:s", "urn:q", "urn:t", "urn:not-an-iri", None), &mut set);
    assert_eq!(set, vec!["urn:p", "urn:o", "urn:s", "urn:t", "urn:q"]);
}

#[test]
fn put_needs_the_iris_of_the_quads_and_the_path() {
    let quads = vec![literal("urn:a", "urn:p", XSD_STRING, "hi", None)];
    assert_eq!(collect_put_iris(&"urn:a".to_string(), &quads), vec![XSD_STRING, "urn:a", "urn:p"]);
    assert_eq!(
        collect_put_iris(&"urn:g".to_string(), &quads),
        vec![XSD_STRING, "urn:a", "urn:p", "urn:g"]
    );
    assert_eq!(collect_put_iris(&"urn:g".to_string(), &Vec::new()), vec!["urn:g"]);
}

#[test]
fn put_replaces_the_graph_with_one_row_for_each_quad() {
    let mut store = CellarEntityStore::new();
    let path = "urn:a".to_string();
    let quads = vec![literal("urn:a", "urn:p", XSD_STRING, "hi", None)];
    assert!(put(&store, &path, &quads).is_none());
    store.cache.intern(10, "urn:a".to_string());
    store.cache.intern(11, "urn:p".to_string());
    assert!(put(&store, &path, &quads).is_none());
    store.cache.intern(12, XSD_STRING.to_string());
    let (delete, insert) = match put(&store, &path, &quads) {
        Some(pair) => pair,
        None => panic!("every IRI has an id"),
    };
    assert!(matches!(delete.target, Target::Prepared(StatementId::DeleteQuads)));
    assert!(matches!(delete.params[..], [Param::Int4(10)]));
    assert!(matches!(insert.target, Target::Prepared(StatementId::InsertQuads)));
    assert_eq!(insert.params.len(), 7);
    assert!(matches!(&insert.params[0], Param::Int4Array(v) if v == &vec![10]));
    assert!(matches!(&insert.params[1], Param::Int4Array(v) if v == &vec![10]));
    assert!(matches!(&insert.params[2], Param::Int4Array(v) if v == &vec![11]));
    assert!(matches!(&insert.params[3], Param::NullableInt4Array(v) if v == &vec![None]));
    assert!(
        matches!(&insert.params[4], Param::NullableTextArray(v) if v == &vec![Some("hi".to_string())])
    );
    assert!(matches!(&insert.params[5], Param::NullableInt4Array(v) if v == &vec![Some(12)]));
    assert!(matches!(&insert.params[6], Param::NullableTextArray(v) if v == &vec![None]));
    assert!(insert.is_sendable());
}

#[test]
fn rows_hold_a_node_or_a_text() {
    let mut store = CellarEntityStore::new();
    for (id, iri) in [(1, "urn:g"), (2, "urn:s"), (3, "urn:p"), (4, "urn:o"), (5, "urn:t")] {
        store.cache.intern(id, iri.to_string());
    }
    let quads = vec![
        node("urn:s", "urn:p", "urn:o"),
        literal("urn:s", "urn:p", "urn:t", "hallo", Some("nl")),
    ];
    let rows = insertable_quads(&store, &"urn:g".to_string(), &quads);
    assert_eq!(rows.len(), 2);
    assert_eq!((rows[0].quad_id, rows[0].subject_id, rows[0].predicate_id), (1, 2, 3));
    assert_eq!(rows[0].attribute_id, Some(4));
    assert_eq!(rows[0].object, None);
    assert_eq!(rows[0].type_id, None);
    assert_eq!(rows[0].language, None);
    assert_eq!(rows[1].attribute_id, None);
    assert_eq!(rows[1].object, Some("hallo".to_string()));
    assert_eq!(rows[1].type_id, Some(5));
    assert_eq!(rows[1].language, Some("nl".to_string()));
    let data = quad_columns(&rows);
    assert!(matches!(&data[0], Param::Int4Array(v) if v == &vec![1, 1]));
    assert!(matches!(&data[3], Param::NullableInt4Array(v) if v == &vec![Some(4), None]));
    assert!(
        matches!(&data[6], Param::NullableTextArray(v) if v == &vec![None, Some("nl".to_string())])
    );
    assert_eq!(quad_columns(&Vec::new()).len(), 7);
}

#[test]
fn cursors_are_read() {
    let w = window(None, None);
    assert_eq!((w.until, w.offset, w.limit), (true, i32::MAX, 30));
    let w = window(Some(2), Some("before-17"));
    assert_eq!((w.until, w.offset, w.limit), (true, 17, 2));
    let w = window(Some(5), Some("after--3"));
    assert_eq!((w.until, w.offset, w.limit), (false, -3, 5));
    let w = window(Some(u32::MAX), Some("before-+4"));
    assert_eq!((w.until, w.offset, w.limit), (true, 4, -1));
    let w = window(Some(0x8000_0000), Some("before-007"));
    assert_eq!((w.until, w.offset, w.limit), (true, 7, i32::MIN));
    let w = window(Some(0x7fff_ffff), Some("after-2147483647"));
    assert_eq!((w.until, w.offset, w.limit), (false, i32::MAX, i32::MAX));
}

#[test]
fn anything_else_is_no_cursor() {
    for cursor in [
        "", "after", "after-", "before-", "after-x", "after- 1", "after-1 ", "After-1", "since-1",
        "before-2147483648", "after--2147483649", "after-1.5", "after--", "xafter-1",
    ] {
        match read_collection(Some(2), Some(cursor.to_string())) {
            Err(e) => {
                assert!(matches!(e, AnyError::UnknownCursor));
                assert_eq!(e.message(), "unknown collection cursor");
            }
            Ok(_) => panic!("{:?} was taken for a cursor", cursor),
        }
    }
}

fn page(store: &CellarEntityStore, items: Vec<CollectionItem>, w: Window) -> CollectionPointer {
    match collection_pointer(store, &items, w) {
        Some(p) => p,
        None => panic!("the objects are known"),
    }
}

#[test]
fn a_collection_is_read_page_by_page() {
    let mut store = CellarEntityStore::new();
    for n in 1..=5 {
        store.cache.intern(100 + n, format!("urn:x{}", n));
    }
    let first = window(Some(2), None);
    let p = page(&store, vec![item(15, 105), item(14, 104)], first);
    assert_eq!(p.items, vec!["urn:x5", "urn:x4"]);
    assert_eq!(p.before, Some("before-13".to_string()));
    assert_eq!(p.after, Some("after-16".to_string()));
    assert_eq!(p.count, None);

    let second = window(Some(2), p.before.as_deref());
    assert_eq!((second.until, second.offset), (true, 13));
    let p = page(&store, vec![item(13, 103), item(12, 102)], second);
    assert_eq!(p.items, vec!["urn:x3", "urn:x2"]);
    assert_eq!(p.before, Some("before-11".to_string()));
    assert_eq!(p.after, Some("after-14".to_string()));

    let third = window(Some(2), p.before.as_deref());
    assert_eq!((third.until, third.offset), (true, 11));
    let p = page(&store, vec![item(11, 101)], third);
    assert_eq!(p.items, vec!["urn:x1"]);
    assert_eq!(p.before, None);
    assert_eq!(p.after, Some("after-12".to_string()));
}

#[test]
fn ascending_pages_end_at_the_greatest_id() {
    let mut store = CellarEntityStore::new();
    for n in 1..=3 {
        store.cache.intern(100 + n, format!("urn:x{}", n));
    }
    let w = window(Some(2), Some("after-11"));
    assert_eq!((w.until, w.offset), (false, 11));
    let p = page(&store, vec![item(11, 101), item(12, 102)], w);
    assert_eq!(p.items, vec!["urn:x1", "urn:x2"]);
    assert_eq!(p.after, Some("after-13".to_string()));
    assert_eq!(p.before, Some("before-10".to_string()));

    let next = window(Some(2), p.after.as_deref());
    assert_eq!((next.until, next.offset), (false, 13));
    let p = page(&store, vec![item(13, 103)], next);
    assert_eq!(p.items, vec!["urn:x3"]);
    assert_eq!(p.after, None);
    assert_eq!(p.before, Some("before-12".to_string()));
}

#[test]
fn pages_without_items_point_past_their_offset() {
    let store = CellarEntityStore::new();
    let p = page(&store, Vec::new(), window(Some(2), Some("after-7")));
    assert!(p.items.is_empty());
    assert_eq!(p.after, None);
    assert_eq!(p.before, Some("before-6".to_string()));
    let p = page(&store, Vec::new(), window(Some(2), Some("before-7")));
    assert_eq!(p.before, None);
    assert_eq!(p.after, Some("after-8".to_string()));
    let p = page(&store, Vec::new(), window(None, None));
    assert_eq!((p.after, p.before), (None, None));
    let p = page(&store, Vec::new(), window(None, Some("after--2147483648")));
    assert_eq!((p.after, p.before), (None, None));
    let p = page(&store, Vec::new(), window(None, Some("before--2147483648")));
    assert_eq!(p.before, None);
    assert_eq!(p.after, Some("after--2147483647".to_string()));
}

#[test]
fn cursors_stop_at_the_ends_of_the_numbers() {
    let mut store = CellarEntityStore::new();
    store.cache.intern(1, "urn:low".to_string());
    store.cache.intern(2, "urn:high".to_string());
    let p = page(&store, vec![item(i32::MIN, 1)], window(Some(1), Some("before-0")));
    assert_eq!(p.before, None);
    let p = page(&store, vec![item(i32::MAX, 2)], window(Some(1), Some("after-0")));
    assert_eq!(p.after, None);
    let p = page(&store, vec![item(i32::MAX, 2)], window(Some(1), None));
    assert_eq!(p.after, None);
    assert_eq!(p.before, Some("before-2147483646".to_string()));
}

#[test]
fn a_page_needs_the_iris_of_its_objects() {
    let store = CellarEntityStore::new();
    assert!(collection_pointer(&store, &vec![item(1, 2)], window(None, None)).is_none());
    assert!(read_collection_inverse(&store, &vec![item(1, 2)]).is_none());
    assert_eq!(collection_ids(&vec![item(5, 6), item(7, 8)]), vec![1, 6, 1, 8]);
    assert_eq!(inverse_ids(&vec![item(5, 6), item(7, 8)]), vec![1, 1]);
}

#[test]
fn found_items_stand_between_their_cursors() {
    let p = find_collection("urn:x".to_string(), 40, true);
    assert_eq!(p.items, vec!["urn:x"]);
    assert_eq!(p.before, Some("before-39".to_string()));
    assert_eq!(p.after, Some("after-41".to_string()));
    assert_eq!(p.count, None);
    let p = find_collection("urn:x".to_string(), 40, false);
    assert!(p.items.is_empty());
    assert_eq!((p.after, p.before), (None, None));
    let p = find_collection("urn:x".to_string(), i32::MIN, true);
    assert_eq!(p.before, None);
    assert_eq!(p.after, Some("after--2147483647".to_string()));
    let p = find_collection("urn:x".to_string(), i32::MAX, true);
    assert_eq!(p.after, None);
}

#[test]
fn collections_of_an_object_are_listed_without_cursors() {
    let mut store = CellarEntityStore::new();
    store.cache.intern(1, "urn:c1".to_string());
    store.cache.intern(2, "urn:c2".to_string());
    let items = vec![
        CollectionItem { id: 9, collection_id: 2, object_id: 50 },
        CollectionItem { id: 3, collection_id: 1, object_id: 50 },
    ];
    match read_collection_inverse(&store, &items) {
        Some(p) => {
            assert_eq!(p.items, vec!["urn:c2", "urn:c1"]);
            assert_eq!((p.after, p.before, p.count), (None, None, None));
        }
        None => panic!("the collections are known"),
    }
}

#[test]
fn inserting_twice_asks_the_same_of_the_database() {
    let mut store = CellarEntityStore::new();
    let (path, object) = ("urn:c".to_string(), "urn:x".to_string());
    assert!(insert_collection(&store, &path, &object).is_none());
    assert!(remove_collection(&store, &path, &object).is_none());
    store.cache.intern(1, "urn:c".to_string());
    assert!(insert_collection(&store, &path, &object).is_none());
    store.cache.intern(2, "urn:x".to_string());
    for _ in 0..2 {
        match insert_collection(&store, &path, &object) {
            Some(r) => {
                assert!(matches!(r.target, Target::Prepared(StatementId::InsertCollection)));
                assert!(matches!(r.params[..], [Param::Int4(1), Param::Int4(2)]));
                assert!(StatementId::InsertCollection.sql().ends_with("on conflict do nothing"));
            }
            None => panic!("both IRIs are known"),
        }
        match remove_collection(&store, &path, &object) {
            Some(r) => {
                assert!(matches!(r.target, Target::Prepared(StatementId::DeleteCollection)));
                assert!(matches!(r.params[..], [Param::Int4(1), Param::Int4(2)]));
            }
            None => panic!("both IRIs are known"),
        }
    }
}

#[test]
fn get_reads_the_graph_of_the_path() {
    let mut store = CellarEntityStore::new();
    assert!(get(&store, &"urn:a".to_string()).is_none());
    store.cache.intern(10, "urn:a".to_string());
    match get(&store, &"urn:a".to_string()) {
        Some(r) => {
            assert!(matches!(r.target, Target::Prepared(StatementId::SelectQuad)));
            assert!(matches!(r.params[..], [Param::Int4(10)]));
        }
        None => panic!("the path is known"),
    }
    assert!(default_graph(Vec::new()).is_none());
    match default_graph(vec![node("urn:s", "urn:p", "urn:o")]) {
        Some((name, quads)) => {
            assert_eq!(name, "@default");
            assert_eq!(quads.len(), 1);
        }
        None => panic!("an entity with quads is a graph"),
    }
}

#[test]
fn failed_work_goes_back_to_the_queue() {
    let mut store = CellarEntityStore::new();
    let added = add(&store, "e".to_string(), "d".to_string());
    assert!(matches!(added.target, Target::Prepared(StatementId::QueueItemPut)));
    assert!(matches!(&added.params[..], [Param::Text(e), Param::Text(d)] if e == "e" && d == "d"));
    let popped = get_item(&store);
    assert!(matches!(popped.target, Target::Prepared(StatementId::QueueItemPop)));
    let rows = vec![Row { fields: vec![Some(b"e".to_vec()), Some(b"d".to_vec())] }];
    let entry = match store.pop_queue_rows(&rows) {
        Ok(entry) => entry,
        Err(_) => panic!("the row is an entry"),
    };
    let first = match queue_item(&mut store, entry) {
        Some(item) => item,
        None => panic!("the queue gave an entry"),
    };
    assert_eq!((first.event.as_str(), first.data.as_str()), ("e", "d"));
    let first_id = first.id;
    let again = mark_failure(&store, first);
    assert!(matches!(again.target, Target::Prepared(StatementId::QueueItemPut)));
    assert!(matches!(&again.params[..], [Param::Text(e), Param::Text(d)] if e == "e" && d == "d"));
    let entry = match store.pop_queue_rows(&rows) {
        Ok(entry) => entry,
        Err(_) => panic!("the row is an entry"),
    };
    match queue_item(&mut store, entry) {
        Some(item) => {
            assert_eq!(item.event, "e");
            assert_eq!(item.data, "d");
            assert_ne!(item.id, first_id);
        }
        None => panic!("the queue gave an entry"),
    }
}

#[test]
fn entries_are_numbered_as_they_leave_the_queue() {
    let mut store = CellarEntityStore::new();
    let entry = || Some(("e".to_string(), "d".to_string()));
    assert_eq!(queue_item(&mut store, entry()).map(|i| i.id), Some(0));
    assert!(queue_item(&mut store, None).is_none());
    assert_eq!(queue_item(&mut store, entry()).map(|i| i.id), Some(1));
    store.next_item = i32::MAX;
    assert_eq!(queue_item(&mut store, entry()).map(|i| i.id), Some(i32::MAX));
    assert_eq!(queue_item(&mut store, entry()).map(|i| i.id), Some(i32::MIN));
}

#[test]
fn the_queue_hands_out_its_first_row() {
    let mut store = CellarEntityStore::new();
    assert!(matches!(store.pop_queue_rows(&Vec::new()), Ok(None)));
    assert!(queue_item(&mut store, None).is_none());
    let rows = vec![
        Row { fields: vec![Some(b"first".to_vec()), Some(b"1".to_vec())] },
        Row { fields: vec![None] },
    ];
    match store.pop_queue_rows(&rows) {
        Ok(Some((event, data))) => assert_eq!((event.as_str(), data.as_str()), ("first", "1")),
        _ => panic!("expected the first row"),
    }
    let bad = vec![Row { fields: vec![Some(b"e".to_vec()), None] }];
    assert!(matches!(store.pop_queue_rows(&bad), Err(AnyError::Decode)));
    let done = QueueItem { id: 0, event: "e".to_string(), data: "d".to_string() };
    assert!(mark_success(&store, done).is_none());
}

fn selected(table: &[CollectionItem], w: Window) -> Vec<CollectionItem> {
    let mut rows: Vec<CollectionItem> = table
        .iter()
        .copied()
        .filter(|i| if w.until { i.id <= w.offset } else { i.id >= w.offset })
        .collect();
    rows.sort_by_key(|i| i.id);
    if w.until {
        rows.reverse();
    }
    rows.truncate(w.limit as usize);
    rows
}

fn listed(store: &CellarEntityStore, table: &[CollectionItem], down: bool, count: u32) -> (Vec<String>, usize) {
    let mut seen = Vec::new();
    let mut pages = 0;
    let mut cursor: Option<String> = if down { None } else { Some("after--2147483648".to_string()) };
    loop {
        let w = window(Some(count), cursor.as_deref());
        assert_eq!(w.until, down);
        let p = page(store, selected(table, w), w);
        seen.extend(p.items);
        pages += 1;
        cursor = if down { p.before } else { p.after };
        if cursor.is_none() {
            return (seen, pages);
        }
        assert!(pages <= table.len() + 1);
    }
}

#[test]
fn following_the_cursors_meets_every_item_once() {
    let mut store = CellarEntityStore::new();
    let ids = [3, 4, 9, 10, 11, 40, i32::MAX];
    let table: Vec<CollectionItem> = ids.iter().map(|&id| item(id, 1000 + (id % 100))).collect();
    for it in &table {
        store.cache.intern(it.object_id, format!("urn:o{}", it.id));
    }
    let ascending: Vec<String> = ids.iter().map(|id| format!("urn:o{}", id)).collect();
    let descending: Vec<String> = ascending.iter().rev().cloned().collect();
    for count in 1..=8u32 {
        let (seen, pages) = listed(&store, &table, true, count);
        assert_eq!(seen, descending);
        assert!((pages - 1) * count as usize <= table.len());
        let (seen, pages) = listed(&store, &table, false, count);
        assert_eq!(seen, ascending);
        assert!((pages - 1) * count as usize <= table.len());
    }
    let (seen, pages) = listed(&store, &[], true, 2);
    assert!(seen.is_empty());
    assert_eq!(pages, 1);
}
