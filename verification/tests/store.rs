use std::collections::HashSet;

use kroeg_cellar::cache::{EntityCache, UriTable, LANG_STRING};
use kroeg_cellar::cellarentitystore::{CellarEntityStore, Param, Request, Target};
use kroeg_cellar::codec::Row;
use kroeg_cellar::dbquad::{collect_quad_ids, list_quad_ids, DatabaseQuad, DatabaseQuadContents};
use kroeg_cellar::error::AnyError;
use kroeg_cellar::statements::StatementId;
use kroeg_cellar::tap::QuadContents;
use kroeg_cellar::types::CollectionItem;

fn int4(n: i32) -> Option<Vec<u8>> {
    Some(n.to_be_bytes().to_vec())
}

fn text(s: &str) -> Option<Vec<u8>> {
    Some(s.as_bytes().to_vec())
}

fn attribute(id: i32, iri: &str) -> Row {
    Row { fields: vec![int4(id), text(iri)] }
}

fn item_row(id: i32, collection: i32, object: i32) -> Row {
    Row { fields: vec![int4(id), int4(collection), int4(object)] }
}

fn prepared(request: &Request) -> StatementId {
    match &request.target {
        Target::Prepared(id) => *id,
        Target::Sql(_) => panic!("expected a prepared statement"),
    }
}

#[test]
fn interning_goes_both_ways() {
    let mut cache = EntityCache::new();
    cache.intern(1, "urn:a".to_string());
    cache.intern(2, "urn:b".to_string());
    assert_eq!(cache.id_of(&"urn:a".to_string()), Some(1));
    assert_eq!(cache.id_of(&"urn:b".to_string()), Some(2));
    assert_eq!(cache.id_of(&"urn:c".to_string()), None);
    assert_eq!(cache.uri_of(1), Some(&"urn:a".to_string()));
    assert_eq!(cache.uri_of(2), Some(&"urn:b".to_string()));
    assert_eq!(cache.uri_of(3), None);
    for (id, iri) in [(1, "urn:a"), (2, "urn:b")] {
        let back = cache.uri_of(id).map(|u| cache.id_of(u));
        assert_eq!(back, Some(Some(id)));
        let forth = cache.id_of(&iri.to_string()).map(|i| cache.uri_of(i).cloned());
        assert_eq!(forth, Some(Some(iri.to_string())));
    }
}

#[test]
fn interning_the_same_pair_again_changes_nothing() {
    let mut cache = EntityCache::new();
    cache.intern(1, "urn:a".to_string());
    cache.intern(1, "urn:a".to_string());
    assert_eq!(cache.id_of(&"urn:a".to_string()), Some(1));
    assert_eq!(cache.uri_of(1), Some(&"urn:a".to_string()));
    assert_eq!(cache.id_to_uri.len(), 1);
}

#[test]
fn a_later_id_replaces_an_earlier_one() {
    let mut table = UriTable::new();
    assert!(!table.contains_key(&"urn:a".to_string()));
    table.insert("urn:a".to_string(), 1);
    table.insert("urn:b".to_string(), 2);
    table.insert("urn:a".to_string(), 3);
    assert_eq!(table.get(&"urn:a".to_string()), Some(3));
    assert_eq!(table.get(&"urn:b".to_string()), Some(2));
    assert!(table.contains_key(&"urn:b".to_string()));
}

#[test]
fn the_cache_knows_what_it_holds() {
    let mut cache = EntityCache::new();
    cache.intern(1, "urn:a".to_string());
    assert!(cache.knows(&vec!["urn:a".to_string()]));
    assert!(cache.knows(&Vec::new()));
    assert!(!cache.knows(&vec!["urn:a".to_string(), "urn:b".to_string()]));
    assert!(cache.knows_ids(&vec![1, 1]));
    assert!(!cache.knows_ids(&vec![1, 2]));
}

#[test]
fn attribute_rows_are_cached() {
    let mut cache = EntityCache::new();
    cache.cache_attribute_row(attribute(5, "urn:x"));
    assert_eq!(cache.id_of(&"urn:x".to_string()), Some(5));
    assert!(cache.try_cache_attribute_row(attribute(6, "urn:y")));
    assert!(!cache.try_cache_attribute_row(Row { fields: vec![int4(7)] }));
    assert!(!cache.try_cache_attribute_row(Row { fields: vec![None, text("urn:z")] }));
    assert!(!cache.try_cache_attribute_row(Row { fields: vec![int4(7), Some(vec![0xff])] }));
    assert_eq!(cache.uri_of(6), Some(&"urn:y".to_string()));
    assert_eq!(cache.uri_of(7), None);
}

#[test]
fn quads_are_translated_to_iris() {
    let mut cache = EntityCache::new();
    cache.intern(1, "urn:s".to_string());
    cache.intern(2, "urn:p".to_string());
    cache.intern(3, "urn:o".to_string());
    cache.intern(4, "urn:t".to_string());
    let node = cache.translate_quad(DatabaseQuad {
        id: 10,
        quad_id: 99,
        subject_id: 1,
        predicate_id: 2,
        contents: DatabaseQuadContents::Id(3),
    });
    assert_eq!(node.subject_id, "urn:s");
    assert_eq!(node.predicate_id, "urn:p");
    assert!(matches!(node.contents, QuadContents::Id(ref iri) if iri == "urn:o"));
    let typed = cache.translate_quad(DatabaseQuad {
        id: 11,
        quad_id: 99,
        subject_id: 1,
        predicate_id: 2,
        contents: DatabaseQuadContents::Object { contents: "hi".to_string(), type_id: 4 },
    });
    match typed.contents {
        QuadContents::Object(type_id, value, language) => {
            assert_eq!(type_id, "urn:t");
            assert_eq!(value, "hi");
            assert_eq!(language, None);
        }
        QuadContents::Id(_) => panic!("expected a text"),
    }
    let tagged = cache.translate_quad(DatabaseQuad {
        id: 12,
        quad_id: 99,
        subject_id: 1,
        predicate_id: 2,
        contents: DatabaseQuadContents::LanguageString {
            contents: "hallo".to_string(),
            language: "nl".to_string(),
        },
    });
    match tagged.contents {
        QuadContents::Object(type_id, value, language) => {
            assert_eq!(type_id, "http://www.w3.org/1999/02/22-rdf-syntax-ns#langString");
            assert_eq!(type_id, LANG_STRING);
            assert_eq!(value, "hallo");
            assert_eq!(language, Some("nl".to_string()));
        }
        QuadContents::Id(_) => panic!("expected a text"),
    }
}

fn quad_row(fields: [Option<Vec<u8>>; 4]) -> Row {
    let [attribute, object, type_id, language] = fields;
    Row { fields: vec![int4(1), int4(2), int4(3), int4(4), attribute, object, type_id, language] }
}

#[test]
fn quad_rows_are_decoded_by_priority() {
    let node = DatabaseQuad::make_from_row(&quad_row([int4(9), text("x"), int4(8), text("en")]));
    assert_eq!((node.id, node.quad_id, node.subject_id, node.predicate_id), (1, 2, 3, 4));
    assert!(matches!(node.contents, DatabaseQuadContents::Id(9)));
    let tagged = DatabaseQuad::make_from_row(&quad_row([None, text("x"), int4(8), text("en")]));
    match tagged.contents {
        DatabaseQuadContents::LanguageString { contents, language } => {
            assert_eq!(contents, "x");
            assert_eq!(language, "en");
        }
        _ => panic!("expected a text with a language"),
    }
    let typed = DatabaseQuad::make_from_row(&quad_row([None, text("x"), int4(8), None]));
    match typed.contents {
        DatabaseQuadContents::Object { contents, type_id } => {
            assert_eq!(contents, "x");
            assert_eq!(type_id, 8);
        }
        _ => panic!("expected a text with a type"),
    }
}

#[test]
fn malformed_quad_rows_are_refused() {
    assert!(DatabaseQuad::try_from_row(&quad_row([None, text("x"), None, None])).is_none());
    assert!(DatabaseQuad::try_from_row(&quad_row([None, None, int4(8), text("en")])).is_none());
    assert!(DatabaseQuad::try_from_row(&quad_row([None, None, None, None])).is_none());
    assert!(DatabaseQuad::try_from_row(&quad_row([Some(vec![1]), None, None, None])).is_none());
    assert!(DatabaseQuad::try_from_row(&Row { fields: vec![int4(1), int4(2), int4(3)] }).is_none());
    let no_subject = Row {
        fields: vec![int4(1), int4(2), None, int4(4), int4(5), None, None, None],
    };
    assert!(DatabaseQuad::try_from_row(&no_subject).is_none());
    assert!(DatabaseQuad::try_from_row(&quad_row([int4(9), None, None, None])).is_some());
}

#[test]
fn quad_ids_are_collected() {
    let quads = vec![
        DatabaseQuad {
            id: 100,
            quad_id: 1,
            subject_id: 2,
            predicate_id: 3,
            contents: DatabaseQuadContents::Id(4),
        },
        DatabaseQuad {
            id: 101,
            quad_id: 1,
            subject_id: 2,
            predicate_id: 5,
            contents: DatabaseQuadContents::Object { contents: "x".to_string(), type_id: 6 },
        },
        DatabaseQuad {
            id: 102,
            quad_id: 1,
            subject_id: 7,
            predicate_id: 3,
            contents: DatabaseQuadContents::LanguageString {
                contents: "x".to_string(),
                language: "en".to_string(),
            },
        },
    ];
    let expected: HashSet<i32> = [1, 2, 3, 4, 5, 6, 7].into_iter().collect();
    assert_eq!(collect_quad_ids(&quads), expected);
    assert_eq!(list_quad_ids(&quads), vec![1, 2, 3, 4, 5, 6, 7]);
    assert!(collect_quad_ids(&[]).is_empty());
}

#[test]
fn collection_rows_are_decoded() {
    let item = CollectionItem::make_from_row(&item_row(7, 8, -9));
    assert_eq!((item.id, item.collection_id, item.object_id), (7, 8, -9));
    assert!(CollectionItem::try_from_row(&Row { fields: vec![int4(1), int4(2)] }).is_none());
    assert!(CollectionItem::try_from_row(&Row { fields: vec![int4(1), None, int4(2)] }).is_none());
}

#[test]
fn only_unknown_iris_are_asked_for() {
    let mut store = CellarEntityStore::new();
    store.cache.intern(1, "urn:a".to_string());
    let uris = vec!["urn:a".to_string(), "urn:b".to_string(), "urn:c".to_string()];
    match store.cache_uris(&uris) {
        Some(request) => {
            assert!(matches!(prepared(&request), StatementId::UpsertAttributes));
            assert_eq!(request.params.len(), 1);
            match &request.params[0] {
                Param::TextArray(list) => assert_eq!(list, &vec!["urn:b", "urn:c"]),
                _ => panic!("expected an array of texts"),
            }
        }
        None => panic!("two IRIs are unknown"),
    }
    assert!(store.cache_uris(&["urn:a".to_string()]).is_none());
    assert!(store.cache_uris(&[]).is_none());
}

#[test]
fn only_unknown_ids_are_asked_for() {
    let mut store = CellarEntityStore::new();
    store.cache.intern(1, "urn:a".to_string());
    match store.cache_ids(&[3, 1, 2]) {
        Some(request) => {
            assert!(matches!(prepared(&request), StatementId::SelectAttributes));
            match &request.params[0] {
                Param::Int4Array(list) => assert_eq!(list, &vec![3, 2]),
                _ => panic!("expected an array of numbers"),
            }
        }
        None => panic!("two ids are unknown"),
    }
    assert!(store.cache_ids(&[1]).is_none());
}

#[test]
fn returned_rows_fill_the_cache_up_to_the_first_bad_row() {
    let mut store = CellarEntityStore::new();
    let rows = vec![attribute(1, "urn:a"), attribute(2, "urn:b")];
    assert!(store.cache_rows(rows).is_ok());
    assert_eq!(store.cache.id_of(&"urn:b".to_string()), Some(2));
    let rows = vec![attribute(3, "urn:c"), Row { fields: vec![int4(4)] }, attribute(5, "urn:e")];
    assert!(matches!(store.cache_rows(rows), Err(AnyError::Decode)));
    assert_eq!(store.cache.id_of(&"urn:c".to_string()), Some(3));
    assert_eq!(store.cache.id_of(&"urn:e".to_string()), None);
    assert_eq!(store.cache.uri_of(5), None);
}

#[test]
fn requests_name_their_statement_and_parameters() {
    let store = CellarEntityStore::new();
    let r = store.read_quad(4);
    assert!(matches!(prepared(&r), StatementId::SelectQuad));
    assert!(matches!(r.params[..], [Param::Int4(4)]));
    let r = store.delete_quad(4);
    assert!(matches!(prepared(&r), StatementId::DeleteQuads));
    assert!(matches!(r.params[..], [Param::Int4(4)]));
    let r = store.insert_collection(1, 2);
    assert!(matches!(prepared(&r), StatementId::InsertCollection));
    assert!(matches!(r.params[..], [Param::Int4(1), Param::Int4(2)]));
    let r = store.delete_collection(1, 2);
    assert!(matches!(prepared(&r), StatementId::DeleteCollection));
    assert!(matches!(r.params[..], [Param::Int4(1), Param::Int4(2)]));
    let r = store.select_collection(1, 20, 30, true);
    assert!(matches!(prepared(&r), StatementId::SelectCollectionReverse));
    assert!(matches!(r.params[..], [Param::Int4(1), Param::Int4(20), Param::Int8(30)]));
    let r = store.select_collection(1, 20, -1, false);
    assert!(matches!(prepared(&r), StatementId::SelectCollection));
    assert!(matches!(r.params[..], [Param::Int4(1), Param::Int4(20), Param::Int8(-1)]));
    let r = store.select_collection_inverse(3);
    assert!(matches!(prepared(&r), StatementId::SelectCollectionInverse));
    let r = store.collection_contains(1, 2);
    assert!(matches!(prepared(&r), StatementId::FindCollection));
    let r = store.pop_queue();
    assert!(matches!(prepared(&r), StatementId::QueueItemPop));
    assert!(r.params.is_empty());
    let r = store.insert_quad(vec![Param::Int4Array(vec![1])]);
    assert!(matches!(prepared(&r), StatementId::InsertQuads));
    let r = store.do_query("select 1".to_string(), Vec::new());
    assert!(matches!(r.target, Target::Sql(ref sql) if sql == "select 1"));
}

#[test]
fn collection_pages_are_listed_in_the_order_of_their_rows() {
    let store = CellarEntityStore::new();
    let ascending = vec![item_row(3, 1, 30), item_row(4, 1, 40), item_row(5, 1, 50)];
    let items = match store.select_collection_rows(&ascending) {
        Ok(items) => items,
        Err(_) => panic!("the rows are items"),
    };
    assert_eq!(items.iter().map(|i| i.id).collect::<Vec<_>>(), vec![3, 4, 5]);
    let descending = vec![item_row(5, 1, 50), item_row(4, 1, 40)];
    let items = match store.select_collection_rows(&descending) {
        Ok(items) => items,
        Err(_) => panic!("the rows are items"),
    };
    assert_eq!(items.iter().map(|i| i.object_id).collect::<Vec<_>>(), vec![50, 40]);
    let items = match store.select_collection_inverse_rows(&ascending) {
        Ok(items) => items,
        Err(_) => panic!("the rows are items"),
    };
    assert_eq!(items.iter().map(|i| i.id).collect::<Vec<_>>(), vec![3, 4, 5]);
    let bad = vec![item_row(5, 1, 50), Row { fields: vec![int4(1)] }];
    assert!(matches!(store.select_collection_rows(&bad), Err(AnyError::Decode)));
    assert!(store.collection_contains_rows(&descending));
    assert!(!store.collection_contains_rows(&Vec::new()));
}

#[test]
fn quads_of_rows_and_their_translation() {
    let mut store = CellarEntityStore::new();
    let rows = vec![
        quad_row([int4(9), None, None, None]),
        quad_row([None, text("hi"), int4(8), None]),
    ];
    let quads = match store.read_quad_rows(&rows) {
        Ok(quads) => quads,
        Err(_) => panic!("the rows are quads"),
    };
    assert_eq!(quads.len(), 2);
    assert_eq!(list_quad_ids(&quads), vec![2, 3, 4, 9, 8]);
    for (id, iri) in [(3, "urn:s"), (4, "urn:p"), (9, "urn:o"), (8, "urn:t")] {
        store.cache.intern(id, iri.to_string());
    }
    let translated = store.translate_quads(quads);
    assert_eq!(translated.len(), 2);
    assert!(matches!(translated[0].contents, QuadContents::Id(ref iri) if iri == "urn:o"));
    match &translated[1].contents {
        QuadContents::Object(type_id, value, language) => {
            assert_eq!(type_id, "urn:t");
            assert_eq!(value, "hi");
            assert!(language.is_none());
        }
        QuadContents::Id(_) => panic!("expected a text"),
    }
    assert_eq!(translated[1].subject_id, "urn:s");
    let bad = vec![quad_row([None, None, None, None])];
    assert!(matches!(store.read_quad_rows(&bad), Err(AnyError::Decode)));
}

#[test]
fn a_store_shows_its_cache() {
    let mut store = CellarEntityStore::new();
    store.cache.intern(4, "urn:shown".to_string());
    let shown = format!("{:?}", store);
    assert!(shown.starts_with("CellarEntityStore"));
    assert!(shown.contains("cache"));
    assert!(shown.contains("urn:shown"));
}
