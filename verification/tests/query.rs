use kroeg_cellar::cache::EntityCache;
use kroeg_cellar::cellarentitystore::{CellarEntityStore, Target};
use kroeg_cellar::codec::Row;
use kroeg_cellar::entitystore::{
    answer_ids, begin_query, query, query_answers, query_ids, Begun,
};
use kroeg_cellar::error::AnyError;
use kroeg_cellar::query::QueryPlan;
use kroeg_cellar::tap::{QuadQuery, QueryId, QueryObject};
use kroeg_cellar::text::{string_lt, strip_prefix};

fn value(iri: &str) -> QueryId {
    QueryId::Value(iri.to_string())
}

fn placeholder(key: &str) -> QueryId {
    QueryId::Placeholder(key.to_string())
}

fn any(iris: &[&str]) -> QueryId {
    QueryId::Any(iris.iter().map(|iri| iri.to_string()).collect())
}

fn cache_of(pairs: &[(i32, &str)]) -> EntityCache {
    let mut cache = EntityCache::new();
    for (id, iri) in pairs {
        cache.intern(*id, iri.to_string());
    }
    cache
}

fn sql_of(patterns: Vec<QuadQuery>, cache: &EntityCache) -> String {
    match QueryPlan::compile(&patterns) {
        Some(plan) => plan.sql(cache),
        None => panic!("the query has no plan"),
    }
}

#[test]
fn empty_any_has_no_plan() {
    let patterns =
        vec![QuadQuery(placeholder("x"), value("urn:p"), QueryObject::Id(any(&[])))];
    assert!(QueryPlan::compile(&patterns).is_none());
}

#[test]
fn a_query_with_an_empty_any_is_answered_at_once() {
    let patterns =
        vec![QuadQuery(placeholder("x"), value("urn:p"), QueryObject::Id(any(&[])))];
    match begin_query(&patterns) {
        Begun::Answered(answers) => assert!(answers.is_empty()),
        Begun::Planned(_) => panic!("nothing is to be asked"),
    }
    let asked =
        vec![QuadQuery(placeholder("x"), value("urn:p"), QueryObject::Id(any(&["urn:o"])))];
    match begin_query(&asked) {
        Begun::Answered(_) => panic!("the database is to be asked"),
        Begun::Planned(plan) => assert_eq!(plan.select_count(), 1),
    }
}

#[test]
fn empty_any_in_any_position_has_no_plan() {
    let in_subject = vec![QuadQuery(any(&[]), QueryId::Ignore, QueryObject::Id(QueryId::Ignore))];
    assert!(QueryPlan::compile(&in_subject).is_none());
    let in_predicate =
        vec![QuadQuery(QueryId::Ignore, any(&[]), QueryObject::Id(QueryId::Ignore))];
    assert!(QueryPlan::compile(&in_predicate).is_none());
    let in_type = vec![
        QuadQuery(placeholder("a"), value("urn:p"), QueryObject::Id(QueryId::Ignore)),
        QuadQuery(
            QueryId::Ignore,
            QueryId::Ignore,
            QueryObject::Object { value: "v".to_string(), type_id: any(&[]) },
        ),
    ];
    assert!(QueryPlan::compile(&in_type).is_none());
    let none = vec![QuadQuery(any(&["urn:a"]), QueryId::Ignore, QueryObject::Id(QueryId::Ignore))];
    assert!(QueryPlan::compile(&none).is_some());
}

#[test]
fn shared_placeholder_joins_its_columns() {
    let patterns = vec![
        QuadQuery(placeholder("x"), QueryId::Ignore, QueryObject::Id(QueryId::Ignore)),
        QuadQuery(QueryId::Ignore, QueryId::Ignore, QueryObject::Id(placeholder("x"))),
    ];
    let cache = EntityCache::new();
    assert_eq!(
        sql_of(patterns, &cache),
        "select quad_0.quad_id from quad quad_0, quad quad_1 where true and quad_0.quad_id = quad_1.attribute_id "
    );
}

#[test]
fn placeholder_of_three_columns_is_chained() {
    let patterns = vec![
        QuadQuery(placeholder("x"), placeholder("x"), QueryObject::Id(placeholder("x"))),
    ];
    let cache = EntityCache::new();
    assert_eq!(
        sql_of(patterns, &cache),
        "select quad_0.quad_id from quad quad_0 where true and quad_0.quad_id = quad_0.predicate_id and quad_0.predicate_id = quad_0.attribute_id "
    );
}

#[test]
fn placeholders_are_selected_in_the_order_of_their_keys() {
    let patterns = vec![
        QuadQuery(placeholder("b"), placeholder("a"), QueryObject::Id(placeholder("c"))),
        QuadQuery(placeholder("ab"), placeholder("B"), QueryObject::Id(placeholder("a"))),
    ];
    let plan = match QueryPlan::compile(&patterns) {
        Some(plan) => plan,
        None => panic!("the query has no plan"),
    };
    assert_eq!(plan.select_count(), 5);
    let cache = EntityCache::new();
    assert_eq!(
        plan.sql(&cache),
        "select quad_1.predicate_id, quad_0.predicate_id, quad_1.quad_id, quad_0.quad_id, quad_0.attribute_id from quad quad_0, quad quad_1 where true and quad_0.predicate_id = quad_1.attribute_id "
    );
}

#[test]
fn values_sets_and_texts_become_conditions() {
    let patterns = vec![
        QuadQuery(
            value("urn:s"),
            any(&["urn:p", "urn:q"]),
            QueryObject::Object { value: "it's".to_string(), type_id: value("urn:t") },
        ),
        QuadQuery(
            placeholder("x"),
            value("urn:p"),
            QueryObject::LanguageString { value: "hallo".to_string(), language: "nl".to_string() },
        ),
    ];
    let plan = match QueryPlan::compile(&patterns) {
        Some(plan) => plan,
        None => panic!("the query has no plan"),
    };
    assert_eq!(plan.attributes(), vec!["urn:s", "urn:t", "urn:p", "urn:p", "urn:q"]);
    let cache = cache_of(&[(1, "urn:s"), (-2, "urn:p"), (30, "urn:q"), (4, "urn:t")]);
    assert_eq!(
        plan.sql(&cache),
        "select quad_1.quad_id from quad quad_0, quad quad_1 where true and quad_0.object = 'it''s' and quad_1.object = 'hallo' and quad_1.language = 'nl' and quad_0.quad_id = 1 and quad_0.type_id = 4 and quad_1.predicate_id = -2 and quad_0.predicate_id in (-2, 30) "
    );
}

#[test]
fn query_without_patterns_selects_nothing_from_nothing() {
    let cache = EntityCache::new();
    assert_eq!(sql_of(Vec::new(), &cache), "select  from  where true ");
}

#[test]
fn query_request_needs_every_iri() {
    let patterns = vec![QuadQuery(placeholder("x"), value("urn:p"), QueryObject::Id(QueryId::Ignore))];
    let plan = match QueryPlan::compile(&patterns) {
        Some(plan) => plan,
        None => panic!("the query has no plan"),
    };
    let mut store = CellarEntityStore::new();
    assert!(query(&store, &plan).is_none());
    store.cache.intern(12, "urn:p".to_string());
    match query(&store, &plan) {
        Some(request) => {
            match request.target {
                Target::Sql(sql) => assert_eq!(
                    sql,
                    "select quad_0.quad_id from quad quad_0 where true and quad_0.predicate_id = 12 "
                ),
                Target::Prepared(_) => panic!("a query is no prepared statement"),
            }
            assert!(request.params.is_empty());
        }
        None => panic!("every IRI is known"),
    }
}

#[test]
fn answers_are_rows_of_ids() {
    let rows = vec![
        Row { fields: vec![Some(vec![0, 0, 0, 1]), Some(vec![0, 0, 0, 2])] },
        Row { fields: vec![Some(vec![0, 0, 0, 3]), Some(vec![0xff, 0xff, 0xff, 0xff])] },
    ];
    let data = match query_ids(&rows, 2) {
        Ok(data) => data,
        Err(_) => panic!("the rows are answers"),
    };
    assert_eq!(data, vec![vec![1, 2], vec![3, -1]]);
    assert_eq!(answer_ids(&data), vec![1, 2, 3, -1]);
    assert_eq!(query_ids(&rows, 1).ok(), Some(vec![vec![1], vec![3]]));
    assert!(matches!(query_ids(&rows, 3), Err(AnyError::Decode)));
    let with_null = vec![Row { fields: vec![None] }];
    assert!(matches!(query_ids(&with_null, 1), Err(AnyError::Decode)));
    assert_eq!(query_ids(&Vec::new(), 4).ok(), Some(Vec::new()));
}

#[test]
fn answers_are_resolved_to_iris() {
    let mut store = CellarEntityStore::new();
    store.cache.intern(1, "urn:a".to_string());
    store.cache.intern(2, "urn:b".to_string());
    let data = vec![vec![1, 2], vec![2, 2]];
    assert_eq!(
        query_answers(&store, &data),
        Some(vec![
            vec!["urn:a".to_string(), "urn:b".to_string()],
            vec!["urn:b".to_string(), "urn:b".to_string()],
        ])
    );
    assert_eq!(query_answers(&store, &vec![vec![1, 3]]), None);
}

#[test]
fn strings_are_ordered_by_their_bytes() {
    assert!(string_lt("a", "b"));
    assert!(!string_lt("b", "a"));
    assert!(!string_lt("a", "a"));
    assert!(string_lt("", "a"));
    assert!(string_lt("a", "ab"));
    assert!(string_lt("B", "a"));
    assert!(string_lt("z", "\u{e9}"));
    assert!(string_lt("10", "9"));
}

#[test]
fn prefixes_are_stripped() {
    assert_eq!(strip_prefix("after-12", "after-"), Some("12".to_string()));
    assert_eq!(strip_prefix("after-", "after-"), Some(String::new()));
    assert_eq!(strip_prefix("afte", "after-"), None);
    assert_eq!(strip_prefix("before-1", "after-"), None);
    assert_eq!(strip_prefix("\u{e9}t\u{e9}", "\u{e9}"), Some("t\u{e9}".to_string()));
}
