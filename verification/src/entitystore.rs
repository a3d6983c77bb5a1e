//! The entity and collection operations: what each computes between its
//! round trips to the database.

use crate::cache::{pairs_bijective, translatable, translated, LANG_STRING};
use crate::cellarentitystore::{
    prepared, CellarEntityStore, Param, ParamView, Request, RequestView, TargetView,
};
use crate::codec::{column_ok, column_set, Row};
use crate::dbquad::{int_at, int_column, quad_of_row, quad_row};
use crate::error::{AnyError, AnyErrorView, StoreError};
use crate::models::{InsertableQuad, InsertableQuadView};
use crate::query::{
    attributes_of, has_empty_any, lemma_attributes_resolve, plan_of, sql_text, QueryPlan,
};
use crate::statements::StatementId;
use crate::tap::{
    CollectionPointer, CollectionPointerView, QuadContents, QuadContentsView, QuadQuery,
    StringQuad, StringQuadView,
};
use crate::text::{
    decimal, has_prefix, i32_to_string, lemma_decimal_round_trip, parse_i32, parse_i32_str,
    strip_prefix,
};
use crate::types::CollectionItem;
use crate::unique::{lemma_with_item, with_item};
use crate::wire::{be_i32, lemma_i32_round_trip};
use vstd::prelude::*;
use vstd::string::StringExecFns;
use vstd::utf8::{encode_utf8, encode_utf8_decode_utf8, encode_utf8_valid_utf8};

verus! {

/// The IRI in the contents of a quad: the node, or the datatype of the text.
pub open spec fn contents_iri(contents: QuadContentsView) -> Seq<char> {
    match contents {
        QuadContentsView::Id(id) => id,
        QuadContentsView::Object(type_id, _, _) => type_id,
    }
}

/// `set` with the IRIs that a quad names: that of its contents, its subject,
/// its predicate.
pub open spec fn with_quad(set: Seq<Seq<char>>, quad: StringQuadView) -> Seq<Seq<char>> {
    with_item(
        with_item(with_item(set, contents_iri(quad.contents)), quad.subject_id),
        quad.predicate_id,
    )
}

/// `set` with the IRIs that a list of quads names.
pub open spec fn with_quads(set: Seq<Seq<char>>, quads: Seq<StringQuadView>) -> Seq<Seq<char>>
    decreases quads.len(),
{
    if quads.len() == 0 {
        set
    } else {
        with_quad(with_quads(set, quads.drop_last()), quads.last())
    }
}

/// Every IRI that storing `quads` under `path` needs an id for, each once.
pub open spec fn put_iris(path: Seq<char>, quads: Seq<StringQuadView>) -> Seq<Seq<char>> {
    with_item(with_quads(Seq::empty(), quads), path)
}

/// Adds `iri` to `set`, unless it is in it.
fn insert_unique(set: &mut Vec<String>, iri: &String)
    ensures
        final(set).deep_view() == with_item(old(set).deep_view(), iri@),
{
    let ghost before = set.deep_view();
    let mut i: usize = 0;
    while i < set.len()
        invariant
            i <= set.len(),
            set.deep_view() == before,
            before == old(set).deep_view(),
            forall|j: int| 0 <= j < i ==> #[trigger] before[j] != iri@,
        decreases set.len() - i,
    {
        assert(before[i as int] == set@[i as int]@);
        if set[i] == *iri {
            return ;
        }
        i += 1;
    }
    set.push(iri.clone());
    assert(set.deep_view() =~= before.push(iri@));
}

/// Adds the IRIs that `quad` names to `set`.
pub fn get_ids(quad: &StringQuad, set: &mut Vec<String>)
    ensures
        final(set).deep_view() == with_quad(old(set).deep_view(), quad@),
{
    match &quad.contents {
        QuadContents::Id(id) => insert_unique(set, id),
        QuadContents::Object(type_id, _, _) => insert_unique(set, type_id),
    }
    insert_unique(set, &quad.subject_id);
    insert_unique(set, &quad.predicate_id);
}

/// Every IRI that storing `quads` under `path` needs an id for, each once.
pub fn collect_put_iris(path: &String, quads: &Vec<StringQuad>) -> (set: Vec<String>)
    ensures
        set.deep_view() == put_iris(path@, quads.deep_view()),
{
    let ghost view = quads.deep_view();
    let mut set: Vec<String> = Vec::new();
    let mut i: usize = 0;
    assert(view.take(0) =~= Seq::<StringQuadView>::empty());
    assert(set.deep_view() =~= Seq::<Seq<char>>::empty());
    while i < quads.len()
        invariant
            i <= quads.len(),
            view == quads.deep_view(),
            set.deep_view() == with_quads(Seq::empty(), view.take(i as int)),
        decreases quads.len() - i,
    {
        let ghost next = view.take(i + 1);
        assert(next.drop_last() == view.take(i as int));
        assert(next.last() == quads@[i as int]@);
        get_ids(&quads[i], &mut set);
        i += 1;
    }
    assert(view.take(i as int) == view);
    insert_unique(&mut set, path);
    set
}

/// Whether `ids` holds the id of every node that the row of `quad` names.
pub open spec fn storable(ids: Map<Seq<char>, i32>, quad: StringQuadView) -> bool {
    &&& ids.contains_key(quad.subject_id)
    &&& ids.contains_key(quad.predicate_id)
    &&& ids.contains_key(contents_iri(quad.contents))
}

/// The row that stores `quad` in the graph `graph`: a node goes to the
/// attribute column; a text goes to the object column, its datatype to the
/// type column and its language, where it has one, to the language column.
pub open spec fn insertable(ids: Map<Seq<char>, i32>, graph: i32, quad: StringQuadView) -> InsertableQuadView {
    match quad.contents {
        QuadContentsView::Id(id) => InsertableQuadView {
            quad_id: graph,
            subject_id: ids[quad.subject_id],
            predicate_id: ids[quad.predicate_id],
            attribute_id: Some(ids[id]),
            object: None,
            type_id: None,
            language: None,
        },
        QuadContentsView::Object(type_id, content, language) => InsertableQuadView {
            quad_id: graph,
            subject_id: ids[quad.subject_id],
            predicate_id: ids[quad.predicate_id],
            attribute_id: None,
            object: Some(content),
            type_id: Some(ids[type_id]),
            language,
        },
    }
}

/// The rows that store `quads` in the graph `graph`.
pub open spec fn insertables(ids: Map<Seq<char>, i32>, graph: i32, quads: Seq<StringQuadView>) -> Seq<
    InsertableQuadView,
> {
    Seq::new(quads.len(), |i: int| insertable(ids, graph, quads[i]))
}

/// Rows column by column, as the insert statement takes them: graphs,
/// subjects, predicates, attributes, objects, types, languages.
pub open spec fn columns(rows: Seq<InsertableQuadView>) -> Seq<ParamView> {
    seq![
        ParamView::Int4Array(Seq::new(rows.len(), |i: int| rows[i].quad_id)),
        ParamView::Int4Array(Seq::new(rows.len(), |i: int| rows[i].subject_id)),
        ParamView::Int4Array(Seq::new(rows.len(), |i: int| rows[i].predicate_id)),
        ParamView::NullableInt4Array(Seq::new(rows.len(), |i: int| rows[i].attribute_id)),
        ParamView::NullableTextArray(Seq::new(rows.len(), |i: int| rows[i].object)),
        ParamView::NullableInt4Array(Seq::new(rows.len(), |i: int| rows[i].type_id)),
        ParamView::NullableTextArray(Seq::new(rows.len(), |i: int| rows[i].language)),
    ]
}

/// The row that stores `quad` in the graph `graph`.
fn insertable_quad(store: &CellarEntityStore, graph: i32, quad: &StringQuad) -> (row: InsertableQuad)
    requires
        storable(store.cache.ids(), quad@),
    ensures
        row.deep_view() == insertable(store.cache.ids(), graph, quad@),
{
    let subject_id = store.cache.id_of(&quad.subject_id).unwrap();
    let predicate_id = store.cache.id_of(&quad.predicate_id).unwrap();
    match &quad.contents {
        QuadContents::Id(id) => InsertableQuad {
            quad_id: graph,
            subject_id,
            predicate_id,
            attribute_id: Some(store.cache.id_of(id).unwrap()),
            object: None,
            type_id: None,
            language: None,
        },
        QuadContents::Object(type_id, content, language) => InsertableQuad {
            quad_id: graph,
            subject_id,
            predicate_id,
            attribute_id: None,
            object: Some(content.clone()),
            type_id: Some(store.cache.id_of(type_id).unwrap()),
            language: match language {
                Some(tag) => Some(tag.clone()),
                None => None,
            },
        },
    }
}

/// The rows that store `quads` in the graph of `path`.
pub fn insertable_quads(store: &CellarEntityStore, path: &String, quads: &Vec<StringQuad>) -> (rows:
    Vec<InsertableQuad>)
    requires
        store.cache.ids().contains_key(path@),
        forall|i: int| 0 <= i < quads.len() ==> storable(store.cache.ids(), #[trigger] quads.deep_view()[i]),
    ensures
        rows.deep_view() == insertables(
            store.cache.ids(),
            store.cache.ids()[path@],
            quads.deep_view(),
        ),
{
    let ghost view = quads.deep_view();
    let ghost ids = store.cache.ids();
    let graph = store.cache.id_of(path).unwrap();
    let mut rows: Vec<InsertableQuad> = Vec::new();
    let mut i: usize = 0;
    while i < quads.len()
        invariant
            i <= quads.len(),
            view == quads.deep_view(),
            ids == store.cache.ids(),
            rows.len() == i,
            forall|j: int| 0 <= j < view.len() ==> storable(ids, #[trigger] view[j]),
            forall|j: int| 0 <= j < i ==> (#[trigger] rows@[j]).deep_view() == insertable(ids, graph, view[j]),
        decreases quads.len() - i,
    {
        assert(view[i as int] == quads@[i as int]@);
        assert(storable(ids, view[i as int]));
        rows.push(insertable_quad(store, graph, &quads[i]));
        i += 1;
    }
    assert(rows.deep_view() =~= insertables(ids, graph, view));
    rows
}

/// Rows column by column, as the insert statement takes them.
pub fn quad_columns(rows: &Vec<InsertableQuad>) -> (data: Vec<Param>)
    ensures
        data.deep_view() == columns(rows.deep_view()),
{
    let ghost view = rows.deep_view();
    let mut quad_id: Vec<i32> = Vec::new();
    let mut subject_id: Vec<i32> = Vec::new();
    let mut predicate_id: Vec<i32> = Vec::new();
    let mut attribute_id: Vec<Option<i32>> = Vec::new();
    let mut object: Vec<Option<String>> = Vec::new();
    let mut type_id: Vec<Option<i32>> = Vec::new();
    let mut language: Vec<Option<String>> = Vec::new();
    let mut i: usize = 0;
    while i < rows.len()
        invariant
            i <= rows.len(),
            view == rows.deep_view(),
            quad_id@ == Seq::new(i as nat, |j: int| view[j].quad_id),
            subject_id@ == Seq::new(i as nat, |j: int| view[j].subject_id),
            predicate_id@ == Seq::new(i as nat, |j: int| view[j].predicate_id),
            attribute_id@ == Seq::new(i as nat, |j: int| view[j].attribute_id),
            object.deep_view() == Seq::new(i as nat, |j: int| view[j].object),
            type_id@ == Seq::new(i as nat, |j: int| view[j].type_id),
            language.deep_view() == Seq::new(i as nat, |j: int| view[j].language),
        decreases rows.len() - i,
    {
        let row = &rows[i];
        assert(view[i as int] == row.deep_view());
        let ghost objects = object.deep_view();
        let ghost languages = language.deep_view();
        quad_id.push(row.quad_id);
        subject_id.push(row.subject_id);
        predicate_id.push(row.predicate_id);
        attribute_id.push(row.attribute_id);
        object.push(
            match &row.object {
                Some(text) => Some(text.clone()),
                None => None,
            },
        );
        type_id.push(row.type_id);
        language.push(
            match &row.language {
                Some(text) => Some(text.clone()),
                None => None,
            },
        );
        assert(quad_id@ =~= Seq::new((i + 1) as nat, |j: int| view[j].quad_id));
        assert(subject_id@ =~= Seq::new((i + 1) as nat, |j: int| view[j].subject_id));
        assert(predicate_id@ =~= Seq::new((i + 1) as nat, |j: int| view[j].predicate_id));
        assert(attribute_id@ =~= Seq::new((i + 1) as nat, |j: int| view[j].attribute_id));
        assert(type_id@ =~= Seq::new((i + 1) as nat, |j: int| view[j].type_id));
        assert(object.deep_view() =~= objects.push(view[i as int].object));
        assert(object.deep_view() =~= Seq::new((i + 1) as nat, |j: int| view[j].object));
        assert(language.deep_view() =~= languages.push(view[i as int].language));
        assert(language.deep_view() =~= Seq::new((i + 1) as nat, |j: int| view[j].language));
        i += 1;
    }
    let mut data: Vec<Param> = Vec::new();
    data.push(Param::Int4Array(quad_id));
    data.push(Param::Int4Array(subject_id));
    data.push(Param::Int4Array(predicate_id));
    data.push(Param::NullableInt4Array(attribute_id));
    data.push(Param::NullableTextArray(object));
    data.push(Param::NullableInt4Array(type_id));
    data.push(Param::NullableTextArray(language));
    assert(data.deep_view() =~= columns(view));
    data
}

/// The IRIs of a quad are among those that `with_quad` gives, and so is what
/// was in the set before.
proof fn lemma_with_quad(set: Seq<Seq<char>>, quad: StringQuadView)
    ensures
        with_quad(set, quad).contains(contents_iri(quad.contents)),
        with_quad(set, quad).contains(quad.subject_id),
        with_quad(set, quad).contains(quad.predicate_id),
        forall|x: Seq<char>| set.contains(x) ==> #[trigger] with_quad(set, quad).contains(x),
{
    let a = with_item(set, contents_iri(quad.contents));
    let b = with_item(a, quad.subject_id);
    lemma_with_item(set, contents_iri(quad.contents));
    lemma_with_item(a, quad.subject_id);
    lemma_with_item(b, quad.predicate_id);
}

/// The IRIs of each quad of a list are among those that `with_quads` gives.
proof fn lemma_with_quads(set: Seq<Seq<char>>, quads: Seq<StringQuadView>, i: int)
    requires
        0 <= i < quads.len(),
    ensures
        with_quads(set, quads).contains(contents_iri(quads[i].contents)),
        with_quads(set, quads).contains(quads[i].subject_id),
        with_quads(set, quads).contains(quads[i].predicate_id),
    decreases quads.len(),
{
    let front = with_quads(set, quads.drop_last());
    lemma_with_quad(front, quads.last());
    if i < quads.len() - 1 {
        lemma_with_quads(set, quads.drop_last(), i);
    }
}

/// A map that holds every IRI of `put_iris` holds the path and what every
/// row needs.
pub proof fn lemma_put_iris_suffice(
    ids: Map<Seq<char>, i32>,
    path: Seq<char>,
    quads: Seq<StringQuadView>,
)
    requires
        forall|k: int| 0 <= k < put_iris(path, quads).len() ==> ids.contains_key(
            #[trigger] put_iris(path, quads)[k],
        ),
    ensures
        ids.contains_key(path),
        forall|i: int| 0 <= i < quads.len() ==> storable(ids, #[trigger] quads[i]),
{
    let inner = with_quads(Seq::empty(), quads);
    let all = put_iris(path, quads);
    lemma_with_item(inner, path);
    let k = choose|k: int| 0 <= k < all.len() && all[k] == path;
    assert(ids.contains_key(all[k]));
    assert forall|i: int| 0 <= i < quads.len() implies storable(ids, #[trigger] quads[i]) by {
        lemma_with_quads(Seq::empty(), quads, i);
        let a = contents_iri(quads[i].contents);
        assert(inner.contains(a));
        assert(with_item(inner, path).contains(a));
        let ka = choose|k: int| 0 <= k < all.len() && all[k] == a;
        assert(ids.contains_key(all[ka]));
        let s = quads[i].subject_id;
        assert(inner.contains(s));
        assert(with_item(inner, path).contains(s));
        let ks = choose|k: int| 0 <= k < all.len() && all[k] == s;
        assert(ids.contains_key(all[ks]));
        let p = quads[i].predicate_id;
        assert(inner.contains(p));
        assert(with_item(inner, path).contains(p));
        let kp = choose|k: int| 0 <= k < all.len() && all[k] == p;
        assert(ids.contains_key(all[kp]));
    }
}

/// Stores `quads` as the graph of `path`, in place of what was stored there:
/// the request that deletes the graph, then the request that inserts the
/// rows. There are none where the cache lacks the id of one of the IRIs.
pub fn put(store: &CellarEntityStore, path: &String, quads: &Vec<StringQuad>) -> (requests: Option<
    (Request, Request),
>)
    ensures
        requests is Some <==> forall|k: int|
            0 <= k < put_iris(path@, quads.deep_view()).len() ==> store.cache.ids().contains_key(
                #[trigger] put_iris(path@, quads.deep_view())[k],
            ),
        requests matches Some(pair) ==> {
            &&& pair.0@ == prepared(
                StatementId::DeleteQuads,
                seq![ParamView::Int4(store.cache.ids()[path@])],
            )
            &&& pair.1@ == prepared(
                StatementId::InsertQuads,
                columns(
                    insertables(store.cache.ids(), store.cache.ids()[path@], quads.deep_view()),
                ),
            )
        },
{
    let iris = collect_put_iris(path, quads);
    if !store.cache.knows(&iris) {
        return None;
    }
    proof {
        lemma_put_iris_suffice(store.cache.ids(), path@, quads.deep_view());
    }
    let graph = store.cache.id_of(path).unwrap();
    let rows = insertable_quads(store, path, quads);
    let data = quad_columns(&rows);
    Some((store.delete_quad(graph), store.insert_quad(data)))
}

/// A page of the listing of a collection: at most `limit` items, read from
/// `offset` on. With `until` the page holds the items whose id is `offset` or
/// less, the greatest id first; without, those whose id is `offset` or more,
/// the least id first.
#[derive(Clone, Copy)]
pub struct Window {
    pub until: bool,
    pub offset: i32,
    pub limit: i32,
}

/// How many items are asked for: 30 where no number is given; a number that
/// 31 bits cannot hold wraps around.
pub open spec fn limit_of(count: Option<u32>) -> i32 {
    match count {
        None => 30,
        Some(c) => if c <= i32::MAX {
            c as i32
        } else {
            (c - 0x1_0000_0000) as i32
        },
    }
}

/// The page that a cursor stands for. Without a cursor the listing starts at
/// the greatest id and descends. `before-N` reads the items whose id is N or
/// less, descending; `after-N` those whose id is N or more, ascending.
/// Nothing else is a cursor.
pub open spec fn window_of(count: Option<u32>, cursor: Option<Seq<char>>) -> Option<Window> {
    match cursor {
        None => Some(Window { until: true, offset: i32::MAX, limit: limit_of(count) }),
        Some(text) => if has_prefix(text, "before-"@) {
            match parse_i32(text.subrange("before-"@.len() as int, text.len() as int)) {
                Some(n) => Some(Window { until: true, offset: n, limit: limit_of(count) }),
                None => None,
            }
        } else if has_prefix(text, "after-"@) {
            match parse_i32(text.subrange("after-"@.len() as int, text.len() as int)) {
                Some(n) => Some(Window { until: false, offset: n, limit: limit_of(count) }),
                None => None,
            }
        } else {
            None
        },
    }
}

/// The page that a listing of `count` items from `cursor` on asks for.
pub fn read_collection(count: Option<u32>, cursor: Option<String>) -> (r: Result<Window, StoreError>)
    ensures
        r is Ok <==> window_of(count, crate::tap::opt_text(cursor)) is Some,
        r matches Ok(w) ==> Some(w) == window_of(count, crate::tap::opt_text(cursor)),
        r matches Err(e) ==> e@ == AnyErrorView::UnknownCursor,
{
    let limit: i32 = match count {
        None => 30,
        Some(c) => if c <= 0x7fff_ffff {
            c as i32
        } else {
            (c - 0x8000_0000) as i32 + i32::MIN
        },
    };
    let text = match cursor {
        None => return Ok(Window { until: true, offset: i32::MAX, limit }),
        Some(text) => text,
    };
    match strip_prefix(text.as_str(), "before-") {
        Some(rest) => {
            return match parse_i32_str(rest.as_str()) {
                Some(n) => Ok(Window { until: true, offset: n, limit }),
                None => Err(StoreError::UnknownCursor),
            };
        },
        None => {},
    }
    match strip_prefix(text.as_str(), "after-") {
        Some(rest) => match parse_i32_str(rest.as_str()) {
            Some(n) => Ok(Window { until: false, offset: n, limit }),
            None => Err(StoreError::UnknownCursor),
        },
        None => Err(StoreError::UnknownCursor),
    }
}

/// The ids that a page of a collection names: for each item its collection
/// and its object.
pub open spec fn ids_of_items(items: Seq<CollectionItem>) -> Seq<i32>
    decreases items.len(),
{
    if items.len() == 0 {
        Seq::empty()
    } else {
        ids_of_items(items.drop_last()).push(items.last().collection_id).push(
            items.last().object_id,
        )
    }
}

/// The ids that a page of a collection names.
pub fn collection_ids(items: &Vec<CollectionItem>) -> (ids: Vec<i32>)
    ensures
        ids@ == ids_of_items(items@),
{
    let mut ids: Vec<i32> = Vec::new();
    let mut i: usize = 0;
    assert(items@.take(0) =~= Seq::<CollectionItem>::empty());
    while i < items.len()
        invariant
            i <= items.len(),
            ids@ == ids_of_items(items@.take(i as int)),
        decreases items.len() - i,
    {
        assert(items@.take(i + 1).drop_last() == items@.take(i as int));
        ids.push(items[i].collection_id);
        ids.push(items[i].object_id);
        i += 1;
    }
    assert(items@.take(i as int) == items@);
    ids
}

/// `n` where it is a 32-bit number.
pub open spec fn checked(n: int) -> Option<i32> {
    if i32::MIN <= n <= i32::MAX {
        Some(n as i32)
    } else {
        None
    }
}

/// Whether a page ends the listing in the direction it was read in: it
/// holds fewer items than were asked for, or none.
pub open spec fn ended(items: Seq<CollectionItem>, window: Window) -> bool {
    items.len() == 0 || items.len() < window.limit
}

/// Where the listing goes on towards the lesser ids: just below the least id
/// of the page. After a descending page that is the id of its last item less
/// one, and there is no such place where the page ended the listing. Before
/// an ascending page it is the id of its first item less one, or the offset
/// less one where the page is empty.
pub open spec fn before_of(items: Seq<CollectionItem>, window: Window) -> Option<i32> {
    if window.until {
        if ended(items, window) {
            None
        } else {
            checked(items.last().id - 1)
        }
    } else if items.len() == 0 {
        checked(window.offset - 1)
    } else {
        checked(items.first().id - 1)
    }
}

/// Where the listing goes on towards the greater ids: just above the greatest
/// id of the page. After an ascending page that is the id of its last item
/// and one, and there is no such place where the page ended the listing.
/// Before a descending page it is the id of its first item and one, or the
/// offset and one where the page is empty.
pub open spec fn after_of(items: Seq<CollectionItem>, window: Window) -> Option<i32> {
    if !window.until {
        if ended(items, window) {
            None
        } else {
            checked(items.last().id + 1)
        }
    } else if items.len() == 0 {
        checked(window.offset + 1)
    } else {
        checked(items.first().id + 1)
    }
}

/// A cursor: its direction, a hyphen, the number.
pub open spec fn cursor_text(direction: Seq<char>, n: Option<i32>) -> Option<Seq<char>> {
    match n {
        Some(n) => Some(direction + decimal(n as int)),
        None => None,
    }
}

/// The page of a collection as its callers see it: the IRIs of the objects,
/// in the order of the items, and the cursors on either side. Each cursor
/// stands just past the page in the direction that it reads in: `before`
/// just below the least id of the page, `after` just above the greatest. A
/// reader who follows a cursor so meets no item of the page again and skips
/// none; `listing` proves it for a whole collection.
pub open spec fn pointer_of(uris: Map<i32, Seq<char>>, items: Seq<CollectionItem>, window: Window) -> CollectionPointerView {
    CollectionPointerView {
        items: Seq::new(items.len(), |i: int| uris[items[i].object_id]),
        after: cursor_text("after-"@, after_of(items, window)),
        before: cursor_text("before-"@, before_of(items, window)),
        count: None,
    }
}

fn cursor(direction: &str, n: Option<i32>) -> (text: Option<String>)
    ensures
        crate::tap::opt_text(text) == cursor_text(direction@, n),
{
    match n {
        Some(n) => {
            let mut text = String::from_str(direction);
            text.append(i32_to_string(n).as_str());
            Some(text)
        },
        None => None,
    }
}

fn minus_one(n: i32) -> (r: Option<i32>)
    ensures
        r == checked(n - 1),
{
    if n > i32::MIN {
        Some(n - 1)
    } else {
        None
    }
}

fn plus_one(n: i32) -> (r: Option<i32>)
    ensures
        r == checked(n + 1),
{
    if n < i32::MAX {
        Some(n + 1)
    } else {
        None
    }
}

/// The IRIs of the ids that `pick` takes from the items, or nothing where the
/// cache lacks one of them.
fn resolve_items(store: &CellarEntityStore, items: &Vec<CollectionItem>, object: bool) -> (iris: Option<
    Vec<String>,
>)
    ensures
        iris is Some <==> forall|i: int|
            0 <= i < items.len() ==> store.cache.uris().contains_key(
                picked(#[trigger] items@[i], object),
            ),
        iris matches Some(list) ==> list.deep_view() == Seq::new(
            items@.len(),
            |i: int| store.cache.uris()[picked(items@[i], object)],
        ),
{
    let ghost uris = store.cache.uris();
    let mut list: Vec<String> = Vec::new();
    let mut i: usize = 0;
    while i < items.len()
        invariant
            i <= items.len(),
            uris == store.cache.uris(),
            list.len() == i,
            forall|j: int| 0 <= j < i ==> uris.contains_key(picked(#[trigger] items@[j], object)),
            forall|j: int| 0 <= j < i ==> (#[trigger] list@[j])@ == uris[picked(items@[j], object)],
        decreases items.len() - i,
    {
        let id = if object {
            items[i].object_id
        } else {
            items[i].collection_id
        };
        assert(id == picked(items@[i as int], object));
        match store.cache.uri_of(id) {
            Some(iri) => list.push(iri.clone()),
            None => return None,
        }
        i += 1;
    }
    assert(list.deep_view() =~= Seq::new(items@.len(), |i: int| uris[picked(items@[i], object)]));
    Some(list)
}

/// The object of an item, or its collection.
pub open spec fn picked(item: CollectionItem, object: bool) -> i32 {
    if object {
        item.object_id
    } else {
        item.collection_id
    }
}

/// The page of a collection as its callers see it, or nothing where the cache
/// lacks the IRI of one of the objects.
pub fn collection_pointer(store: &CellarEntityStore, items: &Vec<CollectionItem>, window: Window) -> (pointer:
    Option<CollectionPointer>)
    ensures
        pointer is Some <==> forall|i: int|
            0 <= i < items.len() ==> store.cache.uris().contains_key(
                (#[trigger] items@[i]).object_id,
            ),
        pointer matches Some(p) ==> p@ == pointer_of(store.cache.uris(), items@, window),
{
    let iris = match resolve_items(store, items, true) {
        Some(iris) => iris,
        None => {
            assert(!(forall|i: int|
                0 <= i < items.len() ==> store.cache.uris().contains_key(
                    (#[trigger] items@[i]).object_id,
                ))) by {
                let i = choose|i: int|
                    0 <= i < items.len() && !store.cache.uris().contains_key(
                        picked(#[trigger] items@[i], true),
                    );
                assert(!store.cache.uris().contains_key(items@[i].object_id));
            }
            return None;
        },
    };
    assert forall|i: int| 0 <= i < items.len() implies store.cache.uris().contains_key(
        (#[trigger] items@[i]).object_id,
    ) by {
        assert(store.cache.uris().contains_key(picked(items@[i], true)));
    }
    let n = items.len();
    let ended = n == 0 || (window.limit > 0 && n < window.limit as usize);
    let before = if window.until {
        if ended {
            None
        } else {
            minus_one(items[n - 1].id)
        }
    } else if n == 0 {
        minus_one(window.offset)
    } else {
        minus_one(items[0].id)
    };
    let after = if !window.until {
        if ended {
            None
        } else {
            plus_one(items[n - 1].id)
        }
    } else if n == 0 {
        plus_one(window.offset)
    } else {
        plus_one(items[0].id)
    };
    let pointer = CollectionPointer {
        items: iris,
        after: cursor("after-", after),
        before: cursor("before-", before),
        count: None,
    };
    assert(pointer@.items =~= Seq::new(items@.len(), |i: int| store.cache.uris()[items@[i].object_id]));
    Some(pointer)
}

/// What `find_collection` answers: where the item is in the collection, the
/// item alone between the cursors on either side of its id, `before` just
/// below it and `after` just above; else nothing.
pub open spec fn found_of(item: Seq<char>, item_id: i32, contains: bool) -> CollectionPointerView {
    if contains {
        CollectionPointerView {
            items: seq![item],
            after: cursor_text("after-"@, checked(item_id + 1)),
            before: cursor_text("before-"@, checked(item_id - 1)),
            count: None,
        }
    } else {
        CollectionPointerView { items: Seq::empty(), after: None, before: None, count: None }
    }
}

/// Finds an item in a collection. The result will contain cursors to just before and after the item, if it exists.
pub fn find_collection(item: String, item_id: i32, contains: bool) -> (pointer: CollectionPointer)
    ensures
        pointer@ == found_of(item@, item_id, contains),
{
    if contains {
        let mut items: Vec<String> = Vec::new();
        items.push(item);
        let pointer = CollectionPointer {
            items,
            after: cursor("after-", plus_one(item_id)),
            before: cursor("before-", minus_one(item_id)),
            count: None,
        };
        assert(pointer@.items =~= seq![item@]);
        pointer
    } else {
        let pointer = CollectionPointer { items: Vec::new(), after: None, before: None, count: None };
        assert(pointer@.items =~= Seq::<Seq<char>>::empty());
        pointer
    }
}

/// The collections of the items that hold an object, as their callers see
/// them: the IRIs of the collections, without cursors.
pub open spec fn inverse_of(uris: Map<i32, Seq<char>>, items: Seq<CollectionItem>) -> CollectionPointerView {
    CollectionPointerView {
        items: Seq::new(items.len(), |i: int| uris[items[i].collection_id]),
        after: None,
        before: None,
        count: None,
    }
}

/// The collections that `read_collection_inverse` needs the IRIs of.
pub fn inverse_ids(items: &Vec<CollectionItem>) -> (ids: Vec<i32>)
    ensures
        ids@ == Seq::new(items@.len(), |i: int| items@[i].collection_id),
{
    let mut ids: Vec<i32> = Vec::new();
    let mut i: usize = 0;
    while i < items.len()
        invariant
            i <= items.len(),
            ids@ == Seq::new(i as nat, |j: int| items@[j].collection_id),
        decreases items.len() - i,
    {
        ids.push(items[i].collection_id);
        assert(ids@ =~= Seq::new((i + 1) as nat, |j: int| items@[j].collection_id));
        i += 1;
    }
    ids
}

/// Finds all the collections containing a specific object: the answer for the
/// items that hold it, or nothing where the cache lacks the IRI of one of
/// their collections.
pub fn read_collection_inverse(store: &CellarEntityStore, items: &Vec<CollectionItem>) -> (pointer:
    Option<CollectionPointer>)
    ensures
        pointer is Some <==> forall|i: int|
            0 <= i < items.len() ==> store.cache.uris().contains_key(
                (#[trigger] items@[i]).collection_id,
            ),
        pointer matches Some(p) ==> p@ == inverse_of(store.cache.uris(), items@),
{
    let iris = match resolve_items(store, items, false) {
        Some(iris) => iris,
        None => {
            assert(!(forall|i: int|
                0 <= i < items.len() ==> store.cache.uris().contains_key(
                    (#[trigger] items@[i]).collection_id,
                ))) by {
                let i = choose|i: int|
                    0 <= i < items.len() && !store.cache.uris().contains_key(
                        picked(#[trigger] items@[i], false),
                    );
                assert(!store.cache.uris().contains_key(items@[i].collection_id));
            }
            return None;
        },
    };
    assert forall|i: int| 0 <= i < items.len() implies store.cache.uris().contains_key(
        (#[trigger] items@[i]).collection_id,
    ) by {
        assert(store.cache.uris().contains_key(picked(items@[i], false)));
    }
    let pointer = CollectionPointer { items: iris, after: None, before: None, count: None };
    assert(pointer@.items =~= Seq::new(
        items@.len(),
        |i: int| store.cache.uris()[items@[i].collection_id],
    ));
    Some(pointer)
}

/// Inserts an item into the back of the collection: the request, or none
/// where the cache lacks the id of the collection or of the item.
pub fn insert_collection(store: &CellarEntityStore, path: &String, item: &String) -> (request:
    Option<Request>)
    ensures
        request is Some <==> store.cache.ids().contains_key(path@) && store.cache.ids().contains_key(
            item@,
        ),
        request matches Some(r) ==> r@ == prepared(
            StatementId::InsertCollection,
            seq![
                ParamView::Int4(store.cache.ids()[path@]),
                ParamView::Int4(store.cache.ids()[item@]),
            ],
        ),
{
    let collection = match store.cache.id_of(path) {
        Some(id) => id,
        None => return None,
    };
    let object = match store.cache.id_of(item) {
        Some(id) => id,
        None => return None,
    };
    Some(store.insert_collection(collection, object))
}

/// Removes an item from the collection: the request, or none where the cache
/// lacks the id of the collection or of the item.
pub fn remove_collection(store: &CellarEntityStore, path: &String, item: &String) -> (request:
    Option<Request>)
    ensures
        request is Some <==> store.cache.ids().contains_key(path@) && store.cache.ids().contains_key(
            item@,
        ),
        request matches Some(r) ==> r@ == prepared(
            StatementId::DeleteCollection,
            seq![
                ParamView::Int4(store.cache.ids()[path@]),
                ParamView::Int4(store.cache.ids()[item@]),
            ],
        ),
{
    let collection = match store.cache.id_of(path) {
        Some(id) => id,
        None => return None,
    };
    let object = match store.cache.id_of(item) {
        Some(id) => id,
        None => return None,
    };
    Some(store.delete_collection(collection, object))
}

/// Gets a single entity from the store: the request that reads its quads, or
/// none where the cache lacks the id of `path`.
pub fn get(store: &CellarEntityStore, path: &String) -> (request: Option<Request>)
    ensures
        request is Some <==> store.cache.ids().contains_key(path@),
        request matches Some(r) ==> r@ == prepared(
            StatementId::SelectQuad,
            seq![ParamView::Int4(store.cache.ids()[path@])],
        ),
{
    match store.cache.id_of(path) {
        Some(id) => Some(store.read_quad(id)),
        None => None,
    }
}

/// The name of the graph that the quads of an entity form.
pub const DEFAULT_GRAPH: &'static str = "@default";

/// The quads of an entity under the name of their graph. A missing entity has
/// no quads, and is no graph.
pub fn default_graph(quads: Vec<StringQuad>) -> (graph: Option<(String, Vec<StringQuad>)>)
    ensures
        graph is None <==> quads.len() == 0,
        graph matches Some(named) ==> named.0@ == DEFAULT_GRAPH@ && named.1 == quads,
{
    if quads.len() == 0 {
        None
    } else {
        Some((String::from_str(DEFAULT_GRAPH), quads))
    }
}

/// How a query begins.
pub enum Begun {
    /// The answers are known without the database: there are none, and
    /// nothing is to be sent.
    Answered(Vec<Vec<String>>),
    /// The database is to be asked, by this plan.
    Planned(QueryPlan),
}

/// Begins a query. Where a position of a pattern asks for one of no IRIs the
/// query is answered at once, with no answers; else it has a plan to ask the
/// database by.
pub fn begin_query(patterns: &Vec<QuadQuery>) -> (begun: Begun)
    ensures
        begun is Answered <==> has_empty_any(patterns.deep_view()),
        begun matches Begun::Answered(answers) ==> answers.deep_view() == Seq::<
            Seq<Seq<char>>,
        >::empty(),
        begun matches Begun::Planned(plan) ==> plan.wf() && plan@ == plan_of(
            patterns.deep_view(),
        ),
{
    match QueryPlan::compile(patterns) {
        Some(plan) => Begun::Planned(plan),
        None => {
            let answers: Vec<Vec<String>> = Vec::new();
            assert(answers.deep_view() =~= Seq::<Seq<Seq<char>>>::empty());
            Begun::Answered(answers)
        },
    }
}

/// Queries the store with a compiled plan: the request that runs the
/// statement of the plan, or none where the cache lacks the id of one of the
/// IRIs that the plan names.
pub fn query(store: &CellarEntityStore, plan: &QueryPlan) -> (request: Option<Request>)
    requires
        plan.wf(),
    ensures
        request is Some <==> forall|k: int|
            0 <= k < attributes_of(plan@).len() ==> store.cache.ids().contains_key(
                #[trigger] attributes_of(plan@)[k],
            ),
        request matches Some(r) ==> r@ == (RequestView {
            target: TargetView::Sql(sql_text(plan@, store.cache.ids())),
            params: Seq::empty(),
        }),
{
    let iris = plan.attributes();
    if !store.cache.knows(&iris) {
        return None;
    }
    proof {
        lemma_attributes_resolve(plan@, store.cache.ids());
    }
    let data: Vec<Param> = Vec::new();
    assert(data.deep_view() =~= Seq::<ParamView>::empty());
    Some(store.do_query(plan.sql(&store.cache), data))
}

/// Whether a row is an answer to a query with `count` placeholders: its
/// first `count` columns are numbers.
pub open spec fn answer_row(row: Seq<Option<Seq<u8>>>, count: int) -> bool {
    forall|k: int| 0 <= k < count ==> column_set::<i32>(row, k)
}

/// The ids in an answer.
pub open spec fn answer_of(row: Seq<Option<Seq<u8>>>, count: int) -> Seq<i32> {
    Seq::new(count as nat, |k: int| int_at(row, k))
}

fn answer(row: &Row, count: usize) -> (ids: Option<Vec<i32>>)
    ensures
        ids is Some <==> answer_row(row@, count as int),
        ids matches Some(list) ==> list@ == answer_of(row@, count as int),
{
    let mut list: Vec<i32> = Vec::new();
    let mut k: usize = 0;
    while k < count
        invariant
            k <= count,
            list@ == answer_of(row@, k as int),
            answer_row(row@, k as int),
        decreases count - k,
    {
        match int_column(row, k) {
            Some(id) => list.push(id),
            None => return None,
        }
        assert(list@ =~= answer_of(row@, k + 1));
        k += 1;
    }
    Some(list)
}

/// The ids in the answers that came back for a query with `count`
/// placeholders; fails where a row is no answer.
pub fn query_ids(rows: &Vec<Row>, count: usize) -> (r: Result<Vec<Vec<i32>>, AnyError>)
    ensures
        r is Ok <==> forall|i: int|
            0 <= i < rows.len() ==> answer_row(#[trigger] rows.deep_view()[i], count as int),
        r matches Ok(data) ==> data.deep_view() == Seq::new(
            rows@.len(),
            |i: int| answer_of(rows.deep_view()[i], count as int),
        ),
        r matches Err(e) ==> e@ == AnyErrorView::Decode,
{
    let ghost view = rows.deep_view();
    let mut data: Vec<Vec<i32>> = Vec::new();
    let mut i: usize = 0;
    while i < rows.len()
        invariant
            i <= rows.len(),
            view == rows.deep_view(),
            data.len() == i,
            forall|j: int| 0 <= j < i ==> answer_row(#[trigger] view[j], count as int),
            forall|j: int| 0 <= j < i ==> (#[trigger] data@[j])@ == answer_of(view[j], count as int),
        decreases rows.len() - i,
    {
        assert(view[i as int] == rows@[i as int]@);
        match answer(&rows[i], count) {
            Some(ids) => data.push(ids),
            None => return Err(AnyError::Decode),
        }
        i += 1;
    }
    assert forall|j: int| 0 <= j < data.len() implies #[trigger] data.deep_view()[j] == answer_of(
        view[j],
        count as int,
    ) by {
        assert(data@[j].deep_view() =~= data@[j]@);
    }
    assert(data.deep_view() =~= Seq::new(rows@.len(), |i: int| answer_of(view[i], count as int)));
    Ok(data)
}

/// The ids of a list of answers, one answer after the other.
pub open spec fn all_ids(data: Seq<Seq<i32>>) -> Seq<i32>
    decreases data.len(),
{
    if data.len() == 0 {
        Seq::empty()
    } else {
        all_ids(data.drop_last()) + data.last()
    }
}

/// The ids of a list of answers, one answer after the other.
pub fn answer_ids(data: &Vec<Vec<i32>>) -> (ids: Vec<i32>)
    ensures
        ids@ == all_ids(data.deep_view()),
{
    let ghost view = data.deep_view();
    let mut ids: Vec<i32> = Vec::new();
    let mut i: usize = 0;
    assert(view.take(0) =~= Seq::<Seq<i32>>::empty());
    while i < data.len()
        invariant
            i <= data.len(),
            view == data.deep_view(),
            ids@ == all_ids(view.take(i as int)),
        decreases data.len() - i,
    {
        let ghost start = ids@;
        let ghost next = view.take(i + 1);
        assert(next.drop_last() == view.take(i as int));
        assert(next.last() == data@[i as int]@);
        let row = &data[i];
        let mut k: usize = 0;
        while k < row.len()
            invariant
                k <= row.len(),
                ids@ == start + row@.take(k as int),
            decreases row.len() - k,
        {
            ids.push(row[k]);
            assert(ids@ =~= start + row@.take(k + 1));
            k += 1;
        }
        assert(row@.take(k as int) == row@);
        i += 1;
    }
    assert(view.take(i as int) == view);
    ids
}

/// The answers with each id replaced by its IRI.
pub open spec fn answers_of(uris: Map<i32, Seq<char>>, data: Seq<Seq<i32>>) -> Seq<Seq<Seq<char>>> {
    Seq::new(data.len(), |i: int| Seq::new(data[i].len(), |k: int| uris[data[i][k]]))
}

/// Whether `uris` holds the IRI of every id of the answers.
pub open spec fn answers_known(uris: Map<i32, Seq<char>>, data: Seq<Seq<i32>>) -> bool {
    forall|i: int, k: int|
        0 <= i < data.len() && 0 <= k < data[i].len() ==> uris.contains_key(#[trigger] data[i][k])
}

fn answer_iris(store: &CellarEntityStore, ids: &Vec<i32>) -> (iris: Option<Vec<String>>)
    ensures
        iris is Some <==> forall|k: int|
            0 <= k < ids.len() ==> store.cache.uris().contains_key(#[trigger] ids@[k]),
        iris matches Some(list) ==> list.deep_view() == Seq::new(
            ids@.len(),
            |k: int| store.cache.uris()[ids@[k]],
        ),
{
    let ghost uris = store.cache.uris();
    let mut list: Vec<String> = Vec::new();
    let mut k: usize = 0;
    while k < ids.len()
        invariant
            k <= ids.len(),
            uris == store.cache.uris(),
            list.len() == k,
            forall|j: int| 0 <= j < k ==> uris.contains_key(#[trigger] ids@[j]),
            forall|j: int| 0 <= j < k ==> (#[trigger] list@[j])@ == uris[ids@[j]],
        decreases ids.len() - k,
    {
        match store.cache.uri_of(ids[k]) {
            Some(iri) => list.push(iri.clone()),
            None => return None,
        }
        k += 1;
    }
    assert(list.deep_view() =~= Seq::new(ids@.len(), |k: int| uris[ids@[k]]));
    Some(list)
}

/// The answers of a query as its callers see them: each id replaced by its
/// IRI. Nothing where the cache lacks the IRI of one of the ids.
pub fn query_answers(store: &CellarEntityStore, data: &Vec<Vec<i32>>) -> (answers: Option<
    Vec<Vec<String>>,
>)
    ensures
        answers is Some <==> answers_known(store.cache.uris(), data.deep_view()),
        answers matches Some(list) ==> list.deep_view() == answers_of(
            store.cache.uris(),
            data.deep_view(),
        ),
{
    let ghost view = data.deep_view();
    let ghost uris = store.cache.uris();
    let mut list: Vec<Vec<String>> = Vec::new();
    let mut i: usize = 0;
    while i < data.len()
        invariant
            i <= data.len(),
            view == data.deep_view(),
            uris == store.cache.uris(),
            list.len() == i,
            forall|j: int, k: int|
                0 <= j < i && 0 <= k < view[j].len() ==> uris.contains_key(#[trigger] view[j][k]),
            forall|j: int|
                0 <= j < i ==> (#[trigger] list@[j]).deep_view() == Seq::new(
                    view[j].len(),
                    |k: int| uris[view[j][k]],
                ),
        decreases data.len() - i,
    {
        assert(view[i as int] == data@[i as int]@);
        match answer_iris(store, &data[i]) {
            Some(iris) => list.push(iris),
            None => {
                let ghost k = choose|k: int|
                    0 <= k < data@[i as int].len() && !uris.contains_key(
                        #[trigger] data@[i as int]@[k],
                    );
                assert(!uris.contains_key(view[i as int][k]));
                return None;
            },
        }
        i += 1;
    }
    assert(list.deep_view() =~= answers_of(uris, view));
    Some(list)
}

/// A cursor that a page hands out is read back as the page that it stands
/// for: a `before` cursor as the descending page from its number on, an
/// `after` cursor as the ascending page from its number on.
pub proof fn lemma_cursor_round_trip(count: Option<u32>, n: i32)
    ensures
        window_of(count, cursor_text("before-"@, Some(n))) == Some(
            Window { until: true, offset: n, limit: limit_of(count) },
        ),
        window_of(count, cursor_text("after-"@, Some(n))) == Some(
            Window { until: false, offset: n, limit: limit_of(count) },
        ),
{
    reveal_strlit("after-");
    reveal_strlit("before-");
    lemma_decimal_round_trip(n);
    let number = decimal(n as int);
    let after = "after-"@ + number;
    let before = "before-"@ + number;
    assert(after.subrange(0, "after-"@.len() as int) =~= "after-"@);
    assert(after.subrange("after-"@.len() as int, after.len() as int) =~= number);
    assert(before.subrange(0, "before-"@.len() as int) =~= "before-"@);
    assert(before.subrange("before-"@.len() as int, before.len() as int) =~= number);
    assert(!has_prefix(after, "before-"@)) by {
        if "before-"@.len() <= after.len() {
            assert(after.subrange(0, "before-"@.len() as int)[0] == 'a');
            assert("before-"@[0] == 'b');
        }
    }
}

/// Whether the ids of the items fall from each item to the next.
pub open spec fn descending(items: Seq<CollectionItem>) -> bool {
    forall|i: int, j: int| 0 <= i < j < items.len() ==> items[i].id > items[j].id
}

/// Whether the ids of the items rise from each item to the next.
pub open spec fn ascending(items: Seq<CollectionItem>) -> bool {
    forall|i: int, j: int| 0 <= i < j < items.len() ==> items[i].id < items[j].id
}

/// The `before` cursor of a descending page stands just below the last item
/// of the page: below every item of the page and below its offset, with no
/// place between it and the page.
pub proof fn lemma_before_cursor_leaves_the_page(items: Seq<CollectionItem>, window: Window, n: i32)
    requires
        window.until,
        descending(items),
        forall|i: int| 0 <= i < items.len() ==> (#[trigger] items[i]).id <= window.offset,
        before_of(items, window) == Some(n),
    ensures
        items.len() > 0,
        n == items.last().id - 1,
        n < window.offset,
        forall|i: int| 0 <= i < items.len() ==> n < (#[trigger] items[i]).id,
{
    assert(items.last().id <= window.offset);
    assert forall|i: int| 0 <= i < items.len() implies n < (#[trigger] items[i]).id by {
        if i < items.len() - 1 {
            assert(items[i].id > items[items.len() - 1].id);
        }
    }
}

/// The `after` cursor of an ascending page stands just above the last item
/// of the page: above every item of the page and above its offset, with no
/// place between it and the page.
pub proof fn lemma_after_cursor_leaves_the_page(items: Seq<CollectionItem>, window: Window, n: i32)
    requires
        !window.until,
        ascending(items),
        forall|i: int| 0 <= i < items.len() ==> (#[trigger] items[i]).id >= window.offset,
        after_of(items, window) == Some(n),
    ensures
        items.len() > 0,
        n == items.last().id + 1,
        n > window.offset,
        forall|i: int| 0 <= i < items.len() ==> n > (#[trigger] items[i]).id,
{
    assert(items.last().id >= window.offset);
    assert forall|i: int| 0 <= i < items.len() implies n > (#[trigger] items[i]).id by {
        if i < items.len() - 1 {
            assert(items[i].id < items[items.len() - 1].id);
        }
    }
}

/// A number as a field of a row.
pub open spec fn int_field(n: Option<i32>) -> Option<Seq<u8>> {
    match n {
        Some(n) => Some(be_i32(n)),
        None => None,
    }
}

/// A text as a field of a row.
pub open spec fn text_field(text: Option<Seq<char>>) -> Option<Seq<u8>> {
    match text {
        Some(text) => Some(encode_utf8(text)),
        None => None,
    }
}

/// The row that comes back for a quad that was stored as `row` and got the
/// id `id`.
pub open spec fn stored_row(id: i32, row: InsertableQuadView) -> Seq<Option<Seq<u8>>> {
    seq![
        Some(be_i32(id)),
        Some(be_i32(row.quad_id)),
        Some(be_i32(row.subject_id)),
        Some(be_i32(row.predicate_id)),
        int_field(row.attribute_id),
        text_field(row.object),
        int_field(row.type_id),
        text_field(row.language),
    ]
}

/// What is stored is read back: the row that `put` writes for a quad comes
/// back as a row of the same graph that is translated to the same quad, as
/// long as the cache holds the same pairs in both directions. A text with a
/// language is read back with the datatype of language-tagged strings, so it
/// has to be stored with it.
pub proof fn lemma_put_get_round_trip(
    uris: Map<i32, Seq<char>>,
    ids: Map<Seq<char>, i32>,
    graph: i32,
    id: i32,
    quad: StringQuadView,
)
    requires
        pairs_bijective(uris, ids),
        storable(ids, quad),
        quad.contents matches QuadContentsView::Object(type_id, _, Some(_)) ==> type_id
            == LANG_STRING@,
    ensures
        quad_row(stored_row(id, insertable(ids, graph, quad))),
        quad_of_row(stored_row(id, insertable(ids, graph, quad))).quad_id == graph,
        translatable(uris, quad_of_row(stored_row(id, insertable(ids, graph, quad)))),
        translated(uris, quad_of_row(stored_row(id, insertable(ids, graph, quad)))) == quad,
{
    let stored = insertable(ids, graph, quad);
    let row = stored_row(id, stored);
    lemma_i32_round_trip(id);
    lemma_i32_round_trip(graph);
    lemma_i32_round_trip(stored.subject_id);
    lemma_i32_round_trip(stored.predicate_id);
    assert(ids.contains_key(quad.subject_id));
    assert(ids.contains_key(quad.predicate_id));
    assert(ids.contains_key(contents_iri(quad.contents)));
    match quad.contents {
        QuadContentsView::Id(node) => {
            lemma_i32_round_trip(ids[node]);
        },
        QuadContentsView::Object(type_id, content, language) => {
            lemma_i32_round_trip(ids[type_id]);
            encode_utf8_valid_utf8(content);
            encode_utf8_decode_utf8(content);
            if let Some(tag) = language {
                encode_utf8_valid_utf8(tag);
                encode_utf8_decode_utf8(tag);
            }
        },
    }
    assert(column_set::<i32>(row, 0));
    assert(column_set::<i32>(row, 1));
    assert(column_set::<i32>(row, 2));
    assert(column_set::<i32>(row, 3));
    assert(column_ok::<i32>(row, 4));
    assert(column_ok::<String>(row, 5));
    assert(column_ok::<i32>(row, 6));
    assert(column_ok::<String>(row, 7));
}

} // verus!
