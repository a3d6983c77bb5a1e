//! The store handle: the interning cache, and every database round trip of
//! the store as the request to send and as the reading of the rows that come
//! back.

use crate::cache::{attribute_row, translatable, translated, EntityCache};
use crate::codec::{array_sendable, field_bytes, IsNull, Row, Serializable};
use crate::dbquad::{int_at, quad_of_row, quad_row, text_at, DatabaseQuad, DatabaseQuadView};
use crate::error::{AnyError, AnyErrorView};
use crate::statements::StatementId;
use crate::tap::StringQuad;
use crate::types::{item_of_row, item_row, CollectionItem};
use crate::wire::lemma_be_bytes_len;
use vstd::prelude::*;

verus! {

/// A parameter of a statement of the store.
pub enum Param {
    Int4(i32),
    Int8(i64),
    Text(String),
    Int4Array(Vec<i32>),
    TextArray(Vec<String>),
    NullableInt4Array(Vec<Option<i32>>),
    NullableTextArray(Vec<Option<String>>),
}

pub enum ParamView {
    Int4(i32),
    Int8(i64),
    Text(Seq<char>),
    Int4Array(Seq<i32>),
    TextArray(Seq<Seq<char>>),
    NullableInt4Array(Seq<Option<i32>>),
    NullableTextArray(Seq<Option<Seq<char>>>),
}

impl DeepView for Param {
    type V = ParamView;

    open spec fn deep_view(&self) -> ParamView {
        match self {
            Param::Int4(v) => ParamView::Int4(*v),
            Param::Int8(v) => ParamView::Int8(*v),
            Param::Text(v) => ParamView::Text(v@),
            Param::Int4Array(v) => ParamView::Int4Array(v@),
            Param::TextArray(v) => ParamView::TextArray(v.deep_view()),
            Param::NullableInt4Array(v) => ParamView::NullableInt4Array(v@),
            Param::NullableTextArray(v) => ParamView::NullableTextArray(v.deep_view()),
        }
    }
}

impl Serializable for Param {
    open spec fn wire(&self) -> Option<Seq<u8>> {
        match self {
            Param::Int4(v) => v.wire(),
            Param::Int8(v) => v.wire(),
            Param::Text(v) => v.wire(),
            Param::Int4Array(v) => v.wire(),
            Param::TextArray(v) => v.wire(),
            Param::NullableInt4Array(v) => v.wire(),
            Param::NullableTextArray(v) => v.wire(),
        }
    }

    open spec fn sendable(&self) -> bool {
        match self {
            Param::Int4(v) => v.sendable(),
            Param::Int8(v) => v.sendable(),
            Param::Text(v) => v.sendable(),
            Param::Int4Array(v) => v.sendable(),
            Param::TextArray(v) => v.sendable(),
            Param::NullableInt4Array(v) => v.sendable(),
            Param::NullableTextArray(v) => v.sendable(),
        }
    }

    fn serialize(&self, buf: &mut Vec<u8>) -> (null: IsNull) {
        match self {
            Param::Int4(v) => v.serialize(buf),
            Param::Int8(v) => v.serialize(buf),
            Param::Text(v) => v.serialize(buf),
            Param::Int4Array(v) => v.serialize(buf),
            Param::TextArray(v) => v.serialize(buf),
            Param::NullableInt4Array(v) => v.serialize(buf),
            Param::NullableTextArray(v) => v.serialize(buf),
        }
    }
}

/// The longest that an array or one of its elements can be.
pub const MAX_LEN: usize = 0x7fff_ffff;

fn texts_sendable(list: &Vec<String>) -> (ok: bool)
    ensures
        ok == array_sendable(list@),
{
    if list.len() > MAX_LEN {
        return false;
    }
    let mut i: usize = 0;
    while i < list.len()
        invariant
            i <= list.len(),
            list.len() <= MAX_LEN,
            forall|j: int|
                0 <= j < i ==> (#[trigger] list@[j]).sendable() && field_bytes(list@[j].wire()).len()
                    <= i32::MAX,
        decreases list.len() - i,
    {
        if list[i].as_str().as_bytes().len() > MAX_LEN {
            assert(!(field_bytes(list@[i as int].wire()).len() <= i32::MAX));
            return false;
        }
        i += 1;
    }
    true
}

fn nullable_texts_sendable(list: &Vec<Option<String>>) -> (ok: bool)
    ensures
        ok == array_sendable(list@),
{
    if list.len() > MAX_LEN {
        return false;
    }
    let mut i: usize = 0;
    while i < list.len()
        invariant
            i <= list.len(),
            list.len() <= MAX_LEN,
            forall|j: int|
                0 <= j < i ==> (#[trigger] list@[j]).sendable() && field_bytes(list@[j].wire()).len()
                    <= i32::MAX,
        decreases list.len() - i,
    {
        match &list[i] {
            Some(text) => {
                if text.as_str().as_bytes().len() > MAX_LEN {
                    assert(!(field_bytes(list@[i as int].wire()).len() <= i32::MAX));
                    return false;
                }
            },
            None => {},
        }
        i += 1;
    }
    true
}

impl Param {
    /// Whether the protocol's 32-bit lengths can hold the parameter.
    pub fn is_sendable(&self) -> (ok: bool)
        ensures
            ok == self.sendable(),
    {
        match self {
            Param::Int4(_) => true,
            Param::Int8(_) => true,
            Param::Text(_) => true,
            Param::Int4Array(v) => {
                proof {
                    assert forall|j: int| 0 <= j < v@.len() implies (#[trigger] v@[j]).sendable()
                        && field_bytes(v@[j].wire()).len() <= i32::MAX by {
                        let n = v@[j];
                        lemma_be_bytes_len(
                            (if n < 0 {
                                n + 0x1_0000_0000
                            } else {
                                n as int
                            }) as nat,
                            4,
                        );
                    }
                }
                v.len() <= MAX_LEN
            },
            Param::TextArray(v) => texts_sendable(v),
            Param::NullableInt4Array(v) => {
                proof {
                    assert forall|j: int| 0 <= j < v@.len() implies (#[trigger] v@[j]).sendable()
                        && field_bytes(v@[j].wire()).len() <= i32::MAX by {
                        if let Some(n) = v@[j] {
                            lemma_be_bytes_len(
                                (if n < 0 {
                                    n + 0x1_0000_0000
                                } else {
                                    n as int
                                }) as nat,
                                4,
                            );
                        }
                    }
                }
                v.len() <= MAX_LEN
            },
            Param::NullableTextArray(v) => nullable_texts_sendable(v),
        }
    }
}

/// What a request is run on: one of the prepared statements, or a statement
/// that is parsed for the occasion.
pub enum Target {
    Prepared(StatementId),
    Sql(String),
}

pub enum TargetView {
    Prepared(StatementId),
    Sql(Seq<char>),
}

/// A round trip to the database: the statement to bind and execute, and its
/// parameters.
pub struct Request {
    pub target: Target,
    pub params: Vec<Param>,
}

pub struct RequestView {
    pub target: TargetView,
    pub params: Seq<ParamView>,
}

impl View for Request {
    type V = RequestView;

    open spec fn view(&self) -> RequestView {
        RequestView {
            target: match self.target {
                Target::Prepared(id) => TargetView::Prepared(id),
                Target::Sql(text) => TargetView::Sql(text@),
            },
            params: self.params.deep_view(),
        }
    }
}

/// The request that runs the prepared statement `id` on `params`.
pub open spec fn prepared(id: StatementId, params: Seq<ParamView>) -> RequestView {
    RequestView { target: TargetView::Prepared(id), params }
}

impl Request {
    /// Whether every parameter can be sent.
    pub open spec fn sendable(&self) -> bool {
        forall|i: int| 0 <= i < self.params.len() ==> (#[trigger] self.params@[i]).sendable()
    }

    /// Whether every parameter can be sent.
    pub fn is_sendable(&self) -> (ok: bool)
        ensures
            ok == self.sendable(),
    {
        let mut i: usize = 0;
        while i < self.params.len()
            invariant
                i <= self.params.len(),
                forall|j: int| 0 <= j < i ==> (#[trigger] self.params@[j]).sendable(),
            decreases self.params.len() - i,
        {
            if !self.params[i].is_sendable() {
                return false;
            }
            i += 1;
        }
        true
    }

    fn one(id: StatementId, a: Param) -> (request: Request)
        ensures
            request@ == prepared(id, seq![a.deep_view()]),
    {
        let mut params: Vec<Param> = Vec::new();
        params.push(a);
        let request = Request { target: Target::Prepared(id), params };
        assert(request@.params =~= seq![a.deep_view()]);
        request
    }

    fn two(id: StatementId, a: Param, b: Param) -> (request: Request)
        ensures
            request@ == prepared(id, seq![a.deep_view(), b.deep_view()]),
    {
        let mut params: Vec<Param> = Vec::new();
        params.push(a);
        params.push(b);
        let request = Request { target: Target::Prepared(id), params };
        assert(request@.params =~= seq![a.deep_view(), b.deep_view()]);
        request
    }
}

/// A wrapper for the cache of one user of a connection, with the requests of
/// the store. Several may exist for one connection; none spans more than one
/// round trip.
#[derive(Debug)]
pub struct CellarEntityStore {
    pub cache: EntityCache,
    /// The id that the next entry taken out of the queue gets from this
    /// handle.
    pub next_item: i32,
}

/// The IRIs of `uris` that have no id in `ids`, in order.
pub open spec fn uncached_uris(ids: Map<Seq<char>, i32>, uris: Seq<Seq<char>>) -> Seq<Seq<char>>
    decreases uris.len(),
{
    if uris.len() == 0 {
        Seq::empty()
    } else if ids.contains_key(uris.last()) {
        uncached_uris(ids, uris.drop_last())
    } else {
        uncached_uris(ids, uris.drop_last()).push(uris.last())
    }
}

/// The ids of `ids` that have no IRI in `uris`, in order.
pub open spec fn uncached_ids(uris: Map<i32, Seq<char>>, ids: Seq<i32>) -> Seq<i32>
    decreases ids.len(),
{
    if ids.len() == 0 {
        Seq::empty()
    } else if uris.contains_key(ids.last()) {
        uncached_ids(uris, ids.drop_last())
    } else {
        uncached_ids(uris, ids.drop_last()).push(ids.last())
    }
}

impl CellarEntityStore {
    /// A handle with an empty cache.
    pub fn new() -> (store: CellarEntityStore)
        ensures
            store.cache.uris() == Map::<i32, Seq<char>>::empty(),
            store.cache.ids() == Map::<Seq<char>, i32>::empty(),
            store.cache.bijective(),
            store.next_item == 0,
    {
        CellarEntityStore { cache: EntityCache::new(), next_item: 0 }
    }

    /// The request that gives ids to those of `uris` that the cache does not
    /// hold, and returns them; none where the cache holds them all.
    pub fn cache_uris(&self, uris: &[String]) -> (request: Option<Request>)
        ensures
            request is None <==> uncached_uris(self.cache.ids(), uris.deep_view()).len() == 0,
            request matches Some(r) ==> r@ == prepared(
                StatementId::UpsertAttributes,
                seq![ParamView::TextArray(uncached_uris(self.cache.ids(), uris.deep_view()))],
            ),
    {
        let ghost view = uris.deep_view();
        let ghost ids = self.cache.ids();
        let mut uncached: Vec<String> = Vec::new();
        let mut i: usize = 0;
        assert(view.take(0) =~= Seq::<Seq<char>>::empty());
        assert(uncached.deep_view() =~= uncached_uris(ids, view.take(0)));
        while i < uris.len()
            invariant
                i <= uris.len(),
                view == uris.deep_view(),
                ids == self.cache.ids(),
                uncached.deep_view() == uncached_uris(ids, view.take(i as int)),
            decreases uris.len() - i,
        {
            let ghost next = view.take(i + 1);
            let ghost before = uncached.deep_view();
            assert(next.drop_last() == view.take(i as int));
            assert(next.last() == uris@[i as int]@);
            if !self.cache.uri_to_id.contains_key(&uris[i]) {
                uncached.push(uris[i].clone());
                assert(uncached.deep_view() =~= before.push(uris@[i as int]@));
            }
            i += 1;
        }
        assert(view.take(i as int) == view);
        if uncached.len() == 0 {
            return None;
        }
        Some(Request::one(StatementId::UpsertAttributes, Param::TextArray(uncached)))
    }

    /// The request that returns the IRIs of those of `ids` that the cache
    /// does not hold; none where the cache holds them all.
    pub fn cache_ids(&self, ids: &[i32]) -> (request: Option<Request>)
        ensures
            request is None <==> uncached_ids(self.cache.uris(), ids@).len() == 0,
            request matches Some(r) ==> r@ == prepared(
                StatementId::SelectAttributes,
                seq![ParamView::Int4Array(uncached_ids(self.cache.uris(), ids@))],
            ),
    {
        let ghost uris = self.cache.uris();
        let mut uncached: Vec<i32> = Vec::new();
        let mut i: usize = 0;
        assert(ids@.take(0) =~= Seq::<i32>::empty());
        while i < ids.len()
            invariant
                i <= ids.len(),
                uris == self.cache.uris(),
                uncached@ == uncached_ids(uris, ids@.take(i as int)),
            decreases ids.len() - i,
        {
            let ghost next = ids@.take(i + 1);
            assert(next.drop_last() == ids@.take(i as int));
            if self.cache.uri_of(ids[i]).is_none() {
                uncached.push(ids[i]);
            }
            i += 1;
        }
        assert(ids@.take(i as int) == ids@);
        if uncached.len() == 0 {
            return None;
        }
        Some(Request::one(StatementId::SelectAttributes, Param::Int4Array(uncached)))
    }

    /// The request that reads all the quads stored for a specific quad ID.
    pub fn read_quad(&self, id: i32) -> (request: Request)
        ensures
            request@ == prepared(StatementId::SelectQuad, seq![ParamView::Int4(id)]),
    {
        Request::one(StatementId::SelectQuad, Param::Int4(id))
    }

    /// The request that removes all the quads stored for a specific quad ID.
    pub fn delete_quad(&self, id: i32) -> (request: Request)
        ensures
            request@ == prepared(StatementId::DeleteQuads, seq![ParamView::Int4(id)]),
    {
        Request::one(StatementId::DeleteQuads, Param::Int4(id))
    }

    /// The request that inserts quads, given column by column.
    pub fn insert_quad(&self, data: Vec<Param>) -> (request: Request)
        ensures
            request@ == prepared(StatementId::InsertQuads, data.deep_view()),
    {
        Request { target: Target::Prepared(StatementId::InsertQuads), params: data }
    }

    /// The request that appends `object` to `collection`, unless it is in it.
    pub fn insert_collection(&self, collection: i32, object: i32) -> (request: Request)
        ensures
            request@ == prepared(
                StatementId::InsertCollection,
                seq![ParamView::Int4(collection), ParamView::Int4(object)],
            ),
    {
        Request::two(StatementId::InsertCollection, Param::Int4(collection), Param::Int4(object))
    }

    /// The request that takes `object` out of `collection`.
    pub fn delete_collection(&self, collection: i32, object: i32) -> (request: Request)
        ensures
            request@ == prepared(
                StatementId::DeleteCollection,
                seq![ParamView::Int4(collection), ParamView::Int4(object)],
            ),
    {
        Request::two(StatementId::DeleteCollection, Param::Int4(collection), Param::Int4(object))
    }

    /// The request that reads at most `limit` items of `collection`: with
    /// `until`, those whose id is `offset` or less, greatest id first; without,
    /// those whose id is `offset` or more, least id first.
    pub fn select_collection(&self, collection: i32, offset: i32, limit: i32, until: bool) -> (request:
        Request)
        ensures
            request@ == prepared(
                if until {
                    StatementId::SelectCollectionReverse
                } else {
                    StatementId::SelectCollection
                },
                seq![
                    ParamView::Int4(collection),
                    ParamView::Int4(offset),
                    ParamView::Int8(limit as i64),
                ],
            ),
    {
        let mut params: Vec<Param> = Vec::new();
        params.push(Param::Int4(collection));
        params.push(Param::Int4(offset));
        params.push(Param::Int8(limit as i64));
        let id = if until {
            StatementId::SelectCollectionReverse
        } else {
            StatementId::SelectCollection
        };
        let request = Request { target: Target::Prepared(id), params };
        assert(request@.params =~= seq![
            ParamView::Int4(collection),
            ParamView::Int4(offset),
            ParamView::Int8(limit as i64),
        ]);
        request
    }

    /// The request that reads the items that hold `object`, of every
    /// collection.
    pub fn select_collection_inverse(&self, object: i32) -> (request: Request)
        ensures
            request@ == prepared(
                StatementId::SelectCollectionInverse,
                seq![ParamView::Int4(object)],
            ),
    {
        Request::one(StatementId::SelectCollectionInverse, Param::Int4(object))
    }

    /// The request that reads the item `item` of `collection`, if there is
    /// one.
    pub fn collection_contains(&self, collection: i32, item: i32) -> (request: Request)
        ensures
            request@ == prepared(
                StatementId::FindCollection,
                seq![ParamView::Int4(collection), ParamView::Int4(item)],
            ),
    {
        Request::two(StatementId::FindCollection, Param::Int4(collection), Param::Int4(item))
    }

    /// The request that parses the statement `q` and runs it on `data`.
    pub fn do_query(&self, q: String, data: Vec<Param>) -> (request: Request)
        ensures
            request@ == (RequestView { target: TargetView::Sql(q@), params: data.deep_view() }),
    {
        Request { target: Target::Sql(q), params: data }
    }

    /// The request that takes the oldest entry out of the queue and returns
    /// it.
    pub fn pop_queue(&self) -> (request: Request)
        ensures
            request@ == prepared(StatementId::QueueItemPop, Seq::empty()),
    {
        let request = Request {
            target: Target::Prepared(StatementId::QueueItemPop),
            params: Vec::new(),
        };
        assert(request@.params =~= Seq::<ParamView>::empty());
        request
    }

    /// The request that appends an entry to the queue.
    pub fn push_queue(&self, event: String, data: String) -> (request: Request)
        ensures
            request@ == prepared(
                StatementId::QueueItemPut,
                seq![ParamView::Text(event@), ParamView::Text(data@)],
            ),
    {
        Request::two(StatementId::QueueItemPut, Param::Text(event), Param::Text(data))
    }
}

/// How many rows at the start of `rows` are rows of attributes.
pub open spec fn attribute_rows(rows: Seq<Seq<Option<Seq<u8>>>>) -> nat
    decreases rows.len(),
{
    if rows.len() == 0 {
        0
    } else if attribute_rows(rows.drop_last()) == rows.len() - 1 && attribute_row(rows.last()) {
        rows.len()
    } else {
        attribute_rows(rows.drop_last())
    }
}

/// The IRIs by id after the pairs of `rows` have joined `uris`, in order.
pub open spec fn uris_after(uris: Map<i32, Seq<char>>, rows: Seq<Seq<Option<Seq<u8>>>>) -> Map<
    i32,
    Seq<char>,
>
    decreases rows.len(),
{
    if rows.len() == 0 {
        uris
    } else {
        uris_after(uris, rows.drop_last()).insert(int_at(rows.last(), 0), text_at(rows.last(), 1))
    }
}

/// The ids by IRI after the pairs of `rows` have joined `ids`, in order.
pub open spec fn ids_after(ids: Map<Seq<char>, i32>, rows: Seq<Seq<Option<Seq<u8>>>>) -> Map<
    Seq<char>,
    i32,
>
    decreases rows.len(),
{
    if rows.len() == 0 {
        ids
    } else {
        ids_after(ids, rows.drop_last()).insert(text_at(rows.last(), 1), int_at(rows.last(), 0))
    }
}

/// Whether each pair of `rows` is admitted by the maps that the pairs before
/// it have joined.
pub open spec fn rows_admitted(
    uris: Map<i32, Seq<char>>,
    ids: Map<Seq<char>, i32>,
    rows: Seq<Seq<Option<Seq<u8>>>>,
) -> bool
    decreases rows.len(),
{
    rows.len() > 0 ==> rows_admitted(uris, ids, rows.drop_last()) && crate::cache::pair_admitted(
        uris_after(uris, rows.drop_last()),
        ids_after(ids, rows.drop_last()),
        int_at(rows.last(), 0),
        text_at(rows.last(), 1),
    )
}

/// The items of `rows`, row by row.
pub open spec fn items_of(rows: Seq<Seq<Option<Seq<u8>>>>) -> Seq<CollectionItem> {
    Seq::new(rows.len(), |i: int| item_of_row(rows[i]))
}

/// The quads of `rows`, row by row.
pub open spec fn quads_of(rows: Seq<Seq<Option<Seq<u8>>>>) -> Seq<DatabaseQuadView> {
    Seq::new(rows.len(), |i: int| quad_of_row(rows[i]))
}

/// Whether a row is that of a queue entry: two texts.
pub open spec fn queue_row(row: Seq<Option<Seq<u8>>>) -> bool {
    crate::codec::column_set::<String>(row, 0) && crate::codec::column_set::<String>(row, 1)
}

impl CellarEntityStore {
    /// Caches the pairs that came back for `cache_uris` or `cache_ids`, row
    /// by row, up to the first row that is not the row of an attribute, at
    /// which it fails. What was cached before that row stays.
    pub fn cache_rows(&mut self, rows: Vec<Row>) -> (r: Result<(), AnyError>)
        ensures
            r is Ok <==> attribute_rows(rows.deep_view()) == rows.len(),
            r matches Err(e) ==> e@ == AnyErrorView::Decode,
            final(self).cache.uris() == uris_after(
                old(self).cache.uris(),
                rows.deep_view().take(attribute_rows(rows.deep_view()) as int),
            ),
            final(self).cache.ids() == ids_after(
                old(self).cache.ids(),
                rows.deep_view().take(attribute_rows(rows.deep_view()) as int),
            ),
            old(self).cache.bijective() && rows_admitted(
                old(self).cache.uris(),
                old(self).cache.ids(),
                rows.deep_view().take(attribute_rows(rows.deep_view()) as int),
            ) ==> final(self).cache.bijective(),
            final(self).next_item == old(self).next_item,
    {
        let ghost view = rows.deep_view();
        let ghost uris = self.cache.uris();
        let ghost ids = self.cache.ids();
        let mut rows = rows;
        let mut taken: Vec<Row> = Vec::new();
        while rows.len() > 0
            invariant
                rows.deep_view() == view.take(rows.len() as int),
                rows.len() <= view.len(),
                taken.len() + rows.len() == view.len(),
                forall|j: int|
                    0 <= j < taken.len() ==> (#[trigger] taken@[j])@ == view[view.len() - 1 - j],
            decreases rows.len(),
        {
            let ghost before = rows.deep_view();
            let row = rows.pop().unwrap();
            assert(row@ == before[before.len() - 1]);
            assert(rows.deep_view() =~= view.take(rows.len() as int));
            taken.push(row);
        }
        let mut n: usize = 0;
        let mut failed = false;
        assert(view.len() == taken.len());
        assert(view.take(0) =~= Seq::<Seq<Option<Seq<u8>>>>::empty());
        while taken.len() > 0 && !failed
            invariant
                n + taken.len() + (if failed { 1int } else { 0int }) == view.len(),
                view.len() <= usize::MAX,
                forall|j: int|
                    0 <= j < taken.len() ==> (#[trigger] taken@[j])@ == view[view.len() - 1 - j],
                attribute_rows(view.take(n as int)) == n,
                failed ==> !attribute_row(view[n as int]),
                self.cache.uris() == uris_after(uris, view.take(n as int)),
                self.cache.ids() == ids_after(ids, view.take(n as int)),
                uris == old(self).cache.uris(),
                ids == old(self).cache.ids(),
                self.next_item == old(self).next_item,
                old(self).cache.bijective() && rows_admitted(uris, ids, view.take(n as int))
                    ==> self.cache.bijective(),
            decreases taken.len(),
        {
            let row = taken.pop().unwrap();
            assert(row@ == view[n as int]);
            let ghost next = view.take(n + 1);
            assert(next.drop_last() == view.take(n as int));
            assert(next.last() == view[n as int]);
            if self.cache.try_cache_attribute_row(row) {
                n += 1;
            } else {
                failed = true;
            }
        }
        if failed {
            proof {
                lemma_attribute_rows_stop(view, n as int);
            }
            return Err(AnyError::Decode);
        }
        assert(view.take(n as int) == view);
        Ok(())
    }

    /// The quads in the rows that came back for `read_quad`; fails where a row
    /// is not the row of a quad.
    pub fn read_quad_rows(&self, rows: &Vec<Row>) -> (r: Result<Vec<DatabaseQuad>, AnyError>)
        ensures
            r is Ok <==> forall|i: int| 0 <= i < rows.len() ==> quad_row(#[trigger] rows.deep_view()[i]),
            r matches Ok(quads) ==> quads.deep_view() == quads_of(rows.deep_view()),
            r matches Err(e) ==> e@ == AnyErrorView::Decode,
    {
        let ghost view = rows.deep_view();
        let mut out: Vec<DatabaseQuad> = Vec::new();
        let mut i: usize = 0;
        while i < rows.len()
            invariant
                i <= rows.len(),
                view == rows.deep_view(),
                out.len() == i,
                forall|j: int| 0 <= j < i ==> quad_row(#[trigger] view[j]),
                forall|j: int| 0 <= j < i ==> (#[trigger] out@[j])@ == quad_of_row(view[j]),
            decreases rows.len() - i,
        {
            assert(view[i as int] == rows@[i as int]@);
            match DatabaseQuad::try_from_row(&rows[i]) {
                Some(quad) => out.push(quad),
                None => return Err(AnyError::Decode),
            }
            i += 1;
        }
        assert(out.deep_view() =~= quads_of(view));
        Ok(out)
    }

    /// The items in the rows that came back for `select_collection`, in the
    /// order of the rows. Fails where a row is not the row of an item.
    pub fn select_collection_rows(&self, rows: &Vec<Row>) -> (r: Result<
        Vec<CollectionItem>,
        AnyError,
    >)
        ensures
            r is Ok <==> forall|i: int| 0 <= i < rows.len() ==> item_row(#[trigger] rows.deep_view()[i]),
            r matches Ok(items) ==> items@ == items_of(rows.deep_view()),
            r matches Err(e) ==> e@ == AnyErrorView::Decode,
    {
        let ghost view = rows.deep_view();
        let n = rows.len();
        let mut out: Vec<CollectionItem> = Vec::new();
        let mut i: usize = 0;
        while i < n
            invariant
                i <= n,
                n == rows.len(),
                view == rows.deep_view(),
                out.len() == i,
                forall|j: int| 0 <= j < i ==> item_row(#[trigger] view[j]),
                forall|j: int| 0 <= j < i ==> #[trigger] out@[j] == item_of_row(view[j]),
            decreases n - i,
        {
            assert(view[i as int] == rows@[i as int]@);
            match CollectionItem::try_from_row(&rows[i]) {
                Some(item) => out.push(item),
                None => return Err(AnyError::Decode),
            }
            i += 1;
        }
        assert(out@ =~= items_of(view));
        Ok(out)
    }

    /// The items in the rows that came back for `select_collection_inverse`,
    /// in the order of the rows. Fails where a row is not the row of an item.
    pub fn select_collection_inverse_rows(&self, rows: &Vec<Row>) -> (r: Result<
        Vec<CollectionItem>,
        AnyError,
    >)
        ensures
            r is Ok <==> forall|i: int| 0 <= i < rows.len() ==> item_row(#[trigger] rows.deep_view()[i]),
            r matches Ok(items) ==> items@ == items_of(rows.deep_view()),
            r matches Err(e) ==> e@ == AnyErrorView::Decode,
    {
        self.select_collection_rows(rows)
    }

    /// Whether the item was found: whether a row came back for
    /// `collection_contains`.
    pub fn collection_contains_rows(&self, rows: &Vec<Row>) -> (contains: bool)
        ensures
            contains == (rows.len() > 0),
    {
        rows.len() > 0
    }

    /// The entry that came back for `pop_queue`: none where no row came back,
    /// else the event and the data of the first row. Fails where the first
    /// row is not the row of a queue entry.
    pub fn pop_queue_rows(&self, rows: &Vec<Row>) -> (r: Result<Option<(String, String)>, AnyError>)
        ensures
            r is Ok <==> (rows.len() > 0 ==> queue_row(rows.deep_view()[0])),
            r matches Ok(entry) ==> (entry is None <==> rows.len() == 0),
            r matches Ok(Some(entry)) ==> entry.0@ == text_at(rows.deep_view()[0], 0) && entry.1@
                == text_at(rows.deep_view()[0], 1),
            r matches Err(e) ==> e@ == AnyErrorView::Decode,
    {
        if rows.len() == 0 {
            return Ok(None);
        }
        assert(rows.deep_view()[0] == rows@[0]@);
        let event = match rows[0].get::<String>(0) {
            Ok(Some(text)) => text,
            _ => return Err(AnyError::Decode),
        };
        let data = match rows[0].get::<String>(1) {
            Ok(Some(text)) => text,
            _ => return Err(AnyError::Decode),
        };
        Ok(Some((event, data)))
    }

    /// Translates the incoming quads into quads whose nodes are IRIs.
    pub fn translate_quads(&self, quads: Vec<DatabaseQuad>) -> (out: Vec<StringQuad>)
        requires
            forall|i: int|
                0 <= i < quads.len() ==> translatable(self.cache.uris(), #[trigger] quads.deep_view()[i]),
        ensures
            out.deep_view() == Seq::new(
                quads.len() as nat,
                |i: int| translated(self.cache.uris(), quads.deep_view()[i]),
            ),
    {
        let ghost view = quads.deep_view();
        let ghost uris = self.cache.uris();
        let mut quads = quads;
        let mut turned: Vec<StringQuad> = Vec::new();
        while quads.len() > 0
            invariant
                uris == self.cache.uris(),
                quads.len() + turned.len() == view.len(),
                forall|j: int| 0 <= j < quads.len() ==> (#[trigger] quads@[j])@ == view[j],
                forall|j: int| 0 <= j < view.len() ==> translatable(uris, #[trigger] view[j]),
                forall|j: int|
                    0 <= j < turned.len() ==> (#[trigger] turned@[j])@ == translated(
                        uris,
                        view[view.len() - 1 - j],
                    ),
            decreases quads.len(),
        {
            let quad = quads.pop().unwrap();
            assert(quad@ == view[quads.len() as int]);
            turned.push(self.cache.translate_quad(quad));
        }
        let mut out: Vec<StringQuad> = Vec::new();
        while turned.len() > 0
            invariant
                out.len() + turned.len() == view.len(),
                forall|j: int|
                    0 <= j < turned.len() ==> (#[trigger] turned@[j])@ == translated(
                        uris,
                        view[view.len() - 1 - j],
                    ),
                forall|j: int| 0 <= j < out.len() ==> (#[trigger] out@[j])@ == translated(uris, view[j]),
            decreases turned.len(),
        {
            let quad = turned.pop().unwrap();
            out.push(quad);
        }
        assert(out.deep_view() =~= Seq::new(view.len(), |i: int| translated(uris, view[i])));
        out
    }
}

/// Where the row at `at` is not the row of an attribute and all before it
/// are, `at` rows are rows of attributes.
proof fn lemma_attribute_rows_stop(rows: Seq<Seq<Option<Seq<u8>>>>, at: int)
    requires
        0 <= at < rows.len(),
        attribute_rows(rows.take(at)) == at,
        !attribute_row(rows[at]),
    ensures
        attribute_rows(rows) == at,
    decreases rows.len(),
{
    if rows.len() == at + 1 {
        assert(rows.drop_last() == rows.take(at));
    } else {
        assert(rows.drop_last().take(at) == rows.take(at));
        lemma_attribute_rows_stop(rows.drop_last(), at);
    }
}

} // verus!
