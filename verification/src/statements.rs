//! The fixed statements of the store, which are parsed once for each
//! connection, in the order in which they stand here.

use crate::statement::Statement;
use vstd::prelude::*;

verus! {

/// The statements that every connection prepares.
#[derive(Clone, Copy, PartialEq, Eq, Structural)]
pub enum StatementId {
    UpsertAttributes,
    SelectAttributes,
    SelectQuad,
    InsertQuads,
    DeleteQuads,
    InsertCollection,
    DeleteCollection,
    SelectCollection,
    SelectCollectionReverse,
    SelectCollectionInverse,
    FindCollection,
    QueueItemPop,
    QueueItemPut,
}

/// How many statements there are.
pub const STATEMENT_COUNT: usize = 13;

/// The place of a statement in the order of parsing.
pub open spec fn index_of(id: StatementId) -> int {
    match id {
        StatementId::UpsertAttributes => 0,
        StatementId::SelectAttributes => 1,
        StatementId::SelectQuad => 2,
        StatementId::InsertQuads => 3,
        StatementId::DeleteQuads => 4,
        StatementId::InsertCollection => 5,
        StatementId::DeleteCollection => 6,
        StatementId::SelectCollection => 7,
        StatementId::SelectCollectionReverse => 8,
        StatementId::SelectCollectionInverse => 9,
        StatementId::FindCollection => 10,
        StatementId::QueueItemPop => 11,
        StatementId::QueueItemPut => 12,
    }
}

/// The text of each statement.
pub open spec fn statement_text(id: StatementId) -> Seq<char> {
    match id {
        StatementId::UpsertAttributes => "with new_rows as (insert into attribute (url) select unnest($1::text[]) on conflict (url) do nothing returning id, url) select id, url from new_rows union distinct select id, url from attribute where url = any($1::text[])"@,
        StatementId::SelectAttributes => "select id, url from attribute where id = any($1)"@,
        StatementId::SelectQuad => "select id, quad_id, subject_id, predicate_id, attribute_id, object, type_id, language from quad where quad_id = $1"@,
        StatementId::InsertQuads => "insert into quad (quad_id, subject_id, predicate_id, attribute_id, object, type_id, language) select unnest($1::int[]), unnest($2::int[]), unnest($3::int[]), unnest($4::int[]), unnest($5::text[]), unnest($6::int[]), unnest($7::text[])"@,
        StatementId::DeleteQuads => "delete from quad where quad_id = $1"@,
        StatementId::InsertCollection => "insert into collection_item (collection_id, object_id) values ($1, $2) on conflict do nothing"@,
        StatementId::DeleteCollection => "delete from collection_item where collection_id = $1 and object_id = $2"@,
        StatementId::SelectCollection => "select id, collection_id, object_id from collection_item where collection_id = $1 and id >= $2 order by id asc limit $3"@,
        StatementId::SelectCollectionReverse => "select id, collection_id, object_id from collection_item where collection_id = $1 and id <= $2 order by id desc limit $3"@,
        StatementId::SelectCollectionInverse => "select id, collection_id, object_id from collection_item where object_id = $1"@,
        StatementId::FindCollection => "select id, collection_id, object_id from collection_item where collection_id = $1 and id = $2"@,
        StatementId::QueueItemPop => "delete from queue_item where id = (select id from queue_item order by id limit 1) returning event, data"@,
        StatementId::QueueItemPut => "insert into queue_item (event, data) values ($1, $2)"@,
    }
}

impl StatementId {
    /// The statement at place `index` in the order of parsing.
    pub fn at(index: usize) -> (id: Option<StatementId>)
        ensures
            id is Some <==> index < STATEMENT_COUNT,
            id matches Some(s) ==> index_of(s) == index,
    {
        match index {
            0 => Some(StatementId::UpsertAttributes),
            1 => Some(StatementId::SelectAttributes),
            2 => Some(StatementId::SelectQuad),
            3 => Some(StatementId::InsertQuads),
            4 => Some(StatementId::DeleteQuads),
            5 => Some(StatementId::InsertCollection),
            6 => Some(StatementId::DeleteCollection),
            7 => Some(StatementId::SelectCollection),
            8 => Some(StatementId::SelectCollectionReverse),
            9 => Some(StatementId::SelectCollectionInverse),
            10 => Some(StatementId::FindCollection),
            11 => Some(StatementId::QueueItemPop),
            12 => Some(StatementId::QueueItemPut),
            _ => None,
        }
    }

    /// The place of the statement in the order of parsing.
    pub fn index(self) -> (index: usize)
        ensures
            index == index_of(self),
            index < STATEMENT_COUNT,
    {
        match self {
            StatementId::UpsertAttributes => 0,
            StatementId::SelectAttributes => 1,
            StatementId::SelectQuad => 2,
            StatementId::InsertQuads => 3,
            StatementId::DeleteQuads => 4,
            StatementId::InsertCollection => 5,
            StatementId::DeleteCollection => 6,
            StatementId::SelectCollection => 7,
            StatementId::SelectCollectionReverse => 8,
            StatementId::SelectCollectionInverse => 9,
            StatementId::FindCollection => 10,
            StatementId::QueueItemPop => 11,
            StatementId::QueueItemPut => 12,
        }
    }

    /// The text of the statement.
    pub fn sql(self) -> (text: &'static str)
        ensures
            text@ == statement_text(self),
    {
        match self {
            StatementId::UpsertAttributes => "with new_rows as (insert into attribute (url) select unnest($1::text[]) on conflict (url) do nothing returning id, url) select id, url from new_rows union distinct select id, url from attribute where url = any($1::text[])",
            StatementId::SelectAttributes => "select id, url from attribute where id = any($1)",
            StatementId::SelectQuad => "select id, quad_id, subject_id, predicate_id, attribute_id, object, type_id, language from quad where quad_id = $1",
            StatementId::InsertQuads => "insert into quad (quad_id, subject_id, predicate_id, attribute_id, object, type_id, language) select unnest($1::int[]), unnest($2::int[]), unnest($3::int[]), unnest($4::int[]), unnest($5::text[]), unnest($6::int[]), unnest($7::text[])",
            StatementId::DeleteQuads => "delete from quad where quad_id = $1",
            StatementId::InsertCollection => "insert into collection_item (collection_id, object_id) values ($1, $2) on conflict do nothing",
            StatementId::DeleteCollection => "delete from collection_item where collection_id = $1 and object_id = $2",
            StatementId::SelectCollection => "select id, collection_id, object_id from collection_item where collection_id = $1 and id >= $2 order by id asc limit $3",
            StatementId::SelectCollectionReverse => "select id, collection_id, object_id from collection_item where collection_id = $1 and id <= $2 order by id desc limit $3",
            StatementId::SelectCollectionInverse => "select id, collection_id, object_id from collection_item where object_id = $1",
            StatementId::FindCollection => "select id, collection_id, object_id from collection_item where collection_id = $1 and id = $2",
            StatementId::QueueItemPop => "delete from queue_item where id = (select id from queue_item order by id limit 1) returning event, data",
            StatementId::QueueItemPut => "insert into queue_item (event, data) values ($1, $2)",
        }
    }
}

/// The prepared statements of one connection.
pub struct Statements {
    pub upsert_attributes: Statement,
    pub select_attributes: Statement,
    pub select_quad: Statement,
    pub insert_quads: Statement,
    pub delete_quads: Statement,
    pub insert_collection: Statement,
    pub delete_collection: Statement,
    pub select_collection: Statement,
    pub select_collection_reverse: Statement,
    pub select_collection_inverse: Statement,
    pub find_collection: Statement,
    pub queue_item_pop: Statement,
    pub queue_item_put: Statement,
}

impl Statements {
    /// The prepared statement for `id`.
    pub open spec fn of(&self, id: StatementId) -> Statement {
        match id {
            StatementId::UpsertAttributes => self.upsert_attributes,
            StatementId::SelectAttributes => self.select_attributes,
            StatementId::SelectQuad => self.select_quad,
            StatementId::InsertQuads => self.insert_quads,
            StatementId::DeleteQuads => self.delete_quads,
            StatementId::InsertCollection => self.insert_collection,
            StatementId::DeleteCollection => self.delete_collection,
            StatementId::SelectCollection => self.select_collection,
            StatementId::SelectCollectionReverse => self.select_collection_reverse,
            StatementId::SelectCollectionInverse => self.select_collection_inverse,
            StatementId::FindCollection => self.find_collection,
            StatementId::QueueItemPop => self.queue_item_pop,
            StatementId::QueueItemPut => self.queue_item_put,
        }
    }

    /// The registry of the statements that were parsed, where `parsed` holds
    /// one for each statement, in the order of parsing.
    pub fn make(parsed: Vec<Statement>) -> (made: Option<Statements>)
        ensures
            made is Some <==> parsed.len() == STATEMENT_COUNT,
            made matches Some(s) ==> forall|id: StatementId|
                #![trigger s.of(id)]
                s.of(id) == parsed@[index_of(id)],
    {
        let mut parsed = parsed;
        if parsed.len() != STATEMENT_COUNT {
            return None;
        }
        let ghost all = parsed@;
        let queue_item_put = parsed.pop().unwrap();
        let queue_item_pop = parsed.pop().unwrap();
        let find_collection = parsed.pop().unwrap();
        let select_collection_inverse = parsed.pop().unwrap();
        let select_collection_reverse = parsed.pop().unwrap();
        let select_collection = parsed.pop().unwrap();
        let delete_collection = parsed.pop().unwrap();
        let insert_collection = parsed.pop().unwrap();
        let delete_quads = parsed.pop().unwrap();
        let insert_quads = parsed.pop().unwrap();
        let select_quad = parsed.pop().unwrap();
        let select_attributes = parsed.pop().unwrap();
        let upsert_attributes = parsed.pop().unwrap();
        Some(
            Statements {
                upsert_attributes,
                select_attributes,
                select_quad,
                insert_quads,
                delete_quads,
                insert_collection,
                delete_collection,
                select_collection,
                select_collection_reverse,
                select_collection_inverse,
                find_collection,
                queue_item_pop,
                queue_item_put,
            },
        )
    }

    /// The prepared statement for `id`.
    pub fn get(&self, id: StatementId) -> (statement: &Statement)
        ensures
            *statement == self.of(id),
    {
        match id {
            StatementId::UpsertAttributes => &self.upsert_attributes,
            StatementId::SelectAttributes => &self.select_attributes,
            StatementId::SelectQuad => &self.select_quad,
            StatementId::InsertQuads => &self.insert_quads,
            StatementId::DeleteQuads => &self.delete_quads,
            StatementId::InsertCollection => &self.insert_collection,
            StatementId::DeleteCollection => &self.delete_collection,
            StatementId::SelectCollection => &self.select_collection,
            StatementId::SelectCollectionReverse => &self.select_collection_reverse,
            StatementId::SelectCollectionInverse => &self.select_collection_inverse,
            StatementId::FindCollection => &self.find_collection,
            StatementId::QueueItemPop => &self.queue_item_pop,
            StatementId::QueueItemPut => &self.queue_item_put,
        }
    }
}

} // verus!
