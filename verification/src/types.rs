//! Rows of the collection table.

use crate::codec::{column_set, Row};
use crate::dbquad::{int_at, int_column};
use vstd::prelude::*;

verus! {

/// An item of a collection: the id of the row, which is its place in the
/// collection, the collection, and the object.
#[derive(Clone, Copy)]
pub struct CollectionItem {
    pub id: i32,
    pub collection_id: i32,
    pub object_id: i32,
}

impl DeepView for CollectionItem {
    type V = CollectionItem;

    open spec fn deep_view(&self) -> CollectionItem {
        *self
    }
}

/// Whether a row is that of a collection item: three numbers.
pub open spec fn item_row(row: Seq<Option<Seq<u8>>>) -> bool {
    &&& column_set::<i32>(row, 0)
    &&& column_set::<i32>(row, 1)
    &&& column_set::<i32>(row, 2)
}

/// The collection item in its row.
pub open spec fn item_of_row(row: Seq<Option<Seq<u8>>>) -> CollectionItem {
    CollectionItem {
        id: int_at(row, 0),
        collection_id: int_at(row, 1),
        object_id: int_at(row, 2),
    }
}

impl CollectionItem {
    /// The item in `row`, where `row` is the row of a collection item.
    pub fn try_from_row(row: &Row) -> (item: Option<CollectionItem>)
        ensures
            item is Some <==> item_row(row@),
            item matches Some(it) ==> it == item_of_row(row@),
    {
        let id = match int_column(row, 0) {
            Some(n) => n,
            None => return None,
        };
        let collection_id = match int_column(row, 1) {
            Some(n) => n,
            None => return None,
        };
        let object_id = match int_column(row, 2) {
            Some(n) => n,
            None => return None,
        };
        Some(CollectionItem { id, collection_id, object_id })
    }

    /// The item in the row of a collection item.
    pub fn make_from_row(row: &Row) -> (item: CollectionItem)
        requires
            item_row(row@),
        ensures
            item == item_of_row(row@),
    {
        CollectionItem::try_from_row(row).unwrap()
    }
}

} // verus!
