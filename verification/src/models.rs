//! The rows of the tables, column by column.

use vstd::prelude::*;

verus! {

/// A row of the attribute table: an IRI and its surrogate id.
#[derive(Debug)]
pub struct Attribute {
    pub id: i32,
    pub url: String,
}

/// An IRI that has no row yet.
#[derive(Debug)]
pub struct NewAttribute<'a> {
    pub url: &'a str,
}

/// A row of the quad table. Either `attribute_id` is set, or `object` is,
/// together with `type_id` or `language`.
#[derive(Debug)]
pub struct Quad {
    pub id: i32,
    pub quad_id: i32,
    pub subject_id: i32,
    pub predicate_id: i32,
    pub attribute_id: Option<i32>,
    pub object: Option<String>,
    pub type_id: Option<i32>,
    pub language: Option<String>,
}

/// A quad that has no row yet.
#[derive(Debug)]
pub struct InsertableQuad {
    pub quad_id: i32,
    pub subject_id: i32,
    pub predicate_id: i32,
    pub attribute_id: Option<i32>,
    pub object: Option<String>,
    pub type_id: Option<i32>,
    pub language: Option<String>,
}

/// A row of the collection table.
#[derive(Debug)]
pub struct CollectionItem {
    pub id: i32,
    pub collection_id: i32,
    pub object_id: i32,
}

/// A collection item that has no row yet.
#[derive(Debug)]
pub struct InsertableCollectionItem {
    pub collection_id: i32,
    pub object_id: i32,
}

pub struct InsertableQuadView {
    pub quad_id: i32,
    pub subject_id: i32,
    pub predicate_id: i32,
    pub attribute_id: Option<i32>,
    pub object: Option<Seq<char>>,
    pub type_id: Option<i32>,
    pub language: Option<Seq<char>>,
}

impl DeepView for InsertableQuad {
    type V = InsertableQuadView;

    open spec fn deep_view(&self) -> InsertableQuadView {
        InsertableQuadView {
            quad_id: self.quad_id,
            subject_id: self.subject_id,
            predicate_id: self.predicate_id,
            attribute_id: self.attribute_id,
            object: self.object.deep_view(),
            type_id: self.type_id,
            language: self.language.deep_view(),
        }
    }
}

} // verus!
