//! The values that the entity, collection and queue operations exchange with
//! their callers.

use vstd::prelude::*;

verus! {

/// What a quad says of its subject: another node, or a literal with its
/// datatype and an optional language tag.
pub enum QuadContents {
    Id(String),
    Object(String, String, Option<String>),
}

/// A quad whose nodes are given by their IRIs.
pub struct StringQuad {
    pub subject_id: String,
    pub predicate_id: String,
    pub contents: QuadContents,
}

pub enum QuadContentsView {
    Id(Seq<char>),
    Object(Seq<char>, Seq<char>, Option<Seq<char>>),
}

pub struct StringQuadView {
    pub subject_id: Seq<char>,
    pub predicate_id: Seq<char>,
    pub contents: QuadContentsView,
}

/// The text of an optional string.
pub open spec fn opt_text(s: Option<String>) -> Option<Seq<char>> {
    match s {
        Some(s) => Some(s@),
        None => None,
    }
}

impl View for QuadContents {
    type V = QuadContentsView;

    open spec fn view(&self) -> QuadContentsView {
        match self {
            QuadContents::Id(id) => QuadContentsView::Id(id@),
            QuadContents::Object(type_id, value, language) => QuadContentsView::Object(
                type_id@,
                value@,
                opt_text(*language),
            ),
        }
    }
}

impl DeepView for QuadContents {
    type V = QuadContentsView;

    open spec fn deep_view(&self) -> QuadContentsView {
        self@
    }
}

impl View for StringQuad {
    type V = StringQuadView;

    open spec fn view(&self) -> StringQuadView {
        StringQuadView {
            subject_id: self.subject_id@,
            predicate_id: self.predicate_id@,
            contents: self.contents@,
        }
    }
}

impl DeepView for StringQuad {
    type V = StringQuadView;

    open spec fn deep_view(&self) -> StringQuadView {
        self@
    }
}

/// A window into a collection: its items, and the cursors that continue the
/// listing on either side.
pub struct CollectionPointer {
    pub items: Vec<String>,
    pub after: Option<String>,
    pub before: Option<String>,
    pub count: Option<u32>,
}

pub struct CollectionPointerView {
    pub items: Seq<Seq<char>>,
    pub after: Option<Seq<char>>,
    pub before: Option<Seq<char>>,
    pub count: Option<u32>,
}

impl View for CollectionPointer {
    type V = CollectionPointerView;

    open spec fn view(&self) -> CollectionPointerView {
        CollectionPointerView {
            items: self.items.deep_view(),
            after: opt_text(self.after),
            before: opt_text(self.before),
            count: self.count,
        }
    }
}

/// An entry of the work queue.
pub struct QueueItem {
    pub id: i32,
    pub event: String,
    pub data: String,
}

pub struct QueueItemView {
    pub id: i32,
    pub event: Seq<char>,
    pub data: Seq<char>,
}

impl View for QueueItem {
    type V = QueueItemView;

    open spec fn view(&self) -> QueueItemView {
        QueueItemView { id: self.id, event: self.event@, data: self.data@ }
    }
}

/// What one position of a triple pattern asks for.
pub enum QueryId {
    /// The position holds this IRI.
    Value(String),
    /// The position is bound to a placeholder; all positions that share it are
    /// equal.
    Placeholder(String),
    /// The position holds one of these IRIs.
    Any(Vec<String>),
    /// Nothing is asked of the position.
    Ignore,
}

/// What a triple pattern asks of the object.
pub enum QueryObject {
    Id(QueryId),
    Object { value: String, type_id: QueryId },
    LanguageString { value: String, language: String },
}

/// A triple pattern: subject, predicate, object.
pub struct QuadQuery(pub QueryId, pub QueryId, pub QueryObject);

pub enum QueryIdView {
    Value(Seq<char>),
    Placeholder(Seq<char>),
    Any(Seq<Seq<char>>),
    Ignore,
}

pub enum QueryObjectView {
    Id(QueryIdView),
    Object { value: Seq<char>, type_id: QueryIdView },
    LanguageString { value: Seq<char>, language: Seq<char> },
}

pub struct QuadQueryView(pub QueryIdView, pub QueryIdView, pub QueryObjectView);

impl View for QueryId {
    type V = QueryIdView;

    open spec fn view(&self) -> QueryIdView {
        match self {
            QueryId::Value(iri) => QueryIdView::Value(iri@),
            QueryId::Placeholder(key) => QueryIdView::Placeholder(key@),
            QueryId::Any(iris) => QueryIdView::Any(iris.deep_view()),
            QueryId::Ignore => QueryIdView::Ignore,
        }
    }
}

impl View for QueryObject {
    type V = QueryObjectView;

    open spec fn view(&self) -> QueryObjectView {
        match self {
            QueryObject::Id(id) => QueryObjectView::Id(id@),
            QueryObject::Object { value, type_id } => QueryObjectView::Object {
                value: value@,
                type_id: type_id@,
            },
            QueryObject::LanguageString { value, language } => QueryObjectView::LanguageString {
                value: value@,
                language: language@,
            },
        }
    }
}

impl View for QuadQuery {
    type V = QuadQueryView;

    open spec fn view(&self) -> QuadQueryView {
        QuadQueryView(self.0@, self.1@, self.2@)
    }
}

impl DeepView for QuadQuery {
    type V = QuadQueryView;

    open spec fn deep_view(&self) -> QuadQueryView {
        self@
    }
}

} // verus!
