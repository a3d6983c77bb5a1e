//! Quads as the database stores them: every node by its surrogate id.

use crate::codec::{column_ok, column_set, Row};
use crate::unique::{distinct, lemma_distinct, lemma_push_to_set};
use crate::wire::i32_of;
use std::collections::HashSet;
use vstd::prelude::*;
use vstd::utf8::decode_utf8;

verus! {

broadcast use vstd::std_specs::hash::group_hash_axioms;

/// The contents of a single database quad.
pub enum DatabaseQuadContents {
    /// This quad points to another subject.
    Id(i32),
    /// This quad consists of a type id, and the contents (serialized as string, like RDF)
    Object { contents: String, type_id: i32 },
    /// This quad consists of a string, and an associated language.
    LanguageString { contents: String, language: String },
}

/// The raw contents of a single database quad.
pub struct DatabaseQuad {
    pub id: i32,
    pub quad_id: i32,
    pub subject_id: i32,
    pub predicate_id: i32,
    pub contents: DatabaseQuadContents,
}

pub enum DatabaseQuadContentsView {
    Id(i32),
    Object { contents: Seq<char>, type_id: i32 },
    LanguageString { contents: Seq<char>, language: Seq<char> },
}

pub struct DatabaseQuadView {
    pub id: i32,
    pub quad_id: i32,
    pub subject_id: i32,
    pub predicate_id: i32,
    pub contents: DatabaseQuadContentsView,
}

impl View for DatabaseQuadContents {
    type V = DatabaseQuadContentsView;

    open spec fn view(&self) -> DatabaseQuadContentsView {
        match self {
            DatabaseQuadContents::Id(id) => DatabaseQuadContentsView::Id(*id),
            DatabaseQuadContents::Object { contents, type_id } => DatabaseQuadContentsView::Object {
                contents: contents@,
                type_id: *type_id,
            },
            DatabaseQuadContents::LanguageString {
                contents,
                language,
            } => DatabaseQuadContentsView::LanguageString {
                contents: contents@,
                language: language@,
            },
        }
    }
}

impl View for DatabaseQuad {
    type V = DatabaseQuadView;

    open spec fn view(&self) -> DatabaseQuadView {
        DatabaseQuadView {
            id: self.id,
            quad_id: self.quad_id,
            subject_id: self.subject_id,
            predicate_id: self.predicate_id,
            contents: self.contents@,
        }
    }
}

impl DeepView for DatabaseQuad {
    type V = DatabaseQuadView;

    open spec fn deep_view(&self) -> DatabaseQuadView {
        self@
    }
}

/// The number in column `i`.
pub open spec fn int_at(row: Seq<Option<Seq<u8>>>, i: int) -> i32 {
    i32_of(row[i]->0)
}

/// The text in column `i`.
pub open spec fn text_at(row: Seq<Option<Seq<u8>>>, i: int) -> Seq<char> {
    decode_utf8(row[i]->0)
}

/// Whether a row is that of a quad: id, graph, subject and predicate are
/// numbers; then come an optional number, an optional text, an optional
/// number and an optional text, of which the first is set, or the second
/// together with one of the last two.
pub open spec fn quad_row(row: Seq<Option<Seq<u8>>>) -> bool {
    &&& column_set::<i32>(row, 0)
    &&& column_set::<i32>(row, 1)
    &&& column_set::<i32>(row, 2)
    &&& column_set::<i32>(row, 3)
    &&& column_ok::<i32>(row, 4)
    &&& column_ok::<String>(row, 5)
    &&& column_ok::<i32>(row, 6)
    &&& column_ok::<String>(row, 7)
    &&& (row[4] is Some || (row[5] is Some && (row[7] is Some || row[6] is Some)))
}

/// What the last four columns of a quad's row say: a node where the
/// attribute is set; else a text with its language where the language is set;
/// else a text with its type.
pub open spec fn contents_of_row(row: Seq<Option<Seq<u8>>>) -> DatabaseQuadContentsView {
    if row[4] is Some {
        DatabaseQuadContentsView::Id(int_at(row, 4))
    } else if row[7] is Some {
        DatabaseQuadContentsView::LanguageString {
            contents: text_at(row, 5),
            language: text_at(row, 7),
        }
    } else {
        DatabaseQuadContentsView::Object { contents: text_at(row, 5), type_id: int_at(row, 6) }
    }
}

/// The quad in a quad's row.
pub open spec fn quad_of_row(row: Seq<Option<Seq<u8>>>) -> DatabaseQuadView {
    DatabaseQuadView {
        id: int_at(row, 0),
        quad_id: int_at(row, 1),
        subject_id: int_at(row, 2),
        predicate_id: int_at(row, 3),
        contents: contents_of_row(row),
    }
}

/// The number in column `i`, where the column holds one.
pub fn int_column(row: &Row, i: usize) -> (v: Option<i32>)
    ensures
        v is Some <==> column_set::<i32>(row@, i as int),
        v matches Some(n) ==> n == int_at(row@, i as int),
{
    match row.get::<i32>(i) {
        Ok(Some(n)) => Some(n),
        _ => None,
    }
}

impl DatabaseQuad {
    /// The quad in `row`, where `row` is the row of a quad.
    pub fn try_from_row(row: &Row) -> (quad: Option<DatabaseQuad>)
        ensures
            quad is Some <==> quad_row(row@),
            quad matches Some(q) ==> q@ == quad_of_row(row@),
    {
        let id = match int_column(row, 0) {
            Some(n) => n,
            None => return None,
        };
        let quad_id = match int_column(row, 1) {
            Some(n) => n,
            None => return None,
        };
        let subject_id = match int_column(row, 2) {
            Some(n) => n,
            None => return None,
        };
        let predicate_id = match int_column(row, 3) {
            Some(n) => n,
            None => return None,
        };
        let attribute = match row.get::<i32>(4) {
            Ok(v) => v,
            Err(_) => return None,
        };
        let object = match row.get::<String>(5) {
            Ok(v) => v,
            Err(_) => return None,
        };
        let type_id = match row.get::<i32>(6) {
            Ok(v) => v,
            Err(_) => return None,
        };
        let language = match row.get::<String>(7) {
            Ok(v) => v,
            Err(_) => return None,
        };
        let contents = if let Some(id) = attribute {
            DatabaseQuadContents::Id(id)
        } else if let Some(contents) = object {
            if let Some(language) = language {
                DatabaseQuadContents::LanguageString { contents, language }
            } else if let Some(type_id) = type_id {
                DatabaseQuadContents::Object { contents, type_id }
            } else {
                return None;
            }
        } else {
            return None;
        };
        Some(DatabaseQuad { id, quad_id, subject_id, predicate_id, contents })
    }

    /// The quad in the row of a quad.
    pub fn make_from_row(row: &Row) -> (quad: DatabaseQuad)
        requires
            quad_row(row@),
        ensures
            quad@ == quad_of_row(row@),
    {
        DatabaseQuad::try_from_row(row).unwrap()
    }
}

/// The ids that one quad uses: graph, subject, predicate, and the node or the
/// type of its contents.
pub open spec fn ids_of_quad(quad: DatabaseQuadView) -> Seq<i32> {
    seq![quad.quad_id, quad.subject_id, quad.predicate_id] + match quad.contents {
        DatabaseQuadContentsView::Id(id) => seq![id],
        DatabaseQuadContentsView::Object { type_id, .. } => seq![type_id],
        DatabaseQuadContentsView::LanguageString { .. } => Seq::empty(),
    }
}

/// The ids that a list of quads uses, in the order of their use and with
/// repetitions.
pub open spec fn ids_of_quads(quads: Seq<DatabaseQuadView>) -> Seq<i32>
    decreases quads.len(),
{
    if quads.len() == 0 {
        Seq::empty()
    } else {
        ids_of_quads(quads.drop_last()) + ids_of_quad(quads.last())
    }
}

/// The ids that a list of quads uses.
pub open spec fn quad_ids(quads: Seq<DatabaseQuadView>) -> Set<i32> {
    ids_of_quads(quads).to_set()
}

/// Notes that `id` is used: in the set, and in the list where it is new.
fn note(seen: &mut HashSet<i32>, order: &mut Vec<i32>, id: i32, Ghost(used): Ghost<Seq<i32>>)
    requires
        old(seen)@ == used.to_set(),
        old(order)@ == distinct(used),
    ensures
        final(seen)@ == used.push(id).to_set(),
        final(order)@ == distinct(used.push(id)),
{
    proof {
        lemma_distinct(used);
        lemma_push_to_set(used, id);
        assert(used.push(id).drop_last() == used);
    }
    if seen.insert(id) {
        order.push(id);
    }
}

/// The set and the list of the ids that `quads` use.
fn scan_quad_ids(quads: &[DatabaseQuad]) -> (r: (HashSet<i32>, Vec<i32>))
    ensures
        r.0@ == quad_ids(quads.deep_view()),
        r.1@ == distinct(ids_of_quads(quads.deep_view())),
{
    let ghost view = quads.deep_view();
    let mut seen: HashSet<i32> = HashSet::new();
    let mut order: Vec<i32> = Vec::new();
    let mut i: usize = 0;
    assert(view.take(0) =~= Seq::<DatabaseQuadView>::empty());
    assert(seen@ =~= ids_of_quads(view.take(0)).to_set());
    while i < quads.len()
        invariant
            i <= quads.len(),
            view == quads.deep_view(),
            seen@ == ids_of_quads(view.take(i as int)).to_set(),
            order@ == distinct(ids_of_quads(view.take(i as int))),
        decreases quads.len() - i,
    {
        let ghost done = ids_of_quads(view.take(i as int));
        let ghost next = view.take(i + 1);
        assert(next.drop_last() == view.take(i as int));
        assert(next.last() == view[i as int]);
        assert(view[i as int] == quads@[i as int]@);
        let quad = &quads[i];
        note(&mut seen, &mut order, quad.quad_id, Ghost(done));
        note(&mut seen, &mut order, quad.subject_id, Ghost(done.push(quad.quad_id)));
        note(
            &mut seen,
            &mut order,
            quad.predicate_id,
            Ghost(done.push(quad.quad_id).push(quad.subject_id)),
        );
        let ghost three = done.push(quad.quad_id).push(quad.subject_id).push(quad.predicate_id);
        match quad.contents {
            DatabaseQuadContents::Id(id) => {
                note(&mut seen, &mut order, id, Ghost(three));
                assert(three.push(id) =~= ids_of_quads(next));
            },
            DatabaseQuadContents::Object { type_id, .. } => {
                note(&mut seen, &mut order, type_id, Ghost(three));
                assert(three.push(type_id) =~= ids_of_quads(next));
            },
            DatabaseQuadContents::LanguageString { .. } => {
                assert(three =~= ids_of_quads(next));
            },
        }
        i += 1;
    }
    assert(view.take(i as int) == view);
    (seen, order)
}

/// Collects all IDs used inside the passed quads. Can be used to cache all the IDs.
pub fn collect_quad_ids(quads: &[DatabaseQuad]) -> (ids: HashSet<i32>)
    ensures
        ids@ == quad_ids(quads.deep_view()),
{
    scan_quad_ids(quads).0
}

/// The ids used inside the passed quads, each once, in the order of first use.
pub fn list_quad_ids(quads: &[DatabaseQuad]) -> (ids: Vec<i32>)
    ensures
        ids@ == distinct(ids_of_quads(quads.deep_view())),
        ids@.to_set() == quad_ids(quads.deep_view()),
        ids@.no_duplicates(),
{
    proof {
        lemma_distinct(ids_of_quads(quads.deep_view()));
    }
    scan_quad_ids(quads).1
}

} // verus!
