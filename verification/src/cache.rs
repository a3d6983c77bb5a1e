//! The interning cache: the IRIs that a store handle has met, by surrogate id
//! and by text.

use crate::codec::{column_set, Row};
use crate::dbquad::{int_at, int_column, text_at, DatabaseQuad, DatabaseQuadContents, DatabaseQuadContentsView, DatabaseQuadView};
use crate::tap::{QuadContents, QuadContentsView, StringQuad, StringQuadView};
use std::collections::HashMap;
use vstd::prelude::*;
use vstd::string::StringExecFns;

verus! {

broadcast use vstd::std_specs::hash::group_hash_axioms;

/// The map that a list of (IRI, id) entries stands for: a later entry for the
/// same IRI replaces an earlier one.
pub open spec fn table_map(entries: Seq<(String, i32)>) -> Map<Seq<char>, i32>
    decreases entries.len(),
{
    if entries.len() == 0 {
        Map::empty()
    } else {
        table_map(entries.drop_last()).insert(entries.last().0@, entries.last().1)
    }
}

/// A key that no entry from `from` on holds is looked up in the entries before.
proof fn lemma_table_map_skip(entries: Seq<(String, i32)>, from: int, key: Seq<char>)
    requires
        0 <= from <= entries.len(),
        forall|j: int| from <= j < entries.len() ==> (#[trigger] entries[j]).0@ != key,
    ensures
        table_map(entries).contains_key(key) == table_map(entries.take(from)).contains_key(key),
        table_map(entries).contains_key(key) ==> table_map(entries)[key] == table_map(
            entries.take(from),
        )[key],
    decreases entries.len(),
{
    if from == entries.len() {
        assert(entries.take(from) == entries);
    } else {
        let front = entries.drop_last();
        assert(front.take(from) == entries.take(from));
        lemma_table_map_skip(front, from, key);
    }
}

/// The IRIs that have an id, with their ids. Adding never removes an IRI.
#[derive(Debug)]
pub struct UriTable {
    entries: Vec<(String, i32)>,
}

impl View for UriTable {
    type V = Map<Seq<char>, i32>;

    closed spec fn view(&self) -> Map<Seq<char>, i32> {
        table_map(self.entries@)
    }
}

impl UriTable {
    /// A table without entries.
    pub fn new() -> (table: UriTable)
        ensures
            table@ == Map::<Seq<char>, i32>::empty(),
    {
        UriTable { entries: Vec::new() }
    }

    /// The id of `uri`, if it has one.
    pub fn get(&self, uri: &String) -> (id: Option<i32>)
        ensures
            id is Some <==> self@.contains_key(uri@),
            id matches Some(v) ==> v == self@[uri@],
    {
        let mut i: usize = self.entries.len();
        while i > 0
            invariant
                i <= self.entries.len(),
                forall|j: int| i <= j < self.entries.len() ==> (#[trigger] self.entries@[j]).0@ != uri@,
            decreases i,
        {
            i -= 1;
            if self.entries[i].0 == *uri {
                proof {
                    lemma_table_map_skip(self.entries@, i + 1, uri@);
                    assert(self.entries@.take(i + 1).drop_last() == self.entries@.take(i as int));
                }
                return Some(self.entries[i].1);
            }
        }
        proof {
            lemma_table_map_skip(self.entries@, 0, uri@);
        }
        None
    }

    /// Whether `uri` has an id.
    pub fn contains_key(&self, uri: &String) -> (found: bool)
        ensures
            found == self@.contains_key(uri@),
    {
        self.get(uri).is_some()
    }

    /// Gives `uri` the id `id`, in place of the one it had.
    pub fn insert(&mut self, uri: String, id: i32)
        ensures
            final(self)@ == old(self)@.insert(uri@, id),
    {
        self.entries.push((uri, id));
        assert(self.entries@.drop_last() == old(self).entries@);
    }
}

/// The texts of the IRIs in `ids`.
pub open spec fn uri_texts(ids: Map<i32, String>) -> Map<i32, Seq<char>> {
    ids.map_values(|uri: String| uri@)
}

/// Whether two maps hold the same pairs, one from ids to IRIs and one from
/// IRIs to ids: the id of an IRI has that IRI, and the IRI of an id has that
/// id.
pub open spec fn pairs_bijective(uris: Map<i32, Seq<char>>, ids: Map<Seq<char>, i32>) -> bool {
    &&& forall|uri: Seq<char>| #[trigger]
        ids.contains_key(uri) ==> uris.contains_key(ids[uri]) && uris[ids[uri]] == uri
    &&& forall|id: i32| #[trigger]
        uris.contains_key(id) ==> ids.contains_key(uris[id]) && ids[uris[id]] == id
}

/// Whether the pair (`id`, `uri`) can join two maps without giving an id a
/// second IRI or an IRI a second id.
pub open spec fn pair_admitted(
    uris: Map<i32, Seq<char>>,
    ids: Map<Seq<char>, i32>,
    id: i32,
    uri: Seq<char>,
) -> bool {
    &&& uris.contains_key(id) ==> uris[id] == uri
    &&& ids.contains_key(uri) ==> ids[uri] == id
}

/// Two maps that hold the same pairs still do after a pair that they admit
/// has joined both.
pub proof fn lemma_admitted_pair_keeps_bijective(
    uris: Map<i32, Seq<char>>,
    ids: Map<Seq<char>, i32>,
    id: i32,
    uri: Seq<char>,
)
    requires
        pairs_bijective(uris, ids),
        pair_admitted(uris, ids, id, uri),
    ensures
        pairs_bijective(uris.insert(id, uri), ids.insert(uri, id)),
{
    let uris2 = uris.insert(id, uri);
    let ids2 = ids.insert(uri, id);
    assert forall|u: Seq<char>| #[trigger] ids2.contains_key(u) implies uris2.contains_key(
        ids2[u],
    ) && uris2[ids2[u]] == u by {
        if u != uri {
            assert(ids.contains_key(u));
            assert(uris.contains_key(ids[u]));
        }
    }
    assert forall|i: i32| #[trigger] uris2.contains_key(i) implies ids2.contains_key(uris2[i])
        && ids2[uris2[i]] == i by {
        if i != id {
            assert(uris.contains_key(i));
            assert(ids.contains_key(uris[i]));
        }
    }
}

/// The two directions of the interning map. Entries are only ever added.
#[derive(Debug)]
pub struct EntityCache {
    pub id_to_uri: HashMap<i32, String>,
    pub uri_to_id: UriTable,
}

impl EntityCache {
    /// The IRI of each cached id.
    pub open spec fn uris(&self) -> Map<i32, Seq<char>> {
        uri_texts(self.id_to_uri@)
    }

    /// The id of each cached IRI.
    pub open spec fn ids(&self) -> Map<Seq<char>, i32> {
        self.uri_to_id@
    }

    /// Whether the two directions hold the same pairs.
    pub open spec fn bijective(&self) -> bool {
        pairs_bijective(self.uris(), self.ids())
    }

    /// Whether the pair (`id`, `uri`) can join the cache without giving an id
    /// a second IRI or an IRI a second id.
    pub open spec fn admits(&self, id: i32, uri: Seq<char>) -> bool {
        pair_admitted(self.uris(), self.ids(), id, uri)
    }

    /// A cache without entries.
    pub fn new() -> (cache: EntityCache)
        ensures
            cache.uris() == Map::<i32, Seq<char>>::empty(),
            cache.ids() == Map::<Seq<char>, i32>::empty(),
            cache.bijective(),
    {
        let cache = EntityCache { id_to_uri: HashMap::new(), uri_to_id: UriTable::new() };
        assert(cache.uris() =~= Map::<i32, Seq<char>>::empty());
        cache
    }

    /// Records that `id` stands for `uri`, in both directions.
    pub fn intern(&mut self, id: i32, uri: String)
        ensures
            final(self).uris() == old(self).uris().insert(id, uri@),
            final(self).ids() == old(self).ids().insert(uri@, id),
            old(self).bijective() && old(self).admits(id, uri@) ==> final(self).bijective(),
    {
        let ghost text = uri@;
        self.id_to_uri.insert(id, uri.clone());
        self.uri_to_id.insert(uri, id);
        assert(self.uris() =~= old(self).uris().insert(id, text));
        proof {
            if old(self).bijective() && old(self).admits(id, text) {
                lemma_admitted_pair_keeps_bijective(
                    old(self).uris(),
                    old(self).ids(),
                    id,
                    text,
                );
            }
        }
    }

    /// The id of `uri`, if it is cached.
    pub fn id_of(&self, uri: &String) -> (id: Option<i32>)
        ensures
            id is Some <==> self.ids().contains_key(uri@),
            id matches Some(v) ==> v == self.ids()[uri@],
    {
        self.uri_to_id.get(uri)
    }

    /// The IRI of `id`, if it is cached.
    pub fn uri_of(&self, id: i32) -> (uri: Option<&String>)
        ensures
            uri is Some <==> self.uris().contains_key(id),
            uri matches Some(text) ==> text@ == self.uris()[id],
    {
        self.id_to_uri.get(&id)
    }

    /// Whether every IRI of `uris` is cached.
    pub fn knows(&self, uris: &Vec<String>) -> (all: bool)
        ensures
            all == forall|i: int|
                0 <= i < uris.len() ==> self.ids().contains_key(#[trigger] uris.deep_view()[i]),
    {
        let mut i: usize = 0;
        while i < uris.len()
            invariant
                i <= uris.len(),
                forall|j: int| 0 <= j < i ==> self.ids().contains_key(#[trigger] uris.deep_view()[j]),
            decreases uris.len() - i,
        {
            assert(uris.deep_view()[i as int] == uris@[i as int]@);
            if !self.uri_to_id.contains_key(&uris[i]) {
                return false;
            }
            i += 1;
        }
        true
    }

    /// Whether the IRI of every id of `ids` is cached.
    pub fn knows_ids(&self, ids: &Vec<i32>) -> (all: bool)
        ensures
            all == forall|i: int| 0 <= i < ids.len() ==> self.uris().contains_key(#[trigger] ids@[i]),
    {
        let mut i: usize = 0;
        while i < ids.len()
            invariant
                i <= ids.len(),
                forall|j: int| 0 <= j < i ==> self.uris().contains_key(#[trigger] ids@[j]),
            decreases ids.len() - i,
        {
            if self.uri_of(ids[i]).is_none() {
                return false;
            }
            i += 1;
        }
        true
    }

    /// Caches the pair in the row of an attribute.
    pub fn cache_attribute_row(&mut self, row: Row)
        requires
            attribute_row(row@),
        ensures
            final(self).uris() == old(self).uris().insert(int_at(row@, 0), text_at(row@, 1)),
            final(self).ids() == old(self).ids().insert(text_at(row@, 1), int_at(row@, 0)),
            old(self).bijective() && old(self).admits(int_at(row@, 0), text_at(row@, 1))
                ==> final(self).bijective(),
    {
        let id = row.get::<i32>(0).unwrap().unwrap();
        let uri = row.get::<String>(1).unwrap().unwrap();
        self.intern(id, uri);
    }

    /// Caches the pair in `row` and says so, where `row` is the row of an
    /// attribute; else leaves the cache as it is.
    pub fn try_cache_attribute_row(&mut self, row: Row) -> (done: bool)
        ensures
            done == attribute_row(row@),
            done ==> final(self).uris() == old(self).uris().insert(
                int_at(row@, 0),
                text_at(row@, 1),
            ) && final(self).ids() == old(self).ids().insert(text_at(row@, 1), int_at(row@, 0)),
            !done ==> final(self).uris() == old(self).uris() && final(self).ids() == old(
                self,
            ).ids(),
            old(self).bijective() && (done ==> old(self).admits(int_at(row@, 0), text_at(row@, 1)))
                ==> final(self).bijective(),
    {
        let id = match int_column(&row, 0) {
            Some(n) => n,
            None => return false,
        };
        let uri = match row.get::<String>(1) {
            Ok(Some(text)) => text,
            _ => return false,
        };
        self.intern(id, uri);
        true
    }

    /// The quad with each id replaced by its IRI.
    pub fn translate_quad(&self, quad: DatabaseQuad) -> (out: StringQuad)
        requires
            translatable(self.uris(), quad@),
        ensures
            out@ == translated(self.uris(), quad@),
    {
        let contents = match quad.contents {
            DatabaseQuadContents::Id(id) => QuadContents::Id(self.uri_of(id).unwrap().clone()),
            DatabaseQuadContents::Object { contents, type_id } => QuadContents::Object(
                self.uri_of(type_id).unwrap().clone(),
                contents,
                None,
            ),
            DatabaseQuadContents::LanguageString { contents, language } => QuadContents::Object(
                String::from_str(LANG_STRING),
                contents,
                Some(language),
            ),
        };
        StringQuad {
            subject_id: self.uri_of(quad.subject_id).unwrap().clone(),
            predicate_id: self.uri_of(quad.predicate_id).unwrap().clone(),
            contents,
        }
    }
}

/// The datatype of every text that has a language.
pub const LANG_STRING: &'static str = "http://www.w3.org/1999/02/22-rdf-syntax-ns#langString";

/// Whether a row is that of an attribute: a number and a text.
pub open spec fn attribute_row(row: Seq<Option<Seq<u8>>>) -> bool {
    column_set::<i32>(row, 0) && column_set::<String>(row, 1)
}

/// Whether `uris` holds the IRI of every node that the translation of `quad`
/// names: subject, predicate, and the node or the type of the contents.
pub open spec fn translatable(uris: Map<i32, Seq<char>>, quad: DatabaseQuadView) -> bool {
    &&& uris.contains_key(quad.subject_id)
    &&& uris.contains_key(quad.predicate_id)
    &&& match quad.contents {
        DatabaseQuadContentsView::Id(id) => uris.contains_key(id),
        DatabaseQuadContentsView::Object { type_id, .. } => uris.contains_key(type_id),
        DatabaseQuadContentsView::LanguageString { .. } => true,
    }
}

/// The quad with each id replaced by its IRI. A text with a language gets the
/// datatype of language-tagged strings.
pub open spec fn translated(uris: Map<i32, Seq<char>>, quad: DatabaseQuadView) -> StringQuadView {
    StringQuadView {
        subject_id: uris[quad.subject_id],
        predicate_id: uris[quad.predicate_id],
        contents: match quad.contents {
            DatabaseQuadContentsView::Id(id) => QuadContentsView::Id(uris[id]),
            DatabaseQuadContentsView::Object { contents, type_id } => QuadContentsView::Object(
                uris[type_id],
                contents,
                None,
            ),
            DatabaseQuadContentsView::LanguageString {
                contents,
                language,
            } => QuadContentsView::Object(LANG_STRING@, contents, Some(language)),
        },
    }
}

} // verus!
