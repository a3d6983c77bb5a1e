//! The listing of a collection page by page: what the pages of a collection
//! are, and that whoever follows the cursors meets each item once and comes
//! to an end.

use crate::entitystore::{after_of, ascending, before_of, descending, ended, Window};
use crate::types::CollectionItem;
use vstd::prelude::*;

verus! {

/// How many items at the front of `table` have an id above `offset`.
pub open spec fn above(table: Seq<CollectionItem>, offset: int) -> nat
    decreases table.len(),
{
    if table.len() == 0 || table.first().id <= offset {
        0
    } else {
        1 + above(table.drop_first(), offset)
    }
}

/// The descending page of a collection whose items stand in `table`, the
/// greatest id first: the first `limit` of the items whose id is `offset` or
/// less.
pub open spec fn page_down(table: Seq<CollectionItem>, offset: i32, limit: i32) -> Seq<
    CollectionItem,
> {
    let from = above(table, offset as int);
    let to = if from + limit <= table.len() {
        from + limit
    } else {
        table.len() as int
    };
    table.subrange(from as int, to)
}

/// The window of the descending page at `offset`.
pub open spec fn down(offset: i32, limit: i32) -> Window {
    Window { until: true, offset, limit }
}

/// What is listed by reading descending pages from `offset` on, each next
/// page at the `before` cursor of the one before, until a page has none.
pub open spec fn listing_down(table: Seq<CollectionItem>, offset: i32, limit: i32) -> Seq<
    CollectionItem,
>
    decreases offset - i32::MIN,
{
    let page = page_down(table, offset, limit);
    match before_of(page, down(offset, limit)) {
        Some(next) if next < offset => page + listing_down(table, next, limit),
        _ => page,
    }
}

/// How many pages are read for `listing_down`.
pub open spec fn pages_down(table: Seq<CollectionItem>, offset: i32, limit: i32) -> nat
    decreases offset - i32::MIN,
{
    let page = page_down(table, offset, limit);
    match before_of(page, down(offset, limit)) {
        Some(next) if next < offset => 1 + pages_down(table, next, limit),
        _ => 1,
    }
}

/// In a descending table the items above an offset are those at the front,
/// as many as `above` says.
pub proof fn lemma_above(table: Seq<CollectionItem>, offset: int)
    requires
        descending(table),
    ensures
        above(table, offset) <= table.len(),
        forall|i: int| 0 <= i < above(table, offset) ==> (#[trigger] table[i]).id > offset,
        forall|i: int| above(table, offset) <= i < table.len() ==> (#[trigger] table[i]).id <= offset,
    decreases table.len(),
{
    if table.len() == 0 {
    } else if table.first().id <= offset {
        assert forall|i: int| 0 <= i < table.len() implies (#[trigger] table[i]).id <= offset by {
            if i > 0 {
                assert(table[0].id > table[i].id);
            }
        }
    } else {
        let rest = table.drop_first();
        assert forall|i: int, j: int| 0 <= i < j < rest.len() implies rest[i].id > rest[j].id by {
            assert(table[i + 1].id > table[j + 1].id);
        }
        lemma_above(rest, offset);
        assert forall|i: int| 0 <= i < above(table, offset) implies (#[trigger] table[i]).id
            > offset by {
            if i > 0 {
                assert(table[i] == rest[i - 1]);
            }
        }
        assert forall|i: int| above(table, offset) <= i < table.len() implies (
        #[trigger] table[i]).id <= offset by {
            assert(table[i] == rest[i - 1]);
        }
    }
}

/// The place where the ids of a descending table come down to an offset is
/// the number of items above that offset.
pub proof fn lemma_above_is(table: Seq<CollectionItem>, offset: int, k: int)
    requires
        descending(table),
        0 <= k <= table.len(),
        forall|i: int| 0 <= i < k ==> (#[trigger] table[i]).id > offset,
        k < table.len() ==> table[k].id <= offset,
    ensures
        above(table, offset) == k,
{
    lemma_above(table, offset);
    let a = above(table, offset) as int;
    if a < k {
        assert(table[a].id > offset);
    } else if a > k {
        assert(table[k].id > offset);
    }
}

/// Whoever reads a collection in descending pages of at least one item, the
/// first page from `offset` and each next page at the `before` cursor of the
/// page before, meets the items at and below `offset`, each once and in
/// descending order, and reads one page more, at most, than pages are filled.
pub proof fn lemma_listing_down(table: Seq<CollectionItem>, offset: i32, limit: i32)
    requires
        descending(table),
        limit >= 1,
    ensures
        listing_down(table, offset, limit) == table.skip(above(table, offset as int) as int),
        (pages_down(table, offset, limit) - 1) * limit <= table.len() - above(table, offset as int),
    decreases offset - i32::MIN,
{
    lemma_above(table, offset as int);
    let from = above(table, offset as int) as int;
    let page = page_down(table, offset, limit);
    let to = from + page.len();
    if ended(page, down(offset, limit)) {
        assert(to == table.len());
        assert(page =~= table.skip(from));
        assert((pages_down(table, offset, limit) - 1) * limit == 0) by (nonlinear_arith)
            requires
                pages_down(table, offset, limit) == 1,
        ;
    } else {
        assert(page.len() == limit);
        assert(page.last() == table[to - 1]);
        assert(table[to - 1].id <= offset);
        if table[to - 1].id == i32::MIN {
            if to < table.len() {
                assert(table[to - 1].id > table[to].id);
            }
            assert(page =~= table.skip(from));
            assert((pages_down(table, offset, limit) - 1) * limit == 0) by (nonlinear_arith)
                requires
                    pages_down(table, offset, limit) == 1,
            ;
        } else {
            let next = (table[to - 1].id - 1) as i32;
            assert(before_of(page, down(offset, limit)) == Some(next));
            assert forall|i: int| 0 <= i < to implies (#[trigger] table[i]).id > next by {
                if i < to - 1 {
                    assert(table[i].id > table[to - 1].id);
                }
            }
            if to < table.len() {
                assert(table[to - 1].id > table[to].id);
            }
            lemma_above_is(table, next as int, to);
            lemma_listing_down(table, next, limit);
            assert(listing_down(table, offset, limit) == page + table.skip(to));
            assert(page + table.skip(to) =~= table.skip(from));
            let rest = pages_down(table, next, limit);
            assert(pages_down(table, offset, limit) == 1 + rest);
            assert((1 + rest - 1) * limit <= table.len() - from) by (nonlinear_arith)
                requires
                    (rest - 1) * limit <= table.len() - to,
                    to == from + limit,
            ;
        }
    }
}

/// Whoever reads a collection in descending pages of at least one item, from
/// no cursor on and each next page at the `before` cursor of the page before,
/// meets every item of the collection once, in descending order, and stops
/// after one page more, at most, than the items fill.
pub proof fn lemma_listing_meets_every_item_once(table: Seq<CollectionItem>, limit: i32)
    requires
        descending(table),
        limit >= 1,
    ensures
        listing_down(table, i32::MAX, limit) == table,
        (pages_down(table, i32::MAX, limit) - 1) * limit <= table.len(),
{
    lemma_listing_down(table, i32::MAX, limit);
    lemma_above(table, i32::MAX as int);
    if above(table, i32::MAX as int) > 0 {
        assert(table[0].id > i32::MAX);
    }
    assert(table.skip(0) =~= table);
}

/// How many items at the front of `table` have an id below `offset`.
pub open spec fn below(table: Seq<CollectionItem>, offset: int) -> nat
    decreases table.len(),
{
    if table.len() == 0 || table.first().id >= offset {
        0
    } else {
        1 + below(table.drop_first(), offset)
    }
}

/// The ascending page of a collection whose items stand in `table`, the
/// least id first: the first `limit` of the items whose id is `offset` or
/// more.
pub open spec fn page_up(table: Seq<CollectionItem>, offset: i32, limit: i32) -> Seq<
    CollectionItem,
> {
    let from = below(table, offset as int);
    let to = if from + limit <= table.len() {
        from + limit
    } else {
        table.len() as int
    };
    table.subrange(from as int, to)
}

/// The window of the ascending page at `offset`.
pub open spec fn up(offset: i32, limit: i32) -> Window {
    Window { until: false, offset, limit }
}

/// What is listed by reading ascending pages from `offset` on, each next
/// page at the `after` cursor of the one before, until a page has none.
pub open spec fn listing_up(table: Seq<CollectionItem>, offset: i32, limit: i32) -> Seq<
    CollectionItem,
>
    decreases i32::MAX - offset,
{
    let page = page_up(table, offset, limit);
    match after_of(page, up(offset, limit)) {
        Some(next) if next > offset => page + listing_up(table, next, limit),
        _ => page,
    }
}

/// How many pages are read for `listing_up`.
pub open spec fn pages_up(table: Seq<CollectionItem>, offset: i32, limit: i32) -> nat
    decreases i32::MAX - offset,
{
    let page = page_up(table, offset, limit);
    match after_of(page, up(offset, limit)) {
        Some(next) if next > offset => 1 + pages_up(table, next, limit),
        _ => 1,
    }
}

/// In an ascending table the items below an offset are those at the front,
/// as many as `below` says.
pub proof fn lemma_below(table: Seq<CollectionItem>, offset: int)
    requires
        ascending(table),
    ensures
        below(table, offset) <= table.len(),
        forall|i: int| 0 <= i < below(table, offset) ==> (#[trigger] table[i]).id < offset,
        forall|i: int| below(table, offset) <= i < table.len() ==> (#[trigger] table[i]).id >= offset,
    decreases table.len(),
{
    if table.len() == 0 {
    } else if table.first().id >= offset {
        assert forall|i: int| 0 <= i < table.len() implies (#[trigger] table[i]).id >= offset by {
            if i > 0 {
                assert(table[0].id < table[i].id);
            }
        }
    } else {
        let rest = table.drop_first();
        assert forall|i: int, j: int| 0 <= i < j < rest.len() implies rest[i].id < rest[j].id by {
            assert(table[i + 1].id < table[j + 1].id);
        }
        lemma_below(rest, offset);
        assert forall|i: int| 0 <= i < below(table, offset) implies (#[trigger] table[i]).id
            < offset by {
            if i > 0 {
                assert(table[i] == rest[i - 1]);
            }
        }
        assert forall|i: int| below(table, offset) <= i < table.len() implies (
        #[trigger] table[i]).id >= offset by {
            assert(table[i] == rest[i - 1]);
        }
    }
}

/// The place where the ids of an ascending table come up to an offset is
/// the number of items below that offset.
pub proof fn lemma_below_is(table: Seq<CollectionItem>, offset: int, k: int)
    requires
        ascending(table),
        0 <= k <= table.len(),
        forall|i: int| 0 <= i < k ==> (#[trigger] table[i]).id < offset,
        k < table.len() ==> table[k].id >= offset,
    ensures
        below(table, offset) == k,
{
    lemma_below(table, offset);
    let a = below(table, offset) as int;
    if a < k {
        assert(table[a].id < offset);
    } else if a > k {
        assert(table[k].id < offset);
    }
}

/// Whoever reads a collection in ascending pages of at least one item, the
/// first page from `offset` and each next page at the `after` cursor of the
/// page before, meets the items at and above `offset`, each once and in
/// ascending order, and reads one page more, at most, than pages are filled.
pub proof fn lemma_listing_up(table: Seq<CollectionItem>, offset: i32, limit: i32)
    requires
        ascending(table),
        limit >= 1,
    ensures
        listing_up(table, offset, limit) == table.skip(below(table, offset as int) as int),
        (pages_up(table, offset, limit) - 1) * limit <= table.len() - below(table, offset as int),
    decreases i32::MAX - offset,
{
    lemma_below(table, offset as int);
    let from = below(table, offset as int) as int;
    let page = page_up(table, offset, limit);
    let to = from + page.len();
    if ended(page, up(offset, limit)) {
        assert(to == table.len());
        assert(page =~= table.skip(from));
        assert((pages_up(table, offset, limit) - 1) * limit == 0) by (nonlinear_arith)
            requires
                pages_up(table, offset, limit) == 1,
        ;
    } else {
        assert(page.len() == limit);
        assert(page.last() == table[to - 1]);
        assert(table[to - 1].id >= offset);
        if table[to - 1].id == i32::MAX {
            if to < table.len() {
                assert(table[to - 1].id < table[to].id);
            }
            assert(page =~= table.skip(from));
            assert((pages_up(table, offset, limit) - 1) * limit == 0) by (nonlinear_arith)
                requires
                    pages_up(table, offset, limit) == 1,
            ;
        } else {
            let next = (table[to - 1].id + 1) as i32;
            assert(after_of(page, up(offset, limit)) == Some(next));
            assert forall|i: int| 0 <= i < to implies (#[trigger] table[i]).id < next by {
                if i < to - 1 {
                    assert(table[i].id < table[to - 1].id);
                }
            }
            if to < table.len() {
                assert(table[to - 1].id < table[to].id);
            }
            lemma_below_is(table, next as int, to);
            lemma_listing_up(table, next, limit);
            assert(listing_up(table, offset, limit) == page + table.skip(to));
            assert(page + table.skip(to) =~= table.skip(from));
            let rest = pages_up(table, next, limit);
            assert(pages_up(table, offset, limit) == 1 + rest);
            assert((1 + rest - 1) * limit <= table.len() - from) by (nonlinear_arith)
                requires
                    (rest - 1) * limit <= table.len() - to,
                    to == from + limit,
            ;
        }
    }
}

} // verus!
