//! Lists without repetitions.

use vstd::prelude::*;

verus! {

/// `list` with `x` at its end, unless `x` is in it.
pub open spec fn with_item<T>(list: Seq<T>, x: T) -> Seq<T> {
    if list.contains(x) {
        list
    } else {
        list.push(x)
    }
}

/// `list` without repetitions: each element where it first occurs.
pub open spec fn distinct<T>(list: Seq<T>) -> Seq<T>
    decreases list.len(),
{
    if list.len() == 0 {
        Seq::empty()
    } else {
        with_item(distinct(list.drop_last()), list.last())
    }
}

/// What is in a list is in the list after `with_item`, and so is the item
/// that was added.
pub proof fn lemma_with_item<T>(list: Seq<T>, x: T)
    ensures
        with_item(list, x).contains(x),
        forall|y: T| list.contains(y) ==> #[trigger] with_item(list, x).contains(y),
        list.no_duplicates() ==> with_item(list, x).no_duplicates(),
{
    if !list.contains(x) {
        assert(list.push(x)[list.len() as int] == x);
        assert forall|y: T| list.contains(y) implies #[trigger] list.push(x).contains(y) by {
            let k = choose|k: int| 0 <= k < list.len() && list[k] == y;
            assert(list.push(x)[k] == y);
        }
    }
}

/// `distinct` keeps the elements and repeats none.
pub proof fn lemma_distinct<T>(list: Seq<T>)
    ensures
        distinct(list).to_set() == list.to_set(),
        distinct(list).no_duplicates(),
    decreases list.len(),
{
    if list.len() == 0 {
        assert(distinct(list).to_set() =~= list.to_set());
    } else {
        let front = list.drop_last();
        lemma_distinct(front);
        assert forall|x: T| distinct(list).to_set().contains(x) <==> list.to_set().contains(
            x,
        ) by {
            if distinct(list).contains(x) {
                let k = choose|k: int| 0 <= k < distinct(list).len() && distinct(list)[k] == x;
                if k < distinct(front).len() {
                    assert(distinct(front).to_set().contains(distinct(front)[k]));
                    assert(front.to_set().contains(x));
                    let j = choose|j: int| 0 <= j < front.len() && front[j] == x;
                    assert(list[j] == x);
                } else {
                    assert(list[list.len() - 1] == x);
                }
            }
            if list.contains(x) {
                let j = choose|j: int| 0 <= j < list.len() && list[j] == x;
                if j < front.len() {
                    assert(front[j] == x);
                    assert(front.to_set().contains(x));
                    assert(distinct(front).to_set().contains(x));
                    let k = choose|k: int|
                        0 <= k < distinct(front).len() && distinct(front)[k] == x;
                    assert(distinct(list)[k] == x);
                } else if distinct(front).contains(x) {
                    let k = choose|k: int|
                        0 <= k < distinct(front).len() && distinct(front)[k] == x;
                    assert(distinct(list)[k] == x);
                } else {
                    assert(distinct(list)[distinct(front).len() as int] == x);
                }
            }
        }
        assert(distinct(list).to_set() =~= list.to_set());
    }
}

/// The elements of a list with one more at its end are those of the list and
/// that one.
pub proof fn lemma_push_to_set<T>(list: Seq<T>, x: T)
    ensures
        list.push(x).to_set() == list.to_set().insert(x),
{
    assert forall|y: T| list.push(x).to_set().contains(y) <==> list.to_set().insert(x).contains(
        y,
    ) by {
        if list.push(x).contains(y) {
            let k = choose|k: int| 0 <= k < list.push(x).len() && list.push(x)[k] == y;
            if k < list.len() {
                assert(list[k] == y);
            }
        }
        if list.contains(y) {
            let k = choose|k: int| 0 <= k < list.len() && list[k] == y;
            assert(list.push(x)[k] == y);
        }
        assert(list.push(x)[list.len() as int] == x);
    }
    assert(list.push(x).to_set() =~= list.to_set().insert(x));
}

} // verus!
