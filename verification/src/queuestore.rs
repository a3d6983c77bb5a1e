//! The work queue: entries leave it as they are read, and come back where
//! their work has failed.

use crate::cellarentitystore::{prepared, CellarEntityStore, ParamView, Request};
use crate::statements::StatementId;
use crate::tap::{QueueItem, QueueItemView};
use vstd::prelude::*;

verus! {

/// The request that takes the oldest entry out of the queue.
pub fn get_item(store: &CellarEntityStore) -> (request: Request)
    ensures
        request@ == prepared(StatementId::QueueItemPop, Seq::empty()),
{
    store.pop_queue()
}

/// The id that follows `id`: the next number, and the least one after the
/// greatest.
pub open spec fn following(id: i32) -> i32 {
    if id == i32::MAX {
        i32::MIN
    } else {
        (id + 1) as i32
    }
}

/// The entry that came out of the queue, as its reader sees it. The queue
/// itself tells no ids: the handle numbers the entries that it takes out,
/// so that each differs from the one before.
pub fn queue_item(store: &mut CellarEntityStore, entry: Option<(String, String)>) -> (item: Option<
    QueueItem,
>)
    ensures
        item is Some <==> entry is Some,
        entry matches Some(pair) ==> item matches Some(it) && it@ == (QueueItemView {
            id: old(store).next_item,
            event: pair.0@,
            data: pair.1@,
        }),
        final(store).next_item == if entry is Some {
            following(old(store).next_item)
        } else {
            old(store).next_item
        },
        final(store).cache == old(store).cache,
{
    match entry {
        Some((event, data)) => {
            let id = store.next_item;
            store.next_item = if id == i32::MAX {
                i32::MIN
            } else {
                id + 1
            };
            Some(QueueItem { id, event, data })
        },
        None => None,
    }
}

/// Two entries that a handle takes out of the queue one after the other have
/// different ids.
pub proof fn lemma_successive_items_differ(id: i32)
    ensures
        following(id) != id,
{
}

/// What there is to do for an entry whose work is done: nothing, for the
/// entry left the queue when it was read.
pub fn mark_success(store: &CellarEntityStore, item: QueueItem) -> (request: Option<Request>)
    ensures
        request is None,
{
    None
}

/// The request that puts an entry back whose work has failed: at the end of
/// the queue, with its event and its data.
pub fn mark_failure(store: &CellarEntityStore, item: QueueItem) -> (request: Request)
    ensures
        request@ == prepared(
            StatementId::QueueItemPut,
            seq![ParamView::Text(item.event@), ParamView::Text(item.data@)],
        ),
{
    store.push_queue(item.event, item.data)
}

/// The request that puts a new entry at the end of the queue.
pub fn add(store: &CellarEntityStore, event: String, data: String) -> (request: Request)
    ensures
        request@ == prepared(
            StatementId::QueueItemPut,
            seq![ParamView::Text(event@), ParamView::Text(data@)],
        ),
{
    store.push_queue(event, data)
}

} // verus!
