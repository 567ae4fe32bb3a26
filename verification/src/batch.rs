//! The fan-out bookkeeping: one slot per requested identifier, filled as the
//! fetches come back, read out in the order of the request.

use vstd::prelude::*;

use crate::endpoint::{item_request, item_url_text, Request};
use crate::model::FetchError;

verus! {

/// What is known of one requested item.
#[derive(Debug)]
pub enum Slot<T> {
    /// The fetch has not come back yet.
    Pending,
    /// The fetch came back without a usable value.
    Failed,
    /// The fetch came back with this record.
    Ready(T),
}

impl<T> Slot<T> {
    /// The record in the slot, if it holds one.
    pub open spec fn value(self) -> Option<T> {
        match self {
            Slot::Ready(v) => Some(v),
            _ => None,
        }
    }
}

/// One position of a batch: the identifier asked for and what came of it.
#[derive(Debug)]
pub struct Entry<T> {
    /// The identifier that was requested at this position.
    pub id: i64,
    /// The state of its fetch.
    pub slot: Slot<T>,
}

/// The slot that an outcome settles into: a failure loses its reason.
pub open spec fn settled<T>(outcome: Result<T, FetchError>) -> Slot<T> {
    match outcome {
        Ok(v) => Slot::Ready(v),
        Err(_) => Slot::Failed,
    }
}

/// A batch over `ids` on which nothing has been recorded.
pub open spec fn fresh<T>(ids: Seq<i64>) -> Seq<Entry<T>> {
    Seq::new(ids.len(), |i: int| Entry { id: ids[i], slot: Slot::Pending })
}

/// The identifiers of a batch, position by position.
pub open spec fn ids_of<T>(entries: Seq<Entry<T>>) -> Seq<i64> {
    entries.map_values(|e: Entry<T>| e.id)
}

/// Whether every fetch of the batch has come back.
pub open spec fn complete<T>(entries: Seq<Entry<T>>) -> bool {
    forall|i: int| 0 <= i < entries.len() ==> !((#[trigger] entries[i]).slot is Pending)
}

/// The batch after the fetch at `pos` came back with `outcome`.
///
/// The first outcome reported for a position is final. A report for a position
/// that is already settled, or that the batch does not have, changes nothing.
pub open spec fn recorded<T>(entries: Seq<Entry<T>>, pos: int, outcome: Result<T, FetchError>) -> Seq<
    Entry<T>,
> {
    if 0 <= pos < entries.len() && entries[pos].slot is Pending {
        entries.update(pos, Entry { id: entries[pos].id, slot: settled(outcome) })
    } else {
        entries
    }
}

/// The batch after the outcomes of all its fetches were handed in at once,
/// `outcomes[k]` for the position `k`: each pending position that has an
/// outcome is settled with it, and nothing else changes.
pub open spec fn recorded_all<T>(entries: Seq<Entry<T>>, outcomes: Seq<Result<T, FetchError>>) -> Seq<
    Entry<T>,
> {
    Seq::new(
        entries.len(),
        |pos: int|
            if pos < outcomes.len() && entries[pos].slot is Pending {
                Entry { id: entries[pos].id, slot: settled(outcomes[pos]) }
            } else {
                entries[pos]
            },
    )
}

/// The records that were fetched, in the order in which they were requested.
pub open spec fn successes<T>(entries: Seq<Entry<T>>) -> Seq<T> {
    entries.filter_map(|e: Entry<T>| e.slot.value())
}

/// A set of fetches in flight.
///
/// The batch is created with the identifiers to fetch. The caller starts one
/// fetch per position, reports each outcome with [`Batch::record`] in whatever
/// order the fetches complete, and calls [`Batch::finish`] once every position
/// is settled.
#[derive(Debug)]
pub struct Batch<T> {
    entries: Vec<Entry<T>>,
}

impl<T> View for Batch<T> {
    type V = Seq<Entry<T>>;

    closed spec fn view(&self) -> Seq<Entry<T>> {
        self.entries@
    }
}

impl<T> Batch<T> {
    /// Opens a batch over `ids`, duplicates included, with every position pending.
    pub fn new(ids: &Vec<i64>) -> (batch: Self)
        ensures
            batch@ == fresh::<T>(ids@),
            ids_of(batch@) == ids@,
    {
        let mut entries: Vec<Entry<T>> = Vec::new();
        let mut i: usize = 0;
        while i < ids.len()
            invariant
                i <= ids.len(),
                entries@ == fresh::<T>(ids@.take(i as int)),
            decreases ids.len() - i,
        {
            entries.push(Entry { id: ids[i], slot: Slot::Pending });
            i += 1;
        }
        assert(ids@.take(ids.len() as int) == ids@);
        Batch { entries }
    }

    /// The number of positions.
    pub fn len(&self) -> (n: usize)
        ensures
            n == self@.len(),
    {
        self.entries.len()
    }

    /// The identifiers that the batch was opened over, in their order.
    pub fn ids(&self) -> (ids: Vec<i64>)
        ensures
            ids@ == ids_of(self@),
    {
        let mut ids: Vec<i64> = Vec::new();
        let mut i: usize = 0;
        while i < self.entries.len()
            invariant
                i <= self.entries.len(),
                ids@ == ids_of(self.entries@.take(i as int)),
            decreases self.entries.len() - i,
        {
            ids.push(self.entries[i].id);
            i += 1;
        }
        assert(self.entries@.take(self.entries.len() as int) == self.entries@);
        ids
    }

    /// The requests to perform, one per position and in the order of the
    /// positions: the request at index `pos` fetches the item asked for there.
    pub fn requests(&self) -> (requests: Vec<Request>)
        ensures
            requests@.len() == self@.len(),
            forall|pos: int|
                0 <= pos < self@.len() ==> (#[trigger] requests@[pos]).url@ == item_url_text(
                    self@[pos].id as int,
                ),
    {
        let mut requests: Vec<Request> = Vec::new();
        let mut i: usize = 0;
        while i < self.entries.len()
            invariant
                i <= self.entries.len(),
                requests@.len() == i,
                forall|pos: int|
                    0 <= pos < i ==> (#[trigger] requests@[pos]).url@ == item_url_text(
                        self.entries@[pos].id as int,
                    ),
            decreases self.entries.len() - i,
        {
            requests.push(item_request(self.entries[i].id));
            i += 1;
        }
        requests
    }

    /// Whether every position is settled. A batch over no identifiers is
    /// complete from the start.
    pub fn is_complete(&self) -> (done: bool)
        ensures
            done == complete(self@),
    {
        let mut i: usize = 0;
        while i < self.entries.len()
            invariant
                i <= self.entries.len(),
                forall|j: int| 0 <= j < i ==> !((#[trigger] self.entries@[j]).slot is Pending),
            decreases self.entries.len() - i,
        {
            if let Slot::Pending = self.entries[i].slot {
                return false;
            }
            i += 1;
        }
        true
    }

    /// Reports that the fetch at `pos` came back with `outcome`.
    ///
    /// Returns whether the report was taken: it is not if `pos` is no position
    /// of the batch or if that position is already settled.
    pub fn record(&mut self, pos: usize, outcome: Result<T, FetchError>) -> (taken: bool)
        ensures
            final(self)@ == recorded(old(self)@, pos as int, outcome),
            ids_of(final(self)@) == ids_of(old(self)@),
            taken == (pos < old(self)@.len() && old(self)@[pos as int].slot is Pending),
    {
        if pos >= self.entries.len() {
            return false;
        }
        if let Slot::Pending = self.entries[pos].slot {
            let id: i64 = self.entries[pos].id;
            let slot = match outcome {
                Ok(v) => Slot::Ready(v),
                Err(_) => Slot::Failed,
            };
            self.entries.set(pos, Entry { id, slot });
            true
        } else {
            false
        }
    }

    /// Reports the outcomes of all fetches at once, `outcomes[k]` being that of
    /// the position `k`. Outcomes beyond the last position are ignored, and so
    /// are outcomes for positions that are already settled.
    pub fn record_all(&mut self, outcomes: Vec<Result<T, FetchError>>)
        ensures
            final(self)@ == recorded_all(old(self)@, outcomes@),
            ids_of(final(self)@) == ids_of(old(self)@),
    {
        let ghost all = outcomes@;
        let ghost count: usize = outcomes.len();
        let mut pos: usize = 0;
        for outcome in it: outcomes.into_iter()
            invariant
                it.seq() == all,
                all.len() == count,
                pos == it.index(),
                self@ == recorded_all(old(self)@, all.take(it.index() as int)),
                ids_of(self@) == ids_of(old(self)@),
        {
            self.record(pos, outcome);
            pos += 1;
        }
        assert(all.take(all.len() as int) == all);
    }

    /// Closes the batch: the fetched records in the order of the request, or
    /// `None` while a fetch is still out. Failed fetches shorten the result;
    /// they never fail it.
    pub fn finish(self) -> (out: Option<Vec<T>>)
        ensures
            complete(self@) ==> out is Some && out->0@ == successes(self@),
            complete(self@) ==> out->0@.len() <= self@.len(),
            !complete(self@) ==> out is None,
    {
        if !self.is_complete() {
            return None;
        }
        proof {
            lemma_successes_len(self@);
        }
        let ghost all = self.entries@;
        let mut kept: Vec<T> = Vec::new();
        for entry in it: self.entries.into_iter()
            invariant
                it.seq() == all,
                kept@ == successes(all.take(it.index() as int)),
        {
            proof {
                let i: int = it.index() as int;
                assert(all.take(i + 1) == all.take(i).push(entry));
                lemma_successes_push(all.take(i), entry);
            }
            if let Slot::Ready(v) = entry.slot {
                kept.push(v);
            }
        }
        assert(all.take(all.len() as int) == all);
        Some(kept)
    }
}

/// Appending one position appends its record, if it has one, and nothing else.
pub proof fn lemma_successes_push<T>(entries: Seq<Entry<T>>, last: Entry<T>)
    ensures
        last.slot is Ready ==> successes(entries.push(last)) == successes(entries).push(last.slot->0),
        !(last.slot is Ready) ==> successes(entries.push(last)) == successes(entries),
{
    assert(entries.push(last).drop_last() == entries);
}

/// A batch never yields more records than it has positions.
pub proof fn lemma_successes_len<T>(entries: Seq<Entry<T>>)
    ensures
        successes(entries).len() <= entries.len(),
    decreases entries.len(),
{
    if entries.len() > 0 {
        lemma_successes_len(entries.drop_last());
    }
}

/// The output keeps the order of the input: the records of a batch are those
/// of any leading part followed by those of the rest.
pub proof fn lemma_successes_concat<T>(head: Seq<Entry<T>>, tail: Seq<Entry<T>>)
    ensures
        successes(head + tail) == successes(head) + successes(tail),
    decreases tail.len(),
{
    if tail.len() == 0 {
        assert(head + tail == head);
    } else {
        assert((head + tail).drop_last() == head + tail.drop_last());
        lemma_successes_concat(head, tail.drop_last());
    }
}

/// A fetch that fails is left out, and that is all it does: recording a failure
/// adds no record, removes none and moves none.
pub proof fn lemma_failure_is_dropped<T>(entries: Seq<Entry<T>>, pos: int, error: FetchError)
    ensures
        successes(recorded(entries, pos, Err::<T, FetchError>(error))) == successes(entries),
{
    let after = recorded(entries, pos, Err::<T, FetchError>(error));
    if after != entries {
        let head = entries.take(pos);
        let tail = entries.skip(pos + 1);
        assert(entries == (head + seq![entries[pos]]) + tail);
        assert(after == (head + seq![after[pos]]) + tail);
        lemma_successes_concat(head + seq![entries[pos]], tail);
        lemma_successes_concat(head + seq![after[pos]], tail);
        lemma_successes_push(head, entries[pos]);
        lemma_successes_push(head, after[pos]);
        assert(head + seq![entries[pos]] == head.push(entries[pos]));
        assert(head + seq![after[pos]] == head.push(after[pos]));
    }
}

/// A fetch that succeeds puts its record between the records of the positions
/// before it and those of the positions after it.
pub proof fn lemma_success_is_placed<T>(entries: Seq<Entry<T>>, pos: int, record: T)
    requires
        0 <= pos < entries.len(),
        entries[pos].slot is Pending,
    ensures
        successes(recorded(entries, pos, Ok::<T, FetchError>(record))) == successes(
            entries.take(pos),
        ).push(record) + successes(entries.skip(pos + 1)),
{
    let after = recorded(entries, pos, Ok::<T, FetchError>(record));
    let head = entries.take(pos);
    let tail = entries.skip(pos + 1);
    assert(after == head.push(after[pos]) + tail);
    lemma_successes_concat(head.push(after[pos]), tail);
    lemma_successes_push(head, after[pos]);
}

} // verus!
