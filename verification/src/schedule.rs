//! Schedules: the orders in which the fetches of a batch can come back, and
//! why the order does not matter.

use vstd::prelude::*;

use crate::batch::{
    complete, fresh, ids_of, recorded, recorded_all, settled, successes, Entry, Slot,
};
use crate::model::FetchError;

verus! {

/// The records that a batch over `ids` is to yield when the identifier `id` is
/// answered with `backend(id)`: the answers that are records, in the order of
/// `ids`, one for each occurrence of an identifier.
pub open spec fn fetched<T>(ids: Seq<i64>, backend: spec_fn(i64) -> Result<T, FetchError>) -> Seq<T> {
    ids.filter_map(
        |id: i64|
            match backend(id) {
                Ok(v) => Some(v),
                Err(_) => None,
            },
    )
}

/// One report to a batch: the position whose fetch came back, and its outcome.
pub ghost struct Report<T> {
    /// The position that is reported.
    pub pos: int,
    /// What its fetch came back with.
    pub outcome: Result<T, FetchError>,
}

/// The batch after `reports` were recorded one after the other, first to last.
pub open spec fn replayed<T>(entries: Seq<Entry<T>>, reports: Seq<Report<T>>) -> Seq<Entry<T>>
    decreases reports.len(),
{
    if reports.len() == 0 {
        entries
    } else {
        recorded(replayed(entries, reports.drop_last()), reports.last().pos, reports.last().outcome)
    }
}

/// The reports that hand in `outcomes` in the order of the request: the
/// outcome at index `k` for the position `k`.
pub open spec fn in_order<T>(outcomes: Seq<Result<T, FetchError>>) -> Seq<Report<T>> {
    Seq::new(outcomes.len(), |k: int| Report { pos: k, outcome: outcomes[k] })
}

/// Whether `reports` holds a report for the position `pos`.
pub open spec fn reported<T>(reports: Seq<Report<T>>, pos: int) -> bool {
    exists|k: int| 0 <= k < reports.len() && (#[trigger] reports[k]).pos == pos
}

/// Whether `reports` is one way in which the fetches of a batch over `ids` can
/// come back from a backend that answers the identifier `id` with
/// `backend(id)`: each report is for a position of the batch and carries the
/// backend's answer for the identifier there, and no position is left out.
/// Nothing is said about the order of the reports.
pub open spec fn schedule_of<T>(
    ids: Seq<i64>,
    backend: spec_fn(i64) -> Result<T, FetchError>,
    reports: Seq<Report<T>>,
) -> bool {
    &&& forall|k: int|
        0 <= k < reports.len() ==> 0 <= (#[trigger] reports[k]).pos < ids.len()
            && reports[k].outcome == backend(ids[reports[k].pos])
    &&& forall|p: int| 0 <= p < ids.len() ==> reported(reports, p)
}

/// The batch over `ids` in which the positions that `reports` names are settled
/// with the backend's answers and the others are pending.
pub open spec fn answered<T>(
    ids: Seq<i64>,
    backend: spec_fn(i64) -> Result<T, FetchError>,
    reports: Seq<Report<T>>,
) -> Seq<Entry<T>> {
    Seq::new(
        ids.len(),
        |p: int|
            Entry {
                id: ids[p],
                slot: if reported(reports, p) {
                    settled(backend(ids[p]))
                } else {
                    Slot::Pending
                },
            },
    )
}

/// Handing in all outcomes at once is recording them one by one, from the
/// first position on.
pub proof fn lemma_record_all_is_replay<T>(entries: Seq<Entry<T>>, outcomes: Seq<Result<T, FetchError>>)
    ensures
        recorded_all(entries, outcomes) == replayed(entries, in_order(outcomes)),
    decreases outcomes.len(),
{
    if outcomes.len() == 0 {
        assert(recorded_all(entries, outcomes) == entries);
    } else {
        let rest = outcomes.drop_last();
        lemma_record_all_is_replay(entries, rest);
        assert(in_order(outcomes).drop_last() == in_order(rest));
        assert(recorded_all(entries, outcomes) == recorded(
            recorded_all(entries, rest),
            outcomes.len() - 1,
            outcomes.last(),
        ));
    }
}

/// Replaying reports that carry a backend's answers settles exactly the
/// positions that were reported, each with the backend's answer.
pub proof fn lemma_replayed_is_answered<T>(
    ids: Seq<i64>,
    backend: spec_fn(i64) -> Result<T, FetchError>,
    reports: Seq<Report<T>>,
)
    requires
        forall|k: int|
            0 <= k < reports.len() ==> 0 <= (#[trigger] reports[k]).pos < ids.len()
                && reports[k].outcome == backend(ids[reports[k].pos]),
    ensures
        replayed(fresh::<T>(ids), reports) == answered(ids, backend, reports),
    decreases reports.len(),
{
    if reports.len() == 0 {
        assert(fresh::<T>(ids) == answered(ids, backend, reports));
    } else {
        let rest = reports.drop_last();
        let last = reports.last();
        lemma_replayed_is_answered(ids, backend, rest);
        let before = answered(ids, backend, rest);
        let after = recorded(before, last.pos, last.outcome);
        assert(reports[reports.len() - 1].pos == last.pos);
        assert forall|p: int| 0 <= p < ids.len() implies reported(reports, p) == (reported(rest, p)
            || p == last.pos) by {
            if reported(rest, p) {
                let k: int = choose|k: int| 0 <= k < rest.len() && (#[trigger] rest[k]).pos == p;
                assert(reports[k].pos == p);
            }
            if reported(reports, p) && p != last.pos {
                let k: int = choose|k: int| 0 <= k < reports.len() && (#[trigger] reports[k]).pos == p;
                assert(rest[k].pos == p);
            }
        }
        assert(after == answered(ids, backend, reports));
    }
}

/// What a batch is for: once every fetch has come back, in whatever order, the
/// batch is complete and yields the records that the backend has for its
/// identifiers, in the order of the request; the identifiers that the backend
/// fails on are missing and nothing else is.
pub proof fn lemma_batch_resolves<T>(
    ids: Seq<i64>,
    backend: spec_fn(i64) -> Result<T, FetchError>,
    reports: Seq<Report<T>>,
)
    requires
        schedule_of(ids, backend, reports),
    ensures
        complete(replayed(fresh::<T>(ids), reports)),
        ids_of(replayed(fresh::<T>(ids), reports)) == ids,
        successes(replayed(fresh::<T>(ids), reports)) == fetched(ids, backend),
{
    lemma_replayed_is_answered(ids, backend, reports);
    let end = answered(ids, backend, reports);
    assert(ids_of(end) == ids);
    lemma_settled_yields_fetched(end, ids, backend);
}

/// Handing in the outcomes in the order of the request, each the backend's
/// answer for the identifier at its index, is one schedule of the batch.
pub proof fn lemma_in_order_is_schedule<T>(
    ids: Seq<i64>,
    backend: spec_fn(i64) -> Result<T, FetchError>,
    outcomes: Seq<Result<T, FetchError>>,
)
    requires
        outcomes.len() == ids.len(),
        forall|k: int| 0 <= k < ids.len() ==> #[trigger] outcomes[k] == backend(ids[k]),
    ensures
        schedule_of(ids, backend, in_order(outcomes)),
{
    let reports = in_order(outcomes);
    assert forall|p: int| 0 <= p < ids.len() implies reported(reports, p) by {
        assert(reports[p].pos == p);
    }
}

/// Handing in the backend's answers all at once, in the order of the request,
/// resolves the batch like any other schedule.
pub proof fn lemma_record_all_resolves<T>(
    ids: Seq<i64>,
    backend: spec_fn(i64) -> Result<T, FetchError>,
    outcomes: Seq<Result<T, FetchError>>,
)
    requires
        outcomes.len() == ids.len(),
        forall|k: int| 0 <= k < ids.len() ==> #[trigger] outcomes[k] == backend(ids[k]),
    ensures
        complete(recorded_all(fresh::<T>(ids), outcomes)),
        successes(recorded_all(fresh::<T>(ids), outcomes)) == fetched(ids, backend),
{
    lemma_record_all_is_replay(fresh::<T>(ids), outcomes);
    lemma_in_order_is_schedule(ids, backend, outcomes);
    lemma_batch_resolves(ids, backend, in_order(outcomes));
}

/// Where the backend has a record for every identifier, as many records are
/// fetched as there are identifiers.
pub proof fn lemma_fetched_all<T>(ids: Seq<i64>, backend: spec_fn(i64) -> Result<T, FetchError>)
    requires
        forall|p: int| 0 <= p < ids.len() ==> backend(#[trigger] ids[p]) is Ok,
    ensures
        fetched(ids, backend).len() == ids.len(),
    decreases ids.len(),
{
    if ids.len() > 0 {
        lemma_fetched_all(ids.drop_last(), backend);
    }
}

/// Scheduling does not matter, and a second run changes nothing: against a
/// backend that answers each identifier the same way every time, any two
/// schedules of the same batch leave it in the same state, with the same
/// records in the same order. If the backend has a record for every
/// identifier of the batch, every identifier is resolved: the result has one
/// record per position, the backend's record for the identifier there.
pub proof fn lemma_rerun_resolves_the_same<T>(
    ids: Seq<i64>,
    backend: spec_fn(i64) -> Result<T, FetchError>,
    first: Seq<Report<T>>,
    second: Seq<Report<T>>,
)
    requires
        schedule_of(ids, backend, first),
        schedule_of(ids, backend, second),
    ensures
        replayed(fresh::<T>(ids), first) == replayed(fresh::<T>(ids), second),
        successes(replayed(fresh::<T>(ids), first)) == successes(replayed(fresh::<T>(ids), second)),
        (forall|p: int| 0 <= p < ids.len() ==> backend(#[trigger] ids[p]) is Ok) ==> successes(
            replayed(fresh::<T>(ids), first),
        ) == Seq::new(ids.len(), |p: int| backend(ids[p])->Ok_0),
{
    lemma_replayed_is_answered(ids, backend, first);
    lemma_replayed_is_answered(ids, backend, second);
    let end = answered(ids, backend, first);
    assert(end == answered(ids, backend, second));
    if forall|p: int| 0 <= p < ids.len() ==> backend(#[trigger] ids[p]) is Ok {
        lemma_all_ready(end, Seq::new(ids.len(), |p: int| backend(ids[p])->Ok_0));
    }
}

/// A batch whose every position is settled with the backend's answer for its
/// identifier yields the records that the backend has for the identifiers.
proof fn lemma_settled_yields_fetched<T>(
    entries: Seq<Entry<T>>,
    ids: Seq<i64>,
    backend: spec_fn(i64) -> Result<T, FetchError>,
)
    requires
        entries.len() == ids.len(),
        forall|p: int|
            0 <= p < ids.len() ==> (#[trigger] entries[p]).slot == settled(backend(ids[p])),
    ensures
        successes(entries) == fetched(ids, backend),
    decreases entries.len(),
{
    if entries.len() > 0 {
        lemma_settled_yields_fetched(entries.drop_last(), ids.drop_last(), backend);
    }
}

/// A batch whose every position holds a record yields those records, one per
/// position.
proof fn lemma_all_ready<T>(entries: Seq<Entry<T>>, records: Seq<T>)
    requires
        records.len() == entries.len(),
        forall|p: int| 0 <= p < entries.len() ==> (#[trigger] entries[p]).slot == Slot::Ready(records[p]),
    ensures
        successes(entries) == records,
    decreases entries.len(),
{
    if entries.len() > 0 {
        lemma_all_ready(entries.drop_last(), records.drop_last());
        assert(records == records.drop_last().push(records.last()));
    }
}

} // verus!
