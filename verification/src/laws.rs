//! What holds of the queue's operations, proved over the model of the queue:
//! of every flush above all, and of resolving and loading.

use vstd::prelude::*;
use crate::electric_sync::FlushEvent;
use crate::electric_sync::SyncError;
use crate::electric_sync::SyncOutcome;
use crate::queue_model::answered;
use crate::queue_model::count_outcome;
use crate::queue_model::drive;
use crate::queue_model::empty_report;
use crate::queue_model::first_with_id;
use crate::queue_model::flush_step;
use crate::queue_model::ids_of;
use crate::queue_model::is_not_outcome;
use crate::queue_model::is_outcome;
use crate::queue_model::items_with;
use crate::queue_model::ItemView;
use crate::queue_model::lemma_pending_all_unsynced;
use crate::queue_model::lemma_pending_push;
use crate::queue_model::load_step;
use crate::queue_model::next_pending;
use crate::queue_model::pending;
use crate::queue_model::QueueState;
use crate::queue_model::ReadView;
use crate::queue_model::record;
use crate::queue_model::ReportView;
use crate::queue_model::Run;
use crate::queue_model::settle;
use crate::queue_model::snapshot_of;
use crate::queue_model::StepView;
use crate::queue_model::tally;
use crate::queue_model::undelivered;
use crate::queue_model::whole_flush;

verus! {

/// The search for the next pending item stays inside its range, stops at a
/// pending item if it stops before the end, and passes over delivered items
/// only.
pub proof fn lemma_next_pending(items: Seq<ItemView>, from: int, limit: int)
    requires
        0 <= from <= limit <= items.len(),
    ensures
        from <= next_pending(items, from, limit) <= limit,
        next_pending(items, from, limit) < limit ==> !items[next_pending(items, from, limit)].synced,
        forall|j: int| from <= j < next_pending(items, from, limit) ==> (#[trigger] items[j]).synced,
        pending(items.subrange(from, next_pending(items, from, limit))) == Seq::<ItemView>::empty(),
    decreases limit - from,
{
    let next = next_pending(items, from, limit);
    if from < limit && items[from].synced {
        lemma_next_pending(items, from + 1, limit);
        let passed = items.subrange(from + 1, next);
        assert(items.subrange(from, next) =~= seq![items[from]] + passed);
        passed.lemma_filter_prepend(items[from], |item: ItemView| !item.synced);
    } else {
        assert(items.subrange(from, next) =~= Seq::<ItemView>::empty());
        assert(pending(Seq::<ItemView>::empty()) =~= Seq::<ItemView>::empty()) by {
            Seq::<ItemView>::empty().lemma_filter_len(|item: ItemView| !item.synced);
        }
    }
}

/// A flush of a queue in which nothing is pending tries nothing: it ends at
/// once with a report of zero delivered, zero failed and no conflicts. It
/// prunes what was delivered before, so every item leaves the queue; a queue
/// that was empty stays as it was.
pub proof fn law_flush_without_pending(state: QueueState)
    requires
        state.flight is None,
        forall|i: int| 0 <= i < state.items.len() ==> (#[trigger] state.items[i]).synced,
    ensures
        flush_step(state, FlushEvent::Begin).1 == Ok::<StepView, SyncError>(
            StepView::Done(empty_report()),
        ),
        flush_step(state, FlushEvent::Begin).0 == (QueueState { items: Seq::empty(), ..state }),
        state.items.len() == 0 ==> flush_step(state, FlushEvent::Begin).0 == state,
{
    let len = state.items.len() as int;
    lemma_next_pending(state.items, 0, len);
    assert(next_pending(state.items, 0, len) == len);
    assert(state.items.subrange(0, len) =~= state.items);
    assert(state.items.len() == 0 ==> state.items =~= Seq::<ItemView>::empty());
}

/// When a flush has run to its end, no item that is marked as delivered is
/// left in the queue, and no flush is in flight.
pub proof fn law_completed_flush_is_pruned(state: QueueState, event: FlushEvent)
    requires
        flush_step(state, event).1 matches Ok(StepView::Done(_)),
    ensures
        flush_step(state, event).0.flight is None,
        forall|i: int|
            0 <= i < flush_step(state, event).0.items.len() ==> !(#[trigger] flush_step(
                state,
                event,
            ).0.items[i]).synced,
{
    lemma_pending_all_unsynced(state.items);
    if let FlushEvent::Outcome(outcome) = event {
        if let Some(flight) = state.flight {
            lemma_pending_all_unsynced(settle(state.items, flight.cursor, outcome));
        }
    }
}

/// While a flush is in flight a second one cannot begin: the request is
/// refused and nothing changes.
pub proof fn law_one_flush_at_a_time(state: QueueState)
    requires
        state.flight is Some,
    ensures
        flush_step(state, FlushEvent::Begin) == (
            state,
            Err::<StepView, SyncError>(SyncError::FlushInProgress),
        ),
{
}

/// Whatever the event, a step of a flush leaves a well-formed state well
/// formed.
pub proof fn law_flush_keeps_state_well_formed(state: QueueState, event: FlushEvent)
    requires
        state.wf(),
    ensures
        flush_step(state, event).0.wf(),
{
    match event {
        FlushEvent::Begin => {
            lemma_next_pending(state.items, 0, state.items.len() as int);
        },
        FlushEvent::Outcome(outcome) => {
            if let Some(flight) = state.flight {
                let settled = settle(state.items, flight.cursor, outcome);
                lemma_next_pending(settled, flight.cursor + 1, flight.limit);
            }
        },
        FlushEvent::Cancel => {},
    }
}

/// A flush never comes back to an item: each step that hands out another item
/// hands out one that lies behind the one handed out before and inside the
/// part of the queue that the flush covers.
pub proof fn law_flush_moves_forward(state: QueueState, event: FlushEvent)
    requires
        state.wf(),
        state.flight is Some,
        event !is Begin,
        flush_step(state, event).0.flight is Some,
    ensures
        ({
            let before = state.flight->0;
            let after = flush_step(state, event).0.flight->0;
            &&& before.cursor < after.cursor < after.limit == before.limit
            &&& flush_step(state, event).1 == Ok::<StepView, SyncError>(
                StepView::Sync(flush_step(state, event).0.items[after.cursor]),
            )
        }),
{
    if let FlushEvent::Outcome(outcome) = event {
        let flight = state.flight->0;
        let settled = settle(state.items, flight.cursor, outcome);
        lemma_next_pending(settled, flight.cursor + 1, flight.limit);
    }
}

/// The pending items of a one-item queue.
proof fn lemma_pending_single(item: ItemView)
    ensures
        pending(seq![item]) == if item.synced {
            Seq::<ItemView>::empty()
        } else {
            seq![item]
        },
{
    let none = Seq::<ItemView>::empty();
    none.lemma_filter_len(|item: ItemView| !item.synced);
    assert(pending(none) =~= none);
    lemma_pending_push(none, item);
    assert(none.push(item) =~= seq![item]);
}

/// The pending items of two queues put end to end.
proof fn lemma_pending_add(front: Seq<ItemView>, back: Seq<ItemView>)
    ensures
        pending(front + back) == pending(front) + pending(back),
{
    Seq::filter_distributes_over_add(front, back, |item: ItemView| !item.synced);
}

/// What is left of an item that was tried: nothing if it was delivered, the
/// item itself otherwise.
spec fn left_of(item: ItemView, outcome: SyncOutcome) -> Seq<ItemView> {
    match outcome {
        SyncOutcome::Synced => Seq::empty(),
        _ => seq![item],
    }
}

/// What one outcome does to a flush in flight.
///
/// Let `tried` be the pending items from the one handed out last to the end
/// of the part that the flush covers. The item handed out last is the first
/// of them. If it is the only one, the flush ends, and the queue keeps what was
/// pending before that item, the item itself unless it was delivered, and what
/// is pending behind the part that the flush covers. If it is not, the second
/// of them is handed out, and the rest of them is what is pending from there.
proof fn lemma_outcome_step(state: QueueState, outcome: SyncOutcome)
    requires
        state.wf(),
        state.flight is Some,
    ensures
        ({
            let flight = state.flight->0;
            let at = flight.cursor;
            let limit = flight.limit;
            let items = state.items;
            let tried = pending(items.subrange(at, limit));
            let report = record(flight.report, items[at].id, outcome);
            let (after, reply) = flush_step(state, FlushEvent::Outcome(outcome));
            &&& tried.len() > 0
            &&& tried[0] == items[at]
            &&& after.wf()
            &&& after.path == state.path
            &&& tried.len() == 1 ==> {
                &&& reply == Ok::<StepView, SyncError>(StepView::Done(report))
                &&& after.flight is None
                &&& after.items == pending(items.take(at)) + left_of(items[at], outcome) + pending(
                    items.skip(limit),
                )
            }
            &&& tried.len() > 1 ==> {
                &&& after.flight is Some
                &&& after.flight->0.limit == limit
                &&& after.flight->0.report == report
                &&& reply == Ok::<StepView, SyncError>(
                    StepView::Sync(after.items[after.flight->0.cursor]),
                )
                &&& pending(after.items.subrange(after.flight->0.cursor, limit)) == tried.skip(1)
                &&& pending(after.items.take(after.flight->0.cursor)) == pending(items.take(at))
                    + left_of(items[at], outcome)
                &&& after.items.skip(limit) == items.skip(limit)
            }
        }),
{
    let flight = state.flight->0;
    let at = flight.cursor;
    let limit = flight.limit;
    let items = state.items;
    let tried = pending(items.subrange(at, limit));
    let behind = items.subrange(at + 1, limit);
    let none = Seq::<ItemView>::empty();
    assert(pending(none) =~= none) by {
        none.lemma_filter_len(|item: ItemView| !item.synced);
    }

    // The item handed out last is the first of those still to try.
    assert(items.subrange(at, limit) =~= seq![items[at]] + behind);
    behind.lemma_filter_prepend(items[at], |item: ItemView| !item.synced);
    assert(tried == seq![items[at]] + pending(behind));
    assert(tried[0] == items[at]);
    assert(tried.skip(1) =~= pending(behind));

    let settled = settle(items, at, outcome);
    let next = next_pending(settled, at + 1, limit);
    lemma_next_pending(settled, at + 1, limit);

    // Behind the item nothing changed; what lies before the next pending item is delivered.
    assert(settled.subrange(at + 1, limit) =~= behind);
    assert(behind =~= settled.subrange(at + 1, next) + settled.subrange(next, limit));
    lemma_pending_add(settled.subrange(at + 1, next), settled.subrange(next, limit));
    assert(pending(behind) =~= pending(settled.subrange(next, limit)));

    // Up to the next pending item, the settled item is the only one that may have changed.
    assert(settled.take(next) =~= items.take(at) + seq![settled[at]] + settled.subrange(
        at + 1,
        next,
    ));
    lemma_pending_add(items.take(at) + seq![settled[at]], settled.subrange(at + 1, next));
    lemma_pending_add(items.take(at), seq![settled[at]]);
    lemma_pending_single(settled[at]);
    assert(pending(settled.take(next)) =~= pending(items.take(at)) + left_of(items[at], outcome));
    assert(settled.skip(limit) =~= items.skip(limit));

    if next < limit {
        assert(settled.subrange(next, limit) =~= seq![settled[next]] + settled.subrange(
            next + 1,
            limit,
        ));
        settled.subrange(next + 1, limit).lemma_filter_prepend(
            settled[next],
            |item: ItemView| !item.synced,
        );
        assert(tried.len() > 1);
    } else {
        assert(settled.subrange(next, limit) =~= none);
        assert(tried.len() == 1);
        assert(settled =~= settled.take(limit) + settled.skip(limit));
        lemma_pending_add(settled.take(limit), settled.skip(limit));
    }
}

/// A flush in flight, played on with no more outcomes than there are pending
/// items from the one handed out last to the end of the part that the flush
/// covers.
proof fn lemma_drive(state: QueueState, outcomes: Seq<SyncOutcome>)
    requires
        state.wf(),
        state.flight is Some,
        outcomes.len() <= pending(
            state.items.subrange(state.flight->0.cursor, state.flight->0.limit),
        ).len(),
    ensures
        ({
            let flight = state.flight->0;
            let tried = pending(state.items.subrange(flight.cursor, flight.limit));
            let run = drive(
                state,
                Ok::<StepView, SyncError>(StepView::Sync(state.items[flight.cursor])),
                outcomes,
            );
            &&& run.state.wf()
            &&& outcomes.len() < tried.len() ==> {
                &&& run.handed == tried.take(outcomes.len() as int + 1)
                &&& run.last == Ok::<StepView, SyncError>(StepView::Sync(tried[outcomes.len() as int]))
                &&& run.state.flight is Some
            }
            &&& outcomes.len() == tried.len() ==> {
                &&& run.handed == tried
                &&& run.last == Ok::<StepView, SyncError>(
                    StepView::Done(tally(flight.report, tried, outcomes)),
                )
                &&& run.state == (QueueState {
                    items: pending(state.items.take(flight.cursor)) + undelivered(tried, outcomes)
                        + pending(state.items.skip(flight.limit)),
                    flight: None,
                    ..state
                })
            }
        }),
    decreases outcomes.len(),
{
    let flight = state.flight->0;
    let items = state.items;
    let tried = pending(items.subrange(flight.cursor, flight.limit));
    let handed = items[flight.cursor];
    let run = drive(state, Ok::<StepView, SyncError>(StepView::Sync(handed)), outcomes);
    lemma_outcome_step(state, SyncOutcome::Synced);
    if outcomes.len() == 0 {
        assert(run.handed =~= tried.take(1));
    } else {
        let outcome = outcomes[0];
        lemma_outcome_step(state, outcome);
        let (after, reply) = flush_step(state, FlushEvent::Outcome(outcome));
        let rest = drive(after, reply, outcomes.skip(1));
        assert(run == Run { handed: seq![handed] + rest.handed, ..rest });
        assert(undelivered(tried, outcomes) == left_of(handed, outcome) + undelivered(
            tried.skip(1),
            outcomes.skip(1),
        ));
        assert(tally(flight.report, tried, outcomes) == tally(
            record(flight.report, handed.id, outcome),
            tried.skip(1),
            outcomes.skip(1),
        ));
        if tried.len() == 1 {
            assert(run.handed =~= tried);
            assert(undelivered(tried.skip(1), outcomes.skip(1)) =~= Seq::<ItemView>::empty());
            assert(run.state.items =~= pending(items.take(flight.cursor)) + undelivered(
                tried,
                outcomes,
            ) + pending(items.skip(flight.limit)));
        } else {
            lemma_drive(after, outcomes.skip(1));
            if outcomes.len() < tried.len() {
                assert(run.handed =~= tried.take(outcomes.len() as int + 1));
            } else {
                assert(run.handed =~= tried);
                assert(run.state.items =~= pending(items.take(flight.cursor)) + undelivered(
                    tried,
                    outcomes,
                ) + pending(items.skip(flight.limit)));
            }
        }
    }
}

/// What a whole flush does.
///
/// Take a queue with no flush in flight, and one outcome for each item that is
/// pending in it. Then the flush hands the pending items to the remote side in
/// queue order, each of them once and nothing else; its report is the tally of
/// the outcomes; and it leaves in the queue the pending items that were not
/// delivered, in their order, and nothing else.
pub proof fn law_whole_flush(state: QueueState, outcomes: Seq<SyncOutcome>)
    requires
        state.flight is None,
        outcomes.len() == pending(state.items).len(),
    ensures
        whole_flush(state, outcomes).handed == pending(state.items),
        whole_flush(state, outcomes).last == Ok::<StepView, SyncError>(
            StepView::Done(tally(empty_report(), pending(state.items), outcomes)),
        ),
        whole_flush(state, outcomes).state == (QueueState {
            items: undelivered(pending(state.items), outcomes),
            ..state
        }),
{
    let items = state.items;
    let len = items.len() as int;
    let first = next_pending(items, 0, len);
    lemma_begin(state);
    let (after, reply) = flush_step(state, FlushEvent::Begin);
    if first < len {
        lemma_drive(after, outcomes);
        assert(whole_flush(state, outcomes).state.items =~= undelivered(pending(items), outcomes));
    } else {
        assert(whole_flush(state, outcomes).state.items =~= undelivered(pending(items), outcomes));
    }
}

/// Where a flush stands before its end.
///
/// Take a queue with no flush in flight, and fewer outcomes than there are
/// pending items in it, say `n`. Then the flush has handed the first `n + 1`
/// pending items to the remote side, in queue order, and waits for the outcome
/// of the last of them.
pub proof fn law_flush_in_progress(state: QueueState, outcomes: Seq<SyncOutcome>)
    requires
        state.flight is None,
        outcomes.len() < pending(state.items).len(),
    ensures
        whole_flush(state, outcomes).handed == pending(state.items).take(outcomes.len() as int + 1),
        whole_flush(state, outcomes).last == Ok::<StepView, SyncError>(
            StepView::Sync(pending(state.items)[outcomes.len() as int]),
        ),
        whole_flush(state, outcomes).state.flight is Some,
        whole_flush(state, outcomes).state.wf(),
{
    lemma_begin(state);
    let (after, reply) = flush_step(state, FlushEvent::Begin);
    lemma_drive(after, outcomes);
}

/// What the beginning of a flush does to a queue with no flush in flight: it
/// ends the flush at once if nothing is pending, and hands out the first
/// pending item otherwise, with everything before it delivered.
proof fn lemma_begin(state: QueueState)
    requires
        state.flight is None,
    ensures
        ({
            let items = state.items;
            let (after, reply) = flush_step(state, FlushEvent::Begin);
            &&& after.wf()
            &&& pending(Seq::<ItemView>::empty()) == Seq::<ItemView>::empty()
            &&& pending(items).len() == 0 ==> {
                &&& after == (QueueState { items: Seq::empty(), ..state })
                &&& reply == Ok::<StepView, SyncError>(StepView::Done(empty_report()))
            }
            &&& pending(items).len() > 0 ==> {
                &&& after.flight is Some
                &&& after == (QueueState { flight: after.flight, ..state })
                &&& after.flight->0.limit == items.len()
                &&& after.flight->0.report == empty_report()
                &&& reply == Ok::<StepView, SyncError>(StepView::Sync(items[after.flight->0.cursor]))
                &&& pending(items.subrange(after.flight->0.cursor, items.len() as int)) == pending(
                    items,
                )
                &&& pending(items.take(after.flight->0.cursor)) == Seq::<ItemView>::empty()
                &&& pending(items.skip(items.len() as int)) == Seq::<ItemView>::empty()
            }
        }),
{
    let items = state.items;
    let len = items.len() as int;
    let first = next_pending(items, 0, len);
    lemma_next_pending(items, 0, len);
    assert(items =~= items.subrange(0, first) + items.subrange(first, len));
    lemma_pending_add(items.subrange(0, first), items.subrange(first, len));
    assert(pending(items) =~= pending(items.subrange(first, len)));
    let none = Seq::<ItemView>::empty();
    assert(pending(none) =~= none) by {
        none.lemma_filter_len(|item: ItemView| !item.synced);
    }
    assert(items.take(first) =~= items.subrange(0, first));
    assert(items.skip(len) =~= none);
    if first < len {
        assert(items.subrange(first, len) =~= seq![items[first]] + items.subrange(first + 1, len));
        items.subrange(first + 1, len).lemma_filter_prepend(
            items[first],
            |item: ItemView| !item.synced,
        );
    } else {
        assert(items.subrange(first, len) =~= none);
    }
}

/// One more outcome for a flush that waits for one is one more step.
///
/// If the flush that was played with `outcomes` waits for an outcome, then the
/// flush played with `outcomes` and then `outcome` is where one step with
/// `outcome` leads from there; what it handed out is what was handed out
/// before and, if the step hands out an item, that item.
pub proof fn law_one_more_outcome(
    state: QueueState,
    answer: Result<StepView, SyncError>,
    outcomes: Seq<SyncOutcome>,
    outcome: SyncOutcome,
)
    requires
        drive(state, answer, outcomes).last matches Ok(StepView::Sync(_)),
    ensures
        ({
            let before = drive(state, answer, outcomes);
            let (next, reply) = flush_step(before.state, FlushEvent::Outcome(outcome));
            drive(state, answer, outcomes.push(outcome)) == (Run {
                state: next,
                handed: match reply {
                    Ok(StepView::Sync(item)) => before.handed.push(item),
                    _ => before.handed,
                },
                last: reply,
            })
        }),
    decreases outcomes.len(),
{
    let longer = outcomes.push(outcome);
    if outcomes.len() == 0 {
        let item = answer->Ok_0->Sync_0;
        let (next, reply) = flush_step(state, FlushEvent::Outcome(outcome));
        assert(longer.skip(1) =~= Seq::<SyncOutcome>::empty());
        assert(longer[0] == outcome);
        let rest = drive(next, reply, longer.skip(1));
        assert(drive(state, answer, longer) == Run { handed: seq![item] + rest.handed, ..rest });
        match reply {
            Ok(StepView::Sync(handed)) => {
                assert(seq![item] + seq![handed] =~= seq![item].push(handed));
            },
            _ => {
                assert(seq![item] + Seq::<ItemView>::empty() =~= seq![item]);
            },
        }
    } else {
        let item = answer->Ok_0->Sync_0;
        let (next, reply) = flush_step(state, FlushEvent::Outcome(outcomes[0]));
        assert(longer.skip(1) =~= outcomes.skip(1).push(outcome));
        assert(longer[0] == outcomes[0]);
        law_one_more_outcome(next, reply, outcomes.skip(1), outcome);
        let before = drive(next, reply, outcomes.skip(1));
        let (last, answered) = flush_step(before.state, FlushEvent::Outcome(outcome));
        match answered {
            Ok(StepView::Sync(handed)) => {
                assert(seq![item] + before.handed.push(handed) =~= (seq![item]
                    + before.handed).push(handed));
            },
            _ => {},
        }
    }
}

/// Every item that a flush tried is accounted for once: it was delivered, it
/// failed, or it met a conflict; and those that were not delivered are the
/// ones that failed or met a conflict.
pub proof fn law_report_accounts_for_each_item(
    report: ReportView,
    tried: Seq<ItemView>,
    outcomes: Seq<SyncOutcome>,
)
    requires
        tried.len() == outcomes.len(),
    ensures
        ({
            let total = tally(report, tried, outcomes);
            &&& total.processed + total.failed + total.conflicts.len() == report.processed
                + report.failed + report.conflicts.len() + tried.len()
            &&& total.processed + undelivered(tried, outcomes).len() == report.processed
                + tried.len()
        }),
    decreases tried.len(),
{
    if tried.len() > 0 {
        law_report_accounts_for_each_item(
            record(report, tried[0].id, outcomes[0]),
            tried.skip(1),
            outcomes.skip(1),
        );
    }
}

/// A report counts the outcomes: the delivered, the failed, and one conflict
/// for each item that met one. What stays behind is as many items as were not
/// delivered.
pub proof fn law_report_counts_outcomes(
    report: ReportView,
    tried: Seq<ItemView>,
    outcomes: Seq<SyncOutcome>,
)
    requires
        tried.len() == outcomes.len(),
    ensures
        ({
            let total = tally(report, tried, outcomes);
            &&& total.processed == report.processed + count_outcome(outcomes, SyncOutcome::Synced)
            &&& total.failed == report.failed + count_outcome(outcomes, SyncOutcome::Failed)
            &&& total.conflicts.len() == report.conflicts.len() + count_outcome(
                outcomes,
                SyncOutcome::Conflicted,
            )
            &&& undelivered(tried, outcomes).len() + count_outcome(outcomes, SyncOutcome::Synced)
                == outcomes.len()
        }),
    decreases tried.len(),
{
    let none = Seq::<SyncOutcome>::empty();
    let synced = is_outcome(SyncOutcome::Synced);
    let failed = is_outcome(SyncOutcome::Failed);
    let conflicted = is_outcome(SyncOutcome::Conflicted);
    if tried.len() == 0 {
        assert(outcomes =~= none);
        none.lemma_filter_len(synced);
        none.lemma_filter_len(failed);
        none.lemma_filter_len(conflicted);
    } else {
        let rest = outcomes.skip(1);
        assert(outcomes =~= seq![outcomes[0]] + rest);
        rest.lemma_filter_prepend(outcomes[0], synced);
        rest.lemma_filter_prepend(outcomes[0], failed);
        rest.lemma_filter_prepend(outcomes[0], conflicted);
        law_report_counts_outcomes(record(report, tried[0].id, outcomes[0]), tried.skip(1), rest);
    }
}

/// What a flush leaves and lists, item by item: the items that stay behind
/// are those for which the remote side answered anything but delivered, and
/// the conflicts listed are the ids of those for which it answered a
/// conflict, both in the order in which the items were tried.
pub proof fn law_flush_outcome_by_item(
    report: ReportView,
    tried: Seq<ItemView>,
    outcomes: Seq<SyncOutcome>,
)
    requires
        tried.len() == outcomes.len(),
    ensures
        undelivered(tried, outcomes) == items_with(
            answered(tried, outcomes),
            is_not_outcome(SyncOutcome::Synced),
        ),
        tally(report, tried, outcomes).conflicts == report.conflicts + ids_of(
            items_with(answered(tried, outcomes), is_outcome(SyncOutcome::Conflicted)),
        ),
    decreases tried.len(),
{
    let pairs = answered(tried, outcomes);
    let stays = |pair: (ItemView, SyncOutcome)| is_not_outcome(SyncOutcome::Synced)(pair.1);
    let clashes = |pair: (ItemView, SyncOutcome)| is_outcome(SyncOutcome::Conflicted)(pair.1);
    let none = Seq::<(ItemView, SyncOutcome)>::empty();
    if tried.len() == 0 {
        assert(pairs =~= none);
        none.lemma_filter_len(stays);
        none.lemma_filter_len(clashes);
        assert(undelivered(tried, outcomes) =~= items_with(
            pairs,
            is_not_outcome(SyncOutcome::Synced),
        ));
        assert(report.conflicts =~= report.conflicts + ids_of(
            items_with(pairs, is_outcome(SyncOutcome::Conflicted)),
        ));
    } else {
        let first = (tried[0], outcomes[0]);
        let rest = answered(tried.skip(1), outcomes.skip(1));
        let next = record(report, tried[0].id, outcomes[0]);
        assert(pairs =~= seq![first] + rest);
        rest.lemma_filter_prepend(first, stays);
        rest.lemma_filter_prepend(first, clashes);
        law_flush_outcome_by_item(next, tried.skip(1), outcomes.skip(1));
        assert(undelivered(tried, outcomes) =~= items_with(
            pairs,
            is_not_outcome(SyncOutcome::Synced),
        ));
        assert(tally(report, tried, outcomes).conflicts =~= report.conflicts + ids_of(
            items_with(pairs, is_outcome(SyncOutcome::Conflicted)),
        ));
    }
}

/// The item that a resolution applies to is the first one with the id: it has
/// the id, and no item before it has.
pub proof fn law_first_with_id_is_first(items: Seq<ItemView>, id: Seq<char>, from: int)
    requires
        0 <= from <= items.len(),
    ensures
        from <= first_with_id(items, id, from) <= items.len(),
        first_with_id(items, id, from) < items.len() ==> items[first_with_id(items, id, from)].id
            == id,
        forall|j: int| from <= j < first_with_id(items, id, from) ==> (#[trigger] items[j]).id != id,
    decreases items.len() - from,
{
    if from < items.len() && items[from].id != id {
        law_first_with_id_is_first(items, id, from + 1);
    }
}

/// A snapshot that is loaded again gives the queue back: the same items in
/// the same order, with every field as it was, whatever state the loading
/// engine was in.
pub proof fn law_snapshot_gives_the_queue_back(saved: QueueState, loading: QueueState)
    ensures
        load_step(loading, ReadView::Items(snapshot_of(saved))).0.items == saved.items,
        load_step(loading, ReadView::Items(snapshot_of(saved))).1 is Ok,
        saved.flight is None ==> load_step(saved, ReadView::Items(snapshot_of(saved))).0 == saved,
{
}

} // verus!
