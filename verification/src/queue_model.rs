//! The mathematical model of the sync queue.
//!
//! Everything the engine promises is stated over the values defined here: a
//! queue is a sequence of items in enqueue order, a flush is a walk over the
//! pending ones, and each step of that walk is a function from the state and
//! an event to the next state and what the caller has to do next.

use vstd::prelude::*;
use crate::electric_sync::FlushEvent;
use crate::electric_sync::SyncError;
use crate::electric_sync::SyncOutcome;

verus! {

/// What a queued item is, as a mathematical value.
pub struct ItemView {
    pub id: Seq<char>,
    pub action: Seq<char>,
    pub path: Seq<char>,
    pub content: Option<Seq<char>>,
    pub timestamp: int,
    pub synced: bool,
}

/// The report of a flush: how many items were delivered, how many failed, and
/// the ids of those that met a conflict, in the order in which they were tried.
pub struct ReportView {
    pub processed: nat,
    pub failed: nat,
    pub conflicts: Seq<Seq<char>>,
}

/// A flush that has begun and not ended.
pub struct FlightView {
    /// Index of the item that was handed out and whose outcome is awaited.
    pub cursor: int,
    /// Length of the queue when the flush began; later items wait for the next flush.
    pub limit: int,
    /// What the flush has seen so far.
    pub report: ReportView,
}

/// The engine's whole state.
pub struct QueueState {
    /// Where the snapshot of the queue is kept.
    pub path: Seq<char>,
    /// The items, in enqueue order.
    pub items: Seq<ItemView>,
    /// The flush in flight, if there is one.
    pub flight: Option<FlightView>,
}

/// What the caller of a flush step has to do next.
pub enum StepView {
    /// Hand this item to the remote side and come back with its outcome.
    Sync(ItemView),
    /// The flush is over and the queue is pruned: persist it and report.
    Done(ReportView),
    /// The flush was cancelled; the report covers the items tried until then.
    Cancelled(ReportView),
}

/// The items that still wait for delivery, in queue order. Pruning a queue
/// keeps exactly these.
pub open spec fn pending(items: Seq<ItemView>) -> Seq<ItemView> {
    items.filter(|item: ItemView| !item.synced)
}

/// Appending an item to a queue appends it to the pending items if it is
/// pending itself, and leaves them alone if it is not.
pub proof fn lemma_pending_push(items: Seq<ItemView>, item: ItemView)
    ensures
        pending(items.push(item)) == if item.synced {
            pending(items)
        } else {
            pending(items).push(item)
        },
{
    items.lemma_filter_push(item, |item: ItemView| !item.synced);
}

/// No item among the pending ones is marked as delivered.
pub proof fn lemma_pending_all_unsynced(items: Seq<ItemView>)
    ensures
        forall|i: int| 0 <= i < pending(items).len() ==> !(#[trigger] pending(items)[i]).synced,
{
    assert forall|i: int| 0 <= i < pending(items).len() implies !(#[trigger] pending(
        items,
    )[i]).synced by {
        items.lemma_filter_pred(|item: ItemView| !item.synced, i);
    }
}

/// The item with its `synced` flag set to `synced`.
pub open spec fn with_synced(item: ItemView, synced: bool) -> ItemView {
    ItemView { synced, ..item }
}

/// The report of a flush that has tried nothing yet.
pub open spec fn empty_report() -> ReportView {
    ReportView { processed: 0, failed: 0, conflicts: Seq::empty() }
}

/// The report after one more outcome, for the item with the given id.
pub open spec fn record(report: ReportView, id: Seq<char>, outcome: SyncOutcome) -> ReportView {
    match outcome {
        SyncOutcome::Synced => ReportView { processed: report.processed + 1, ..report },
        SyncOutcome::Conflicted => ReportView { conflicts: report.conflicts.push(id), ..report },
        SyncOutcome::Failed => ReportView { failed: report.failed + 1, ..report },
    }
}

/// The queue after the remote side answered for the item at `index`: a
/// delivered item is marked, any other stays as it is.
pub open spec fn settle(items: Seq<ItemView>, index: int, outcome: SyncOutcome) -> Seq<ItemView> {
    match outcome {
        SyncOutcome::Synced => items.update(index, with_synced(items[index], true)),
        _ => items,
    }
}

/// The first index in `from..limit` whose item is pending, or `limit` if
/// there is none.
pub open spec fn next_pending(items: Seq<ItemView>, from: int, limit: int) -> int
    decreases limit - from,
{
    if from >= limit {
        limit
    } else if !items[from].synced {
        from
    } else {
        next_pending(items, from + 1, limit)
    }
}

impl QueueState {
    /// A flight points at a pending item inside the part of the queue that it
    /// covers, and has counted no more outcomes than there are items before it.
    pub open spec fn wf(self) -> bool {
        self.flight matches Some(flight) ==> {
            &&& 0 <= flight.cursor < flight.limit <= self.items.len()
            &&& !self.items[flight.cursor].synced
            &&& flight.report.processed + flight.report.failed + flight.report.conflicts.len()
                <= flight.cursor
        }
    }
}

/// Where a flush goes once every item before `from` is dealt with: the next
/// pending item below `limit` is handed out, or, if there is none, the queue
/// is pruned and the flush ends with `report`.
pub open spec fn advance(state: QueueState, from: int, limit: int, report: ReportView) -> (
    QueueState,
    StepView,
) {
    let next = next_pending(state.items, from, limit);
    if next < limit {
        (
            QueueState { flight: Some(FlightView { cursor: next, limit, report }), ..state },
            StepView::Sync(state.items[next]),
        )
    } else {
        (QueueState { items: pending(state.items), flight: None, ..state }, StepView::Done(report))
    }
}

/// One step of a flush: the next state, and what the caller has to do or the
/// error it gets.
///
/// - `Begin` starts a flush over the items that the queue holds at that
///   moment, unless one is in flight already.
/// - `Outcome` records the remote side's answer for the item that was handed
///   out last and moves on.
/// - `Cancel` ends the flush where it stands: what was delivered stays marked,
///   what was not reached stays pending, and nothing is pruned.
pub open spec fn flush_step(state: QueueState, event: FlushEvent) -> (
    QueueState,
    Result<StepView, SyncError>,
) {
    match state.flight {
        None => match event {
            FlushEvent::Begin => {
                let (next, step) = advance(state, 0, state.items.len() as int, empty_report());
                (next, Ok(step))
            },
            _ => (state, Err(SyncError::NoFlushInProgress)),
        },
        Some(flight) => match event {
            FlushEvent::Begin => (state, Err(SyncError::FlushInProgress)),
            FlushEvent::Outcome(outcome) => {
                let settled = QueueState {
                    items: settle(state.items, flight.cursor, outcome),
                    flight: None,
                    ..state
                };
                let report = record(flight.report, state.items[flight.cursor].id, outcome);
                let (next, step) = advance(settled, flight.cursor + 1, flight.limit, report);
                (next, Ok(step))
            },
            FlushEvent::Cancel => (
                QueueState { flight: None, ..state },
                Ok(StepView::Cancelled(flight.report)),
            ),
        },
    }
}

/// A flush played through: where it left the engine, the items that it handed
/// out, in the order in which it did, and the last answer that it gave.
pub struct Run {
    pub state: QueueState,
    pub handed: Seq<ItemView>,
    pub last: Result<StepView, SyncError>,
}

/// Plays a flush on from the point where the engine, now in `state`, gave
/// `answer`: for as long as the answer is an item to deliver and an outcome is
/// left in `outcomes`, the next outcome is reported back.
pub open spec fn drive(
    state: QueueState,
    answer: Result<StepView, SyncError>,
    outcomes: Seq<SyncOutcome>,
) -> Run
    decreases outcomes.len(),
{
    match answer {
        Ok(StepView::Sync(item)) => {
            if outcomes.len() == 0 {
                Run { state, handed: seq![item], last: answer }
            } else {
                let (next, reply) = flush_step(state, FlushEvent::Outcome(outcomes[0]));
                let rest = drive(next, reply, outcomes.skip(1));
                Run { handed: seq![item] + rest.handed, ..rest }
            }
        },
        _ => Run { state, handed: Seq::empty(), last: answer },
    }
}

/// A whole flush: it begins in `state`, and the remote side answers
/// `outcomes[0]` for the first item that it is given, `outcomes[1]` for the
/// second, and so on.
pub open spec fn whole_flush(state: QueueState, outcomes: Seq<SyncOutcome>) -> Run {
    let (next, reply) = flush_step(state, FlushEvent::Begin);
    drive(next, reply, outcomes)
}

/// The report that `report` becomes when the items `tried` are tried in their
/// order and the remote side answers `outcomes[0]` for the first,
/// `outcomes[1]` for the second, and so on.
pub open spec fn tally(report: ReportView, tried: Seq<ItemView>, outcomes: Seq<SyncOutcome>) -> ReportView
    decreases tried.len(),
{
    if tried.len() == 0 || outcomes.len() == 0 {
        report
    } else {
        tally(record(report, tried[0].id, outcomes[0]), tried.skip(1), outcomes.skip(1))
    }
}

/// The items among `tried` that were not delivered, in their order, when the
/// remote side answers `outcomes[0]` for the first, `outcomes[1]` for the
/// second, and so on.
pub open spec fn undelivered(tried: Seq<ItemView>, outcomes: Seq<SyncOutcome>) -> Seq<ItemView>
    decreases tried.len(),
{
    if tried.len() == 0 || outcomes.len() == 0 {
        Seq::empty()
    } else {
        let rest = undelivered(tried.skip(1), outcomes.skip(1));
        match outcomes[0] {
            SyncOutcome::Synced => rest,
            _ => seq![tried[0]] + rest,
        }
    }
}

/// The items `tried`, each with the outcome that the remote side answered for
/// it.
pub open spec fn answered(tried: Seq<ItemView>, outcomes: Seq<SyncOutcome>) -> Seq<
    (ItemView, SyncOutcome),
> {
    tried.zip_with(outcomes)
}

/// The items of those pairs whose outcome passes `test`, in their order.
pub open spec fn items_with(
    pairs: Seq<(ItemView, SyncOutcome)>,
    test: spec_fn(SyncOutcome) -> bool,
) -> Seq<ItemView> {
    pairs.filter(|pair: (ItemView, SyncOutcome)| test(pair.1)).map_values(
        |pair: (ItemView, SyncOutcome)| pair.0,
    )
}

/// The ids of a sequence of items.
pub open spec fn ids_of(items: Seq<ItemView>) -> Seq<Seq<char>> {
    items.map_values(|item: ItemView| item.id)
}

/// The test whether an answer is not `outcome`.
pub open spec fn is_not_outcome(outcome: SyncOutcome) -> spec_fn(SyncOutcome) -> bool {
    |answer: SyncOutcome| answer != outcome
}

/// The test whether an answer is `outcome`.
pub open spec fn is_outcome(outcome: SyncOutcome) -> spec_fn(SyncOutcome) -> bool {
    |answer: SyncOutcome| answer == outcome
}

/// How often `outcome` occurs among `outcomes`.
pub open spec fn count_outcome(outcomes: Seq<SyncOutcome>, outcome: SyncOutcome) -> nat {
    outcomes.filter(is_outcome(outcome)).len()
}

/// `after` and `report` are what a whole flush of `before` gives when the
/// remote side answers `outcomes`, one for each pending item in queue order:
/// the report is the tally of the outcomes, and the queue keeps the pending
/// items that were not delivered and nothing else.
pub open spec fn is_flush_of(
    before: QueueState,
    outcomes: Seq<SyncOutcome>,
    after: QueueState,
    report: ReportView,
) -> bool {
    &&& outcomes.len() == pending(before.items).len()
    &&& report == tally(empty_report(), pending(before.items), outcomes)
    &&& after == (QueueState { items: undelivered(pending(before.items), outcomes), ..before })
}

/// `after` and `report` are what a whole flush of `before` gives for some
/// outcomes that the remote side may have answered, one for each pending item.
pub open spec fn is_some_flush_of(before: QueueState, after: QueueState, report: ReportView) -> bool {
    exists|outcomes: Seq<SyncOutcome>| #[trigger] is_flush_of(before, outcomes, after, report)
}

/// What reading the stored snapshot gave, as a mathematical value.
pub enum ReadView {
    /// There is no snapshot yet.
    Missing,
    /// The snapshot is there and could not be read.
    Unreadable,
    /// The snapshot was read and does not hold a queue.
    Corrupt,
    /// The queue that the snapshot holds.
    Items(Seq<ItemView>),
}

/// What a snapshot of the engine has to hold: the whole queue in enqueue
/// order, delivered items that are not pruned yet included.
pub open spec fn snapshot_of(state: QueueState) -> Seq<ItemView> {
    state.items
}

/// What loading does: a snapshot replaces the queue, a missing one empties
/// it, and either ends a flush in flight; a snapshot that could not be read or
/// does not hold a queue is an error and changes nothing.
pub open spec fn load_step(state: QueueState, read: ReadView) -> (QueueState, Result<(), SyncError>) {
    match read {
        ReadView::Missing => (QueueState { items: Seq::empty(), flight: None, ..state }, Ok(())),
        ReadView::Items(items) => (QueueState { items, flight: None, ..state }, Ok(())),
        ReadView::Unreadable => (state, Err(SyncError::IoError)),
        ReadView::Corrupt => (state, Err(SyncError::CorruptData)),
    }
}

/// A directive for the resolver, as a mathematical value.
pub struct ResolutionView {
    pub strategy: Seq<char>,
    pub local_version: Seq<char>,
    pub remote_version: Seq<char>,
    pub resolved_content: Option<Seq<char>>,
}

/// The first index at or after `from` whose item has the id `id`, or the
/// length of the queue if there is none.
pub open spec fn first_with_id(items: Seq<ItemView>, id: Seq<char>, from: int) -> int
    decreases items.len() - from,
{
    if from >= items.len() {
        items.len() as int
    } else if items[from].id == id {
        from
    } else {
        first_with_id(items, id, from + 1)
    }
}

/// The two strategies have different names.
pub proof fn lemma_strategies_differ()
    ensures
        "merge"@ != "last-write-wins"@,
{
    reveal_strlit("merge");
    reveal_strlit("last-write-wins");
    assert("merge"@.len() == 5);
    assert("last-write-wins"@.len() == 15);
}

/// The item as the merge strategy leaves it: it carries the merged content and
/// waits for delivery.
pub open spec fn merged(item: ItemView, content: Seq<char>) -> ItemView {
    ItemView { content: Some(content), synced: false, ..item }
}

/// What resolving a conflict does to the queue.
///
/// The directive applies to the first item with the id `id`. The strategy
/// `last-write-wins` schedules the item for another attempt and leaves its
/// content alone; `merge` also replaces its content by the merged content,
/// which must be there. An unknown id, an unknown strategy and a merge without
/// content are errors, looked for in this order.
pub open spec fn resolve(items: Seq<ItemView>, id: Seq<char>, resolution: ResolutionView) -> Result<
    Seq<ItemView>,
    SyncError,
> {
    let at = first_with_id(items, id, 0);
    if at >= items.len() {
        Err(SyncError::ItemNotFound)
    } else if resolution.strategy == "last-write-wins"@ {
        Ok(items.update(at, with_synced(items[at], false)))
    } else if resolution.strategy == "merge"@ {
        match resolution.resolved_content {
            Some(content) => Ok(items.update(at, merged(items[at], content))),
            None => Err(SyncError::MissingMergeContent),
        }
    } else {
        Err(SyncError::UnknownStrategy)
    }
}

/// The statistics of a queue, as a mathematical value.
pub struct StatsView {
    pub total: nat,
    pub pending: nat,
    pub synced: nat,
    pub by_action: Map<Seq<char>, nat>,
}

/// How many items of the queue have the action `action`.
pub open spec fn count_action(items: Seq<ItemView>, action: Seq<char>) -> nat {
    items.filter(|item: ItemView| item.action == action).len()
}

/// For each action that occurs in the queue, the number of items that have it.
pub open spec fn action_counts(items: Seq<ItemView>) -> Map<Seq<char>, nat> {
    Map::new(
        |action: Seq<char>| count_action(items, action) > 0,
        |action: Seq<char>| count_action(items, action),
    )
}

/// The statistics of a queue: the number of its items, of those that wait for
/// delivery and of the others, and the number of items for each action.
pub open spec fn stats_of(items: Seq<ItemView>) -> StatsView {
    StatsView {
        total: items.len(),
        pending: pending(items).len(),
        synced: (items.len() - pending(items).len()) as nat,
        by_action: action_counts(items),
    }
}

/// Appending an item adds one to the count of its own action and leaves the
/// other counts alone; no count exceeds the length of the queue.
pub proof fn lemma_count_action_push(items: Seq<ItemView>, item: ItemView, action: Seq<char>)
    ensures
        count_action(items.push(item), action) == count_action(items, action) + if item.action
            == action {
            1nat
        } else {
            0nat
        },
        count_action(items, action) <= items.len(),
{
    items.lemma_filter_push(item, |item: ItemView| item.action == action);
    items.lemma_filter_len(|item: ItemView| item.action == action);
}

} // verus!
