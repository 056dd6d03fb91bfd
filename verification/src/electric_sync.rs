//! The sync queue engine: the items it buffers, the flush that drains them,
//! and conflict resolution.
//!
//! The engine owns the queue and never talks to the outside world itself. A
//! flush hands the pending items to a remote adapter that the caller brings
//! along; a caller that has to wait for the remote side can drive the flush
//! step by step instead, taking each item that the engine hands out to the
//! remote side and coming back with the outcome. Likewise the caller persists
//! the queue after each operation that changed it, and hands the engine what
//! it read from the store at startup.

use vstd::prelude::*;
use vstd::hash_map::StringHashMap;
use crate::laws::law_flush_in_progress;
use crate::laws::law_flush_without_pending;
use crate::laws::law_one_more_outcome;
use crate::laws::law_report_accounts_for_each_item;
use crate::laws::law_whole_flush;
use crate::queue_model::action_counts;
use crate::queue_model::advance;
use crate::queue_model::count_action;
use crate::queue_model::empty_report;
use crate::queue_model::first_with_id;
use crate::queue_model::FlightView;
use crate::queue_model::flush_step;
use crate::queue_model::is_flush_of;
use crate::queue_model::is_some_flush_of;
use crate::queue_model::ItemView;
use crate::queue_model::lemma_count_action_push;
use crate::queue_model::lemma_pending_all_unsynced;
use crate::queue_model::lemma_pending_push;
use crate::queue_model::lemma_strategies_differ;
use crate::queue_model::load_step;
use crate::queue_model::next_pending;
use crate::queue_model::pending;
use crate::queue_model::QueueState;
use crate::queue_model::ReadView;
use crate::queue_model::record;
use crate::queue_model::ReportView;
use crate::queue_model::ResolutionView;
use crate::queue_model::resolve;
use crate::queue_model::settle;
use crate::queue_model::snapshot_of;
use crate::queue_model::stats_of;
use crate::queue_model::StatsView;
use crate::queue_model::StepView;
use crate::queue_model::whole_flush;
use crate::text::text_view;
use crate::text::text_views;

verus! {

/// One buffered local mutation.
#[derive(Debug)]
pub struct SyncQueueItem {
    pub id: String,
    /// `"create"`, `"update"` or `"delete"`.
    pub action: String,
    pub path: String,
    pub content: Option<String>,
    pub timestamp: i64,
    pub synced: bool,
}

impl View for SyncQueueItem {
    type V = ItemView;

    open spec fn view(&self) -> ItemView {
        ItemView {
            id: self.id@,
            action: self.action@,
            path: self.path@,
            content: text_view(self.content),
            timestamp: self.timestamp as int,
            synced: self.synced,
        }
    }
}

impl Clone for SyncQueueItem {
    fn clone(&self) -> (copy: Self)
        ensures
            copy == *self,
    {
        let content = match &self.content {
            Some(text) => Some(text.clone()),
            None => None,
        };
        SyncQueueItem {
            id: self.id.clone(),
            action: self.action.clone(),
            path: self.path.clone(),
            content,
            timestamp: self.timestamp,
            synced: self.synced,
        }
    }
}

/// The views of a sequence of items.
pub open spec fn item_views(items: Seq<SyncQueueItem>) -> Seq<ItemView> {
    items.map_values(|item: SyncQueueItem| item@)
}

/// A directive for the resolver: how to settle the conflict that one item met.
#[derive(Debug)]
pub struct ConflictResolution {
    /// `"last-write-wins"` or `"merge"`.
    pub strategy: String,
    /// Marker of the local version, for display and audit.
    pub local_version: String,
    /// Marker of the remote version, for display and audit.
    pub remote_version: String,
    /// The content that the caller merged; the merge strategy needs it.
    pub resolved_content: Option<String>,
}

impl View for ConflictResolution {
    type V = ResolutionView;

    open spec fn view(&self) -> ResolutionView {
        ResolutionView {
            strategy: self.strategy@,
            local_version: self.local_version@,
            remote_version: self.remote_version@,
            resolved_content: text_view(self.resolved_content),
        }
    }
}

impl Clone for ConflictResolution {
    fn clone(&self) -> (copy: Self)
        ensures
            copy == *self,
    {
        let resolved_content = match &self.resolved_content {
            Some(text) => Some(text.clone()),
            None => None,
        };
        ConflictResolution {
            strategy: self.strategy.clone(),
            local_version: self.local_version.clone(),
            remote_version: self.remote_version.clone(),
            resolved_content,
        }
    }
}

/// What reading the stored snapshot gave.
#[derive(Debug)]
pub enum StoreRead {
    /// There is no snapshot yet.
    Missing,
    /// The snapshot is there and could not be read.
    Unreadable,
    /// The snapshot was read and does not hold a queue.
    Corrupt,
    /// The queue that the snapshot holds.
    Items(Vec<SyncQueueItem>),
}

impl View for StoreRead {
    type V = ReadView;

    open spec fn view(&self) -> ReadView {
        match self {
            StoreRead::Missing => ReadView::Missing,
            StoreRead::Unreadable => ReadView::Unreadable,
            StoreRead::Corrupt => ReadView::Corrupt,
            StoreRead::Items(items) => ReadView::Items(item_views(items@)),
        }
    }
}

/// The views of the items behind a sequence of references.
pub open spec fn ref_views(items: Seq<&SyncQueueItem>) -> Seq<ItemView> {
    items.map_values(|item: &SyncQueueItem| item@)
}

/// What the remote side answered for one item.
#[derive(Clone, Copy, Debug, PartialEq, Eq, Structural)]
pub enum SyncOutcome {
    /// The item was delivered.
    Synced,
    /// Local and remote state disagree; the item waits for a resolution.
    Conflicted,
    /// The attempt failed; the item is tried again by the next flush.
    Failed,
}

impl SyncOutcome {
    /// What a call to the remote side counts as: its answer where it gave one,
    /// and a failed attempt where the call itself broke down.
    pub fn from_reply(reply: Result<SyncOutcome, SyncError>) -> (outcome: SyncOutcome)
        ensures
            outcome == match reply {
                Ok(answer) => answer,
                Err(_) => SyncOutcome::Failed,
            },
    {
        match reply {
            Ok(answer) => answer,
            Err(_) => SyncOutcome::Failed,
        }
    }
}

/// The remote side of the sync, as the engine sees it.
pub trait RemoteSyncAdapter {
    /// Takes one item to the remote authority and says what became of it. An
    /// error stands for a call that broke down.
    fn sync(&mut self, item: &SyncQueueItem) -> Result<SyncOutcome, SyncError>;
}

/// An event in the life of a flush.
#[derive(Clone, Copy, Debug, PartialEq, Eq, Structural)]
pub enum FlushEvent {
    /// The caller asks for a flush.
    Begin,
    /// The remote side answered for the item handed out last.
    Outcome(SyncOutcome),
    /// The caller gives the flush up, as on shutdown.
    Cancel,
}

/// What can go wrong.
#[derive(Clone, Copy, Debug, PartialEq, Eq, Structural)]
pub enum SyncError {
    /// The snapshot could not be read or written.
    IoError,
    /// The snapshot does not hold a queue.
    CorruptData,
    /// No item of the queue has the id.
    ItemNotFound,
    /// The strategy's name is not one the resolver knows.
    UnknownStrategy,
    /// The merge strategy was asked for without the merged content.
    MissingMergeContent,
    /// The call to the remote side itself broke down.
    AdapterFailure,
    /// A flush was asked for while another is in flight.
    FlushInProgress,
    /// An outcome or a cancellation arrived while no flush is in flight.
    NoFlushInProgress,
}

/// What an error says to the user.
pub open spec fn message_of(error: SyncError) -> Seq<char> {
    match error {
        SyncError::IoError => "Failed to read or write queue"@,
        SyncError::CorruptData => "Failed to parse queue"@,
        SyncError::ItemNotFound => "Item not found"@,
        SyncError::UnknownStrategy => "Unknown conflict strategy"@,
        SyncError::MissingMergeContent => "Merge needs the resolved content"@,
        SyncError::AdapterFailure => "Remote sync failed"@,
        SyncError::FlushInProgress => "A flush is already in progress"@,
        SyncError::NoFlushInProgress => "No flush is in progress"@,
    }
}

impl SyncError {
    /// What the error says to the user.
    pub fn message(&self) -> (text: String)
        ensures
            text@ == message_of(*self),
    {
        match self {
            SyncError::IoError => "Failed to read or write queue".to_string(),
            SyncError::CorruptData => "Failed to parse queue".to_string(),
            SyncError::ItemNotFound => "Item not found".to_string(),
            SyncError::UnknownStrategy => "Unknown conflict strategy".to_string(),
            SyncError::MissingMergeContent => "Merge needs the resolved content".to_string(),
            SyncError::AdapterFailure => "Remote sync failed".to_string(),
            SyncError::FlushInProgress => "A flush is already in progress".to_string(),
            SyncError::NoFlushInProgress => "No flush is in progress".to_string(),
        }
    }
}

/// The outcome of one flush.
#[derive(Debug)]
pub struct FlushResult {
    /// How many items were delivered.
    pub processed: usize,
    /// How many attempts failed.
    pub failed: usize,
    /// The ids of the items that met a conflict, in the order in which they were tried.
    pub conflicts: Vec<String>,
}

impl View for FlushResult {
    type V = ReportView;

    open spec fn view(&self) -> ReportView {
        ReportView {
            processed: self.processed as nat,
            failed: self.failed as nat,
            conflicts: text_views(self.conflicts@),
        }
    }
}

/// A snapshot of the queue in numbers.
pub struct QueueStats {
    /// How many items the queue holds.
    pub total: usize,
    /// How many of them wait for delivery.
    pub pending: usize,
    /// How many of them are delivered and not pruned yet.
    pub synced: usize,
    /// How many items there are for each action that occurs.
    pub by_action: StringHashMap<usize>,
}

impl View for QueueStats {
    type V = StatsView;

    open spec fn view(&self) -> StatsView {
        StatsView {
            total: self.total as nat,
            pending: self.pending as nat,
            synced: self.synced as nat,
            by_action: self.by_action@.map_values(|count: usize| count as nat),
        }
    }
}

/// What the caller of [`ElectricSync::flush_step`] has to do next.
#[derive(Debug)]
pub enum FlushStep {
    /// Hand this item to the remote side and come back with its outcome.
    Sync(SyncQueueItem),
    /// The flush is over and the queue is pruned: persist it and report.
    Done(FlushResult),
    /// The flush was cancelled; the report covers the items tried until then.
    Cancelled(FlushResult),
}

impl View for FlushStep {
    type V = StepView;

    open spec fn view(&self) -> StepView {
        match self {
            FlushStep::Sync(item) => StepView::Sync(item@),
            FlushStep::Done(report) => StepView::Done(report@),
            FlushStep::Cancelled(report) => StepView::Cancelled(report@),
        }
    }
}

/// The view of what a flush step returned.
pub open spec fn step_view(result: Result<FlushStep, SyncError>) -> Result<StepView, SyncError> {
    match result {
        Ok(step) => Ok(step@),
        Err(error) => Err(error),
    }
}

/// A flush that has begun and not ended.
struct Flight {
    cursor: usize,
    limit: usize,
    report: FlushResult,
}

impl View for Flight {
    type V = FlightView;

    closed spec fn view(&self) -> FlightView {
        FlightView { cursor: self.cursor as int, limit: self.limit as int, report: self.report@ }
    }
}

/// The items of `queue` that still wait for delivery, in their order.
fn prune(queue: Vec<SyncQueueItem>) -> (kept: Vec<SyncQueueItem>)
    ensures
        item_views(kept@) == pending(item_views(queue@)),
{
    let mut kept: Vec<SyncQueueItem> = Vec::new();
    for item in it: queue
        invariant
            it.seq() == queue@,
            item_views(kept@) == pending(item_views(queue@.take(it.index()))),
    {
        proof {
            let seen = queue@.take(it.index());
            assert(queue@.take(it.index() + 1) =~= seen.push(item));
            assert(item_views(seen.push(item)) =~= item_views(seen).push(item@));
            lemma_pending_push(item_views(seen), item@);
        }
        if !item.synced {
            proof {
                assert(item_views(kept@.push(item)) =~= item_views(kept@).push(item@));
            }
            kept.push(item);
        }
    }
    proof {
        assert(queue@.take(queue@.len() as int) =~= queue@);
    }
    kept
}

/// The view of the flight that an engine holds.
spec fn flight_view(flight: Option<Flight>) -> Option<FlightView> {
    match flight {
        Some(flight) => Some(flight@),
        None => None,
    }
}

/// The sync queue engine.
pub struct ElectricSync {
    queue: Vec<SyncQueueItem>,
    queue_path: String,
    flight: Option<Flight>,
}

impl View for ElectricSync {
    type V = QueueState;

    closed spec fn view(&self) -> QueueState {
        QueueState {
            path: self.queue_path@,
            items: item_views(self.queue@),
            flight: flight_view(self.flight),
        }
    }
}

impl ElectricSync {
    /// What holds of every engine: its state is well formed.
    #[verifier::type_invariant]
    pub open spec fn well_formed(self) -> bool {
        self@.wf()
    }

    /// An engine with an empty queue, no flush in flight, and its snapshot at
    /// `.nova/sync-queue.json`.
    pub fn new() -> (engine: Self)
        ensures
            engine@.path == ".nova/sync-queue.json"@,
            engine@.items == Seq::<ItemView>::empty(),
            engine@.flight is None,
    {
        let engine = ElectricSync {
            queue: Vec::new(),
            queue_path: ".nova/sync-queue.json".to_string(),
            flight: None,
        };
        assert(item_views(engine.queue@) =~= Seq::<ItemView>::empty());
        engine
    }

    /// Takes the queue and the flight out, leaving an empty queue with no flight.
    fn take_parts(&mut self) -> (parts: (Vec<SyncQueueItem>, Option<Flight>))
        ensures
            parts.0 == old(self).queue,
            parts.1 == old(self).flight,
            final(self).queue@.len() == 0,
            final(self).flight is None,
            final(self).queue_path == old(self).queue_path,
    {
        let mut queue: Vec<SyncQueueItem> = Vec::new();
        let mut flight: Option<Flight> = None;
        std::mem::swap(&mut self.flight, &mut flight);
        std::mem::swap(&mut self.queue, &mut queue);
        (queue, flight)
    }

    /// Puts a queue and a flight in place.
    fn put_parts(&mut self, queue: Vec<SyncQueueItem>, flight: Option<Flight>)
        requires
            old(self).flight is None,
            (QueueState { items: item_views(queue@), flight: flight_view(flight), ..old(self)@ }).wf(),
        ensures
            final(self).queue == queue,
            final(self).flight == flight,
            final(self).queue_path == old(self).queue_path,
    {
        self.queue = queue;
        self.flight = flight;
    }

    /// Appends `item` to the end of the queue. Nothing is looked up or merged:
    /// several items may target one path. A flush in flight is not disturbed;
    /// it does not cover the new item.
    pub fn enqueue(&mut self, item: SyncQueueItem)
        ensures
            final(self)@ == (QueueState { items: old(self)@.items.push(item@), ..old(self)@ }),
    {
        proof {
            use_type_invariant(&*self);
        }
        let (mut queue, flight) = self.take_parts();
        queue.push(item);
        assert(item_views(queue@) =~= old(self)@.items.push(item@));
        self.put_parts(queue, flight);
    }

    /// Where the snapshot of the queue is kept.
    pub fn queue_path(&self) -> (path: &String)
        ensures
            path@ == self@.path,
    {
        &self.queue_path
    }

    /// The whole queue in enqueue order, delivered items that are not pruned
    /// yet included: what a snapshot has to hold.
    pub fn items(&self) -> (items: &Vec<SyncQueueItem>)
        ensures
            item_views(items@) == snapshot_of(self@),
    {
        &self.queue
    }

    /// The items that still wait for delivery, in queue order.
    pub fn get_pending(&self) -> (found: Vec<&SyncQueueItem>)
        ensures
            ref_views(found@) == pending(self@.items),
    {
        let mut found: Vec<&SyncQueueItem> = Vec::new();
        let mut i: usize = 0;
        while i < self.queue.len()
            invariant
                i <= self.queue@.len(),
                ref_views(found@) == pending(item_views(self.queue@.take(i as int))),
            decreases self.queue@.len() - i,
        {
            let item = &self.queue[i];
            proof {
                let seen = self.queue@.take(i as int);
                assert(self.queue@.take(i + 1) =~= seen.push(*item));
                assert(item_views(seen.push(*item)) =~= item_views(seen).push(item@));
                lemma_pending_push(item_views(seen), item@);
            }
            if !item.synced {
                proof {
                    assert(ref_views(found@.push(item)) =~= ref_views(found@).push(item@));
                }
                found.push(item);
            }
            i += 1;
        }
        proof {
            assert(self.queue@.take(self.queue@.len() as int) =~= self.queue@);
        }
        found
    }

    /// The statistics of the queue as it stands. Nothing is changed.
    pub fn get_stats(&self) -> (stats: QueueStats)
        ensures
            stats@ == stats_of(self@.items),
    {
        let total = self.queue.len();
        let mut pending_count: usize = 0;
        let mut by_action: StringHashMap<usize> = StringHashMap::new();
        let mut i: usize = 0;
        proof {
            assert(item_views(self.queue@.take(0)) =~= Seq::<ItemView>::empty());
        }
        while i < total
            invariant
                total == self.queue@.len(),
                i <= total,
                pending_count == pending(item_views(self.queue@.take(i as int))).len(),
                pending_count <= i,
                forall|action: Seq<char>|
                    by_action@.contains_key(action) <==> count_action(
                        item_views(self.queue@.take(i as int)),
                        action,
                    ) > 0,
                forall|action: Seq<char>|
                    by_action@.contains_key(action) ==> by_action@[action] == count_action(
                        item_views(self.queue@.take(i as int)),
                        action,
                    ),
            decreases total - i,
        {
            let item = &self.queue[i];
            let ghost seen = item_views(self.queue@.take(i as int));
            proof {
                assert(self.queue@.take(i + 1) =~= self.queue@.take(i as int).push(*item));
                assert(item_views(self.queue@.take(i as int).push(*item)) =~= seen.push(item@));
                lemma_pending_push(seen, item@);
                assert forall|action: Seq<char>|
                    count_action(seen.push(item@), action) == count_action(seen, action)
                        + if item@.action == action {
                        1nat
                    } else {
                        0nat
                    } && count_action(seen, action) <= i by {
                    lemma_count_action_push(seen, item@, action);
                }
            }
            if !item.synced {
                pending_count += 1;
            }
            let so_far: usize = match by_action.get(item.action.as_str()) {
                Some(count) => *count,
                None => 0,
            };
            by_action.insert(item.action.clone(), so_far + 1);
            i += 1;
        }
        proof {
            assert(self.queue@.take(total as int) =~= self.queue@);
        }
        let stats = QueueStats {
            total,
            pending: pending_count,
            synced: total - pending_count,
            by_action,
        };
        proof {
            assert(stats@.by_action =~= action_counts(self@.items));
        }
        stats
    }

    /// Applies one directive to the first item with the id `item_id`.
    ///
    /// Succeeds exactly when [`resolve`] does, and then leaves the queue as
    /// `resolve` gives it; on an error nothing changes. A flush in flight is
    /// not disturbed.
    pub fn resolve_conflict(&mut self, item_id: &str, resolution: ConflictResolution) -> (result:
        Result<(), SyncError>)
        ensures
            match resolve(old(self)@.items, item_id@, resolution@) {
                Ok(items) => result is Ok && final(self)@ == (QueueState { items, ..old(self)@ }),
                Err(error) => result == Err::<(), SyncError>(error) && final(self)@ == old(self)@,
            },
    {
        proof {
            use_type_invariant(&*self);
            lemma_strategies_differ();
        }
        let wanted = item_id.to_string();
        let ghost items = item_views(self.queue@);
        let mut at: usize = 0;
        while at < self.queue.len() && self.queue[at].id != wanted
            invariant
                at <= self.queue@.len(),
                items == item_views(self.queue@),
                wanted@ == item_id@,
                first_with_id(items, item_id@, at as int) == first_with_id(items, item_id@, 0),
            decreases self.queue@.len() - at,
        {
            at += 1;
        }
        if at >= self.queue.len() {
            return Err(SyncError::ItemNotFound);
        }
        let merge = resolution.strategy == "merge".to_string();
        if !merge && resolution.strategy != "last-write-wins".to_string() {
            return Err(SyncError::UnknownStrategy);
        }
        let (mut queue, flight) = self.take_parts();
        if merge {
            match resolution.resolved_content {
                Some(content) => {
                    queue[at].content = Some(content);
                    queue[at].synced = false;
                },
                None => {
                    self.put_parts(queue, flight);
                    return Err(SyncError::MissingMergeContent);
                },
            }
        } else {
            queue[at].synced = false;
        }
        proof {
            assert(item_views(queue@) =~= resolve(items, item_id@, resolution@)->Ok_0);
        }
        self.put_parts(queue, flight);
        Ok(())
    }

    /// Takes over what was read from the store. A snapshot replaces the queue,
    /// a missing one empties it, and either ends a flush in flight; a snapshot
    /// that could not be read or does not hold a queue is an error and changes
    /// nothing. The exact next state and answer are those of [`load_step`].
    pub fn load_queue(&mut self, read: StoreRead) -> (result: Result<(), SyncError>)
        ensures
            (final(self)@, result) == load_step(old(self)@, read@),
    {
        match read {
            StoreRead::Missing => {
                let _ = self.take_parts();
                assert(item_views(self.queue@) =~= Seq::<ItemView>::empty());
                Ok(())
            },
            StoreRead::Items(items) => {
                let _ = self.take_parts();
                self.put_parts(items, None);
                Ok(())
            },
            StoreRead::Unreadable => Err(SyncError::IoError),
            StoreRead::Corrupt => Err(SyncError::CorruptData),
        }
    }

    /// Discards every item, delivered or not, and ends a flush in flight.
    pub fn clear(&mut self)
        ensures
            final(self)@ == (QueueState { items: Seq::empty(), flight: None, ..old(self)@ }),
    {
        let _ = self.take_parts();
        assert(item_views(self.queue@) =~= Seq::<ItemView>::empty());
    }

    /// Hands out the next pending item at or after `from`, or ends the flush.
    fn move_on(&mut self, from: usize, limit: usize, report: FlushResult) -> (step: FlushStep)
        requires
            old(self).flight is None,
            from <= limit <= old(self).queue@.len(),
            report.processed + report.failed + report.conflicts@.len() <= from,
        ensures
            (final(self)@, step@) == advance(old(self)@, from as int, limit as int, report@),
    {
        let ghost items = item_views(self.queue@);
        let mut next = from;
        while next < limit && self.queue[next].synced
            invariant
                from <= next <= limit <= self.queue@.len(),
                items == item_views(self.queue@),
                next_pending(items, next as int, limit as int) == next_pending(
                    items,
                    from as int,
                    limit as int,
                ),
            decreases limit - next,
        {
            next += 1;
        }
        if next < limit {
            let item = self.queue[next].clone();
            self.flight = Some(Flight { cursor: next, limit, report });
            FlushStep::Sync(item)
        } else {
            let (queue, _) = self.take_parts();
            let kept = prune(queue);
            self.put_parts(kept, None);
            FlushStep::Done(report)
        }
    }

    /// Flushes the queue to the remote side.
    ///
    /// The pending items are handed to `adapter` in queue order, each of them
    /// once. An item that the adapter reports as delivered is counted as
    /// processed and leaves the queue. One that met a conflict stays pending
    /// and has its id listed. One that failed, or for which the call broke
    /// down, stays pending and is counted as failed; it is not tried again by
    /// this flush. At the end the delivered items are pruned, so that none is
    /// left in the queue. Every pending item is accounted for once in the
    /// report.
    ///
    /// While a flush that was begun step by step is in flight, this one is
    /// refused and changes nothing.
    pub fn flush<A: RemoteSyncAdapter>(&mut self, adapter: &mut A) -> (result: Result<
        FlushResult,
        SyncError,
    >)
        ensures
            old(self)@.flight is Some ==> {
                &&& result matches Err(SyncError::FlushInProgress)
                &&& final(self)@ == old(self)@
            },
            old(self)@.flight is None ==> result is Ok,
            old(self)@.flight is None ==> is_some_flush_of(
                old(self)@,
                final(self)@,
                result->Ok_0@,
            ),
            old(self)@.flight is None ==> forall|i: int|
                0 <= i < final(self)@.items.len() ==> !(#[trigger] final(self)@.items[i]).synced,
            old(self)@.flight is None ==> {
                let report = result->Ok_0@;
                let tried = pending(old(self)@.items).len();
                &&& report.processed + report.failed + report.conflicts.len() == tried
                &&& report.processed + final(self)@.items.len() == tried
            },
            old(self)@.flight is None && (forall|i: int|
                0 <= i < old(self)@.items.len() ==> (#[trigger] old(self)@.items[i]).synced) ==> {
                &&& result->Ok_0@ == empty_report()
                &&& final(self)@ == (QueueState { items: Seq::empty(), ..old(self)@ })
                &&& old(self)@.items.len() == 0 ==> final(self)@ == old(self)@
            },
    {
        let ghost start = self@;
        let mut step = match self.flush_step(FlushEvent::Begin) {
            Ok(step) => step,
            Err(error) => {
                return Err(error);
            },
        };
        let mut report = FlushResult { processed: 0, failed: 0, conflicts: Vec::new() };
        let ghost mut outcomes = Seq::<SyncOutcome>::empty();
        loop
            invariant_except_break
                self@ == whole_flush(start, outcomes).state,
                Ok::<StepView, SyncError>(step@) == whole_flush(start, outcomes).last,
                outcomes.len() <= pending(start.items).len(),
                step is Done ==> forall|i: int|
                    0 <= i < self@.items.len() ==> !(#[trigger] self@.items[i]).synced,
            invariant
                start.flight is None,
            ensures
                is_flush_of(start, outcomes, self@, report@),
                forall|i: int| 0 <= i < self@.items.len() ==> !(#[trigger] self@.items[i]).synced,
            decreases pending(start.items).len() - outcomes.len(),
        {
            proof {
                if outcomes.len() < pending(start.items).len() {
                    law_flush_in_progress(start, outcomes);
                } else {
                    law_whole_flush(start, outcomes);
                }
            }
            match step {
                FlushStep::Sync(item) => {
                    let outcome = SyncOutcome::from_reply(adapter.sync(&item));
                    proof {
                        let (begun, reply) = flush_step(start, FlushEvent::Begin);
                        law_one_more_outcome(begun, reply, outcomes, outcome);
                        outcomes = outcomes.push(outcome);
                    }
                    match self.flush_step(FlushEvent::Outcome(outcome)) {
                        Ok(next) => {
                            step = next;
                        },
                        Err(_) => {
                            assert(false);
                            break ;
                        },
                    }
                },
                FlushStep::Done(done) => {
                    report = done;
                    break ;
                },
                FlushStep::Cancelled(_) => {
                    assert(false);
                    break ;
                },
            }
        }
        proof {
            if forall|i: int| 0 <= i < start.items.len() ==> (#[trigger] start.items[i]).synced {
                law_flush_without_pending(start);
            }
            law_report_accounts_for_each_item(empty_report(), pending(start.items), outcomes);
        }
        Ok(report)
    }

    /// One step of a flush, for a caller that takes the items to the remote
    /// side itself.
    ///
    /// A flush is a conversation. `Begin` opens it; the answer is either the
    /// first pending item, to be taken to the remote side, or `Done` at once
    /// when nothing is pending. Each `Outcome` reports what the remote side
    /// said of the item handed out last; the answer is the next pending item,
    /// or `Done` with the report once the last one is dealt with. `Done`
    /// means that the delivered items have been pruned and the queue is ready
    /// to be persisted. `Cancel` ends the conversation early.
    ///
    /// Items are handed out in queue order and each at most once. A `Begin`
    /// while a flush is in flight is refused and changes nothing. A flush of
    /// a queue in which nothing is pending ends at once with an empty report.
    /// The exact next state and answer are those of [`flush_step`].
    pub fn flush_step(&mut self, event: FlushEvent) -> (result: Result<FlushStep, SyncError>)
        ensures
            (final(self)@, step_view(result)) == flush_step(old(self)@, event),
            old(self)@.flight is Some && event == FlushEvent::Begin ==> {
                &&& result == Err::<FlushStep, SyncError>(SyncError::FlushInProgress)
                &&& final(self)@ == old(self)@
            },
            old(self)@.flight is None && event == FlushEvent::Begin && (forall|i: int|
                0 <= i < old(self)@.items.len() ==> (#[trigger] old(self)@.items[i]).synced) ==> {
                &&& step_view(result) == Ok::<StepView, SyncError>(StepView::Done(empty_report()))
                &&& final(self)@ == (QueueState { items: Seq::empty(), ..old(self)@ })
                &&& old(self)@.items.len() == 0 ==> final(self)@ == old(self)@
            },
            result matches Ok(FlushStep::Done(_)) ==> {
                &&& final(self)@.flight is None
                &&& forall|i: int|
                    0 <= i < final(self)@.items.len() ==> !(#[trigger] final(self)@.items[i]).synced
            },
    {
        proof {
            use_type_invariant(&*self);
            lemma_pending_all_unsynced(old(self)@.items);
            if old(self)@.flight is None && forall|i: int|
                0 <= i < old(self)@.items.len() ==> (#[trigger] old(self)@.items[i]).synced {
                law_flush_without_pending(old(self)@);
            }
            if let FlushEvent::Outcome(outcome) = event {
                if let Some(flight) = old(self)@.flight {
                    lemma_pending_all_unsynced(settle(old(self)@.items, flight.cursor, outcome));
                }
            }
        }
        match event {
            FlushEvent::Begin => {
                if self.flight.is_some() {
                    return Err(SyncError::FlushInProgress);
                }
                let limit = self.queue.len();
                let report = FlushResult { processed: 0, failed: 0, conflicts: Vec::new() };
                assert(report@.conflicts =~= empty_report().conflicts);
                Ok(self.move_on(0, limit, report))
            },
            FlushEvent::Outcome(outcome) => {
                let (mut queue, flight) = self.take_parts();
                match flight {
                    None => {
                        self.put_parts(queue, None);
                        Err(SyncError::NoFlushInProgress)
                    },
                    Some(flight) => {
                        let Flight { cursor, limit, mut report } = flight;
                        match outcome {
                            SyncOutcome::Synced => {
                                queue[cursor].synced = true;
                                report.processed = report.processed + 1;
                            },
                            SyncOutcome::Conflicted => {
                                let id = queue[cursor].id.clone();
                                report.conflicts.push(id);
                            },
                            SyncOutcome::Failed => {
                                report.failed = report.failed + 1;
                            },
                        }
                        proof {
                            let before = old(self)@.flight->0;
                            assert(item_views(queue@) =~= settle(
                                old(self)@.items,
                                cursor as int,
                                outcome,
                            ));
                            assert(report@.conflicts =~= record(
                                before.report,
                                old(self)@.items[cursor as int].id,
                                outcome,
                            ).conflicts);
                        }
                        self.put_parts(queue, None);
                        Ok(self.move_on(cursor + 1, limit, report))
                    },
                }
            },
            FlushEvent::Cancel => {
                let (queue, flight) = self.take_parts();
                self.put_parts(queue, None);
                match flight {
                    None => Err(SyncError::NoFlushInProgress),
                    Some(flight) => Ok(FlushStep::Cancelled(flight.report)),
                }
            },
        }
    }
}

impl Default for ElectricSync {
    fn default() -> (engine: Self)
        ensures
            engine@.path == ".nova/sync-queue.json"@,
            engine@.items == Seq::<ItemView>::empty(),
            engine@.flight is None,
    {
        ElectricSync::new()
    }
}

} // verus!
