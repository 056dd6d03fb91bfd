use nova_sync::electric_sync::ConflictResolution;
use nova_sync::electric_sync::ElectricSync;
use nova_sync::electric_sync::FlushEvent;
use nova_sync::electric_sync::FlushResult;
use nova_sync::electric_sync::FlushStep;
use nova_sync::electric_sync::RemoteSyncAdapter;
use nova_sync::electric_sync::StoreRead;
use nova_sync::electric_sync::SyncError;
use nova_sync::electric_sync::SyncOutcome;
use nova_sync::electric_sync::SyncQueueItem;

fn item(id: &str, action: &str, path: &str, content: Option<&str>, timestamp: i64) -> SyncQueueItem {
    SyncQueueItem {
        id: id.to_string(),
        action: action.to_string(),
        path: path.to_string(),
        content: content.map(|text| text.to_string()),
        timestamp,
        synced: false,
    }
}

fn delivered(id: &str) -> SyncQueueItem {
    let mut made = item(id, "update", "/done", None, 7);
    made.synced = true;
    made
}

fn ids(sync: &ElectricSync) -> Vec<String> {
    sync.items().iter().map(|queued| queued.id.clone()).collect()
}

fn expect_sync(step: Result<FlushStep, SyncError>) -> SyncQueueItem {
    match step {
        Ok(FlushStep::Sync(handed)) => handed,
        other => panic!("an item should have been handed out, got {:?}", other),
    }
}

fn expect_done(step: Result<FlushStep, SyncError>) -> FlushResult {
    match step {
        Ok(FlushStep::Done(report)) => report,
        other => panic!("the flush should have ended, got {:?}", other),
    }
}

/// A remote side that answers from a script and notes what it was given.
struct Scripted {
    answers: Vec<Result<SyncOutcome, SyncError>>,
    seen: Vec<SyncQueueItem>,
}

impl Scripted {
    fn new(answers: Vec<Result<SyncOutcome, SyncError>>) -> Self {
        Scripted { answers, seen: Vec::new() }
    }

    fn seen_ids(&self) -> Vec<String> {
        self.seen.iter().map(|given| given.id.clone()).collect()
    }
}

impl RemoteSyncAdapter for Scripted {
    fn sync(&mut self, item: &SyncQueueItem) -> Result<SyncOutcome, SyncError> {
        let answer = self.answers[self.seen.len()];
        self.seen.push(item.clone());
        answer
    }
}

fn merge_with(content: Option<&str>) -> ConflictResolution {
    ConflictResolution {
        strategy: "merge".to_string(),
        local_version: "local-3".to_string(),
        remote_version: "remote-5".to_string(),
        resolved_content: content.map(|text| text.to_string()),
    }
}

fn strategy(name: &str) -> ConflictResolution {
    ConflictResolution {
        strategy: name.to_string(),
        local_version: "local-3".to_string(),
        remote_version: "remote-5".to_string(),
        resolved_content: None,
    }
}

#[test]
fn test_electric_sync_new() {
    let sync = ElectricSync::new();
    assert!(sync.get_pending().is_empty());
}

#[test]
fn test_enqueue_and_pending() {
    let mut sync = ElectricSync::new();
    let item = SyncQueueItem {
        id: "test-1".to_string(),
        action: "create".to_string(),
        path: "/test/file.txt".to_string(),
        content: Some("content".to_string()),
        timestamp: 1234567890,
        synced: false,
    };

    sync.enqueue(item);
    assert_eq!(sync.get_pending().len(), 1);
}

#[test]
fn test_get_stats() {
    let mut sync = ElectricSync::new();
    let item = SyncQueueItem {
        id: "test-1".to_string(),
        action: "create".to_string(),
        path: "/test/file.txt".to_string(),
        content: None,
        timestamp: 1234567890,
        synced: false,
    };

    sync.enqueue(item);
    let stats = sync.get_stats();
    assert_eq!(stats.total, 1);
    assert_eq!(stats.pending, 1);
}

#[test]
fn new_engine_is_empty_and_idle() {
    let sync = ElectricSync::new();
    assert!(sync.items().is_empty());
    assert_eq!(sync.queue_path(), ".nova/sync-queue.json");
    let other = ElectricSync::default();
    assert!(other.items().is_empty());
    assert_eq!(other.queue_path(), ".nova/sync-queue.json");
}

#[test]
fn enqueue_keeps_order_and_does_not_merge_paths() {
    let mut sync = ElectricSync::new();
    sync.enqueue(item("a", "create", "/x", Some("one"), 1));
    sync.enqueue(item("b", "update", "/x", Some("two"), 2));
    sync.enqueue(item("c", "delete", "/x", None, 3));
    assert_eq!(ids(&sync), vec!["a", "b", "c"]);
    assert_eq!(sync.items()[1].content, Some("two".to_string()));
    assert_eq!(sync.items()[2].timestamp, 3);
}

#[test]
fn pending_skips_delivered_items() {
    let mut sync = ElectricSync::new();
    sync.enqueue(item("a", "create", "/a", None, 1));
    sync.enqueue(delivered("b"));
    sync.enqueue(item("c", "create", "/c", None, 3));
    let pending = sync.get_pending();
    assert_eq!(pending.len(), 2);
    assert_eq!(pending[0].id, "a");
    assert_eq!(pending[1].id, "c");
    assert_eq!(sync.items().len(), 3);
}

#[test]
fn flush_of_empty_queue_reports_nothing_and_changes_nothing() {
    let mut sync = ElectricSync::new();
    let report = expect_done(sync.flush_step(FlushEvent::Begin));
    assert_eq!(report.processed, 0);
    assert_eq!(report.failed, 0);
    assert!(report.conflicts.is_empty());
    assert!(sync.items().is_empty());
    // The flush is over: another one may begin.
    let again = expect_done(sync.flush_step(FlushEvent::Begin));
    assert_eq!(again.processed, 0);
}

#[test]
fn flush_without_pending_prunes_what_was_delivered() {
    let mut sync = ElectricSync::new();
    sync.enqueue(delivered("old"));
    let report = expect_done(sync.flush_step(FlushEvent::Begin));
    assert_eq!(report.processed, 0);
    assert_eq!(report.failed, 0);
    assert!(report.conflicts.is_empty());
    assert!(sync.items().is_empty());
}

#[test]
fn flush_presents_items_in_enqueue_order() {
    let mut sync = ElectricSync::new();
    sync.enqueue(item("A", "update", "/x", Some("first"), 1));
    sync.enqueue(item("B", "update", "/x", Some("second"), 2));
    let first = expect_sync(sync.flush_step(FlushEvent::Begin));
    assert_eq!(first.id, "A");
    assert_eq!(first.path, "/x");
    assert_eq!(first.timestamp, 1);
    assert_eq!(first.content, Some("first".to_string()));
    let second = expect_sync(sync.flush_step(FlushEvent::Outcome(SyncOutcome::Synced)));
    assert_eq!(second.id, "B");
    assert_eq!(second.timestamp, 2);
    let report = expect_done(sync.flush_step(FlushEvent::Outcome(SyncOutcome::Synced)));
    assert_eq!(report.processed, 2);
    assert_eq!(report.failed, 0);
    assert!(report.conflicts.is_empty());
    assert!(sync.items().is_empty());
}

#[test]
fn flush_counts_each_outcome_and_keeps_what_was_not_delivered() {
    let mut sync = ElectricSync::new();
    sync.enqueue(item("a", "create", "/a", None, 1));
    sync.enqueue(item("b", "update", "/b", None, 2));
    sync.enqueue(delivered("skip"));
    sync.enqueue(item("c", "delete", "/c", None, 3));
    sync.enqueue(item("d", "update", "/d", None, 4));
    assert_eq!(expect_sync(sync.flush_step(FlushEvent::Begin)).id, "a");
    assert_eq!(expect_sync(sync.flush_step(FlushEvent::Outcome(SyncOutcome::Synced))).id, "b");
    assert_eq!(expect_sync(sync.flush_step(FlushEvent::Outcome(SyncOutcome::Conflicted))).id, "c");
    assert_eq!(expect_sync(sync.flush_step(FlushEvent::Outcome(SyncOutcome::Failed))).id, "d");
    let report = expect_done(sync.flush_step(FlushEvent::Outcome(SyncOutcome::Conflicted)));
    assert_eq!(report.processed, 1);
    assert_eq!(report.failed, 1);
    assert_eq!(report.conflicts, vec!["b", "d"]);
    assert_eq!(ids(&sync), vec!["b", "c", "d"]);
    assert!(sync.items().iter().all(|queued| !queued.synced));
    assert_eq!(sync.get_pending().len(), 3);
}

#[test]
fn no_delivered_item_survives_a_flush() {
    let mut sync = ElectricSync::new();
    sync.enqueue(delivered("x"));
    sync.enqueue(item("a", "create", "/a", None, 1));
    sync.enqueue(delivered("y"));
    sync.enqueue(item("b", "create", "/b", None, 2));
    assert_eq!(expect_sync(sync.flush_step(FlushEvent::Begin)).id, "a");
    assert_eq!(expect_sync(sync.flush_step(FlushEvent::Outcome(SyncOutcome::Synced))).id, "b");
    let report = expect_done(sync.flush_step(FlushEvent::Outcome(SyncOutcome::Failed)));
    assert_eq!(report.processed, 1);
    assert_eq!(report.failed, 1);
    assert_eq!(ids(&sync), vec!["b"]);
    assert!(!sync.items()[0].synced);
}

#[test]
fn failed_item_is_tried_again_by_the_next_flush() {
    let mut sync = ElectricSync::new();
    sync.enqueue(item("a", "create", "/a", None, 1));
    assert_eq!(expect_sync(sync.flush_step(FlushEvent::Begin)).id, "a");
    let report = expect_done(sync.flush_step(FlushEvent::Outcome(SyncOutcome::Failed)));
    assert_eq!(report.failed, 1);
    assert_eq!(expect_sync(sync.flush_step(FlushEvent::Begin)).id, "a");
    let report = expect_done(sync.flush_step(FlushEvent::Outcome(SyncOutcome::Synced)));
    assert_eq!(report.processed, 1);
    assert!(sync.items().is_empty());
}

#[test]
fn second_flush_is_refused_while_one_is_in_flight() {
    let mut sync = ElectricSync::new();
    sync.enqueue(item("a", "create", "/a", None, 1));
    sync.enqueue(item("b", "create", "/b", None, 2));
    assert_eq!(expect_sync(sync.flush_step(FlushEvent::Begin)).id, "a");
    match sync.flush_step(FlushEvent::Begin) {
        Err(SyncError::FlushInProgress) => {},
        other => panic!("a second flush should have been refused, got {:?}", other),
    }
    assert_eq!(ids(&sync), vec!["a", "b"]);
    // The first flush goes on where it stood: `a` is not handed out again.
    assert_eq!(expect_sync(sync.flush_step(FlushEvent::Outcome(SyncOutcome::Synced))).id, "b");
    let report = expect_done(sync.flush_step(FlushEvent::Outcome(SyncOutcome::Synced)));
    assert_eq!(report.processed, 2);
    assert!(sync.items().is_empty());
}

#[test]
fn outcome_and_cancel_need_a_flush_in_flight() {
    let mut sync = ElectricSync::new();
    sync.enqueue(item("a", "create", "/a", None, 1));
    match sync.flush_step(FlushEvent::Outcome(SyncOutcome::Synced)) {
        Err(SyncError::NoFlushInProgress) => {},
        other => panic!("an outcome without a flush should be refused, got {:?}", other),
    }
    match sync.flush_step(FlushEvent::Cancel) {
        Err(SyncError::NoFlushInProgress) => {},
        other => panic!("a cancellation without a flush should be refused, got {:?}", other),
    }
    assert_eq!(ids(&sync), vec!["a"]);
    assert!(!sync.items()[0].synced);
}

#[test]
fn cancelled_flush_keeps_marks_and_leaves_the_rest_pending() {
    let mut sync = ElectricSync::new();
    sync.enqueue(item("a", "create", "/a", None, 1));
    sync.enqueue(item("b", "create", "/b", None, 2));
    sync.enqueue(item("c", "create", "/c", None, 3));
    assert_eq!(expect_sync(sync.flush_step(FlushEvent::Begin)).id, "a");
    assert_eq!(expect_sync(sync.flush_step(FlushEvent::Outcome(SyncOutcome::Synced))).id, "b");
    match sync.flush_step(FlushEvent::Cancel) {
        Ok(FlushStep::Cancelled(report)) => {
            assert_eq!(report.processed, 1);
            assert_eq!(report.failed, 0);
            assert!(report.conflicts.is_empty());
        },
        other => panic!("the flush should have been cancelled, got {:?}", other),
    }
    assert_eq!(ids(&sync), vec!["a", "b", "c"]);
    assert!(sync.items()[0].synced);
    assert!(!sync.items()[1].synced);
    assert!(!sync.items()[2].synced);
    // The next flush starts with what is still pending and prunes at its end.
    assert_eq!(expect_sync(sync.flush_step(FlushEvent::Begin)).id, "b");
    assert_eq!(expect_sync(sync.flush_step(FlushEvent::Outcome(SyncOutcome::Synced))).id, "c");
    let report = expect_done(sync.flush_step(FlushEvent::Outcome(SyncOutcome::Synced)));
    assert_eq!(report.processed, 2);
    assert!(sync.items().is_empty());
}

#[test]
fn item_enqueued_during_a_flush_waits_for_the_next_one() {
    let mut sync = ElectricSync::new();
    sync.enqueue(item("a", "create", "/a", None, 1));
    assert_eq!(expect_sync(sync.flush_step(FlushEvent::Begin)).id, "a");
    sync.enqueue(item("late", "create", "/late", None, 2));
    let report = expect_done(sync.flush_step(FlushEvent::Outcome(SyncOutcome::Synced)));
    assert_eq!(report.processed, 1);
    assert_eq!(ids(&sync), vec!["late"]);
    assert_eq!(expect_sync(sync.flush_step(FlushEvent::Begin)).id, "late");
}

#[test]
fn handed_out_item_is_a_copy() {
    let mut sync = ElectricSync::new();
    sync.enqueue(item("a", "create", "/a", Some("text"), 1));
    let mut handed = expect_sync(sync.flush_step(FlushEvent::Begin));
    handed.content = Some("changed".to_string());
    handed.synced = true;
    assert_eq!(sync.items()[0].content, Some("text".to_string()));
    assert!(!sync.items()[0].synced);
}

#[test]
fn merge_replaces_content_and_keeps_item_pending() {
    let mut sync = ElectricSync::new();
    sync.enqueue(item("i1", "update", "/doc", Some("old"), 5));
    assert_eq!(sync.resolve_conflict("i1", merge_with(Some("new"))), Ok(()));
    assert_eq!(sync.items().len(), 1);
    assert_eq!(sync.items()[0].content, Some("new".to_string()));
    assert!(!sync.items()[0].synced);
    assert_eq!(sync.items()[0].id, "i1");
    assert_eq!(sync.items()[0].action, "update");
    assert_eq!(sync.items()[0].path, "/doc");
    assert_eq!(sync.items()[0].timestamp, 5);
}

#[test]
fn unknown_strategy_is_refused_and_changes_nothing() {
    let mut sync = ElectricSync::new();
    sync.enqueue(item("i1", "update", "/doc", Some("old"), 5));
    assert_eq!(sync.resolve_conflict("i1", strategy("bogus")), Err(SyncError::UnknownStrategy));
    assert_eq!(sync.items()[0].content, Some("old".to_string()));
    assert!(!sync.items()[0].synced);
    // A known name in other letters is unknown too.
    assert_eq!(sync.resolve_conflict("i1", strategy("Merge")), Err(SyncError::UnknownStrategy));
    assert_eq!(sync.resolve_conflict("i1", strategy("")), Err(SyncError::UnknownStrategy));
}

#[test]
fn unknown_id_is_not_found() {
    let mut sync = ElectricSync::new();
    assert_eq!(sync.resolve_conflict("missing-id", merge_with(Some("new"))), Err(SyncError::ItemNotFound));
    sync.enqueue(item("i1", "update", "/doc", Some("old"), 5));
    assert_eq!(sync.resolve_conflict("missing-id", merge_with(Some("new"))), Err(SyncError::ItemNotFound));
    assert_eq!(sync.resolve_conflict("missing-id", strategy("last-write-wins")), Err(SyncError::ItemNotFound));
    // An unknown id is reported before an unknown strategy.
    assert_eq!(sync.resolve_conflict("missing-id", strategy("bogus")), Err(SyncError::ItemNotFound));
    assert_eq!(sync.items()[0].content, Some("old".to_string()));
}

#[test]
fn merge_without_content_is_refused_and_changes_nothing() {
    let mut sync = ElectricSync::new();
    sync.enqueue(delivered("i1"));
    assert_eq!(sync.resolve_conflict("i1", merge_with(None)), Err(SyncError::MissingMergeContent));
    assert!(sync.items()[0].synced);
    assert_eq!(sync.items()[0].content, None);
}

#[test]
fn last_write_wins_schedules_a_retry_without_touching_content() {
    let mut sync = ElectricSync::new();
    let mut done = item("i1", "update", "/doc", Some("mine"), 5);
    done.synced = true;
    sync.enqueue(done);
    assert!(sync.get_pending().is_empty());
    let mut directive = strategy("last-write-wins");
    directive.resolved_content = Some("ignored".to_string());
    assert_eq!(sync.resolve_conflict("i1", directive), Ok(()));
    assert!(!sync.items()[0].synced);
    assert_eq!(sync.items()[0].content, Some("mine".to_string()));
    assert_eq!(sync.get_pending().len(), 1);
}

#[test]
fn resolution_applies_to_the_first_item_with_the_id() {
    let mut sync = ElectricSync::new();
    sync.enqueue(item("other", "create", "/o", Some("o"), 1));
    sync.enqueue(item("dup", "update", "/first", Some("first"), 2));
    sync.enqueue(item("dup", "update", "/second", Some("second"), 3));
    assert_eq!(sync.resolve_conflict("dup", merge_with(Some("merged"))), Ok(()));
    assert_eq!(sync.items()[0].content, Some("o".to_string()));
    assert_eq!(sync.items()[1].content, Some("merged".to_string()));
    assert_eq!(sync.items()[2].content, Some("second".to_string()));
}

#[test]
fn conflicted_item_can_be_resolved_and_delivered() {
    let mut sync = ElectricSync::new();
    sync.enqueue(item("i1", "update", "/doc", Some("old"), 5));
    assert_eq!(expect_sync(sync.flush_step(FlushEvent::Begin)).id, "i1");
    let report = expect_done(sync.flush_step(FlushEvent::Outcome(SyncOutcome::Conflicted)));
    assert_eq!(report.conflicts, vec!["i1"]);
    assert_eq!(report.processed, 0);
    assert_eq!(sync.resolve_conflict("i1", merge_with(Some("new"))), Ok(()));
    let handed = expect_sync(sync.flush_step(FlushEvent::Begin));
    assert_eq!(handed.content, Some("new".to_string()));
    let report = expect_done(sync.flush_step(FlushEvent::Outcome(SyncOutcome::Synced)));
    assert_eq!(report.processed, 1);
    assert!(sync.items().is_empty());
}

#[test]
fn stats_count_items_by_state_and_action() {
    let mut sync = ElectricSync::new();
    sync.enqueue(item("a", "create", "/a", None, 1));
    sync.enqueue(item("b", "create", "/b", None, 2));
    sync.enqueue(item("c", "update", "/c", None, 3));
    let stats = sync.get_stats();
    assert_eq!(stats.total, 3);
    assert_eq!(stats.pending, 3);
    assert_eq!(stats.synced, 0);
    assert_eq!(stats.by_action.len(), 2);
    assert_eq!(stats.by_action.get("create"), Some(&2));
    assert_eq!(stats.by_action.get("update"), Some(&1));
    assert_eq!(stats.by_action.get("delete"), None);
    // Nothing was changed by asking.
    assert_eq!(ids(&sync), vec!["a", "b", "c"]);
}

#[test]
fn stats_tell_delivered_from_pending() {
    let mut sync = ElectricSync::new();
    let empty = sync.get_stats();
    assert_eq!(empty.total, 0);
    assert_eq!(empty.pending, 0);
    assert_eq!(empty.synced, 0);
    assert!(empty.by_action.is_empty());
    sync.enqueue(item("a", "delete", "/a", None, 1));
    sync.enqueue(delivered("b"));
    sync.enqueue(delivered("c"));
    let stats = sync.get_stats();
    assert_eq!(stats.total, 3);
    assert_eq!(stats.pending, 1);
    assert_eq!(stats.synced, 2);
    assert_eq!(stats.by_action.get("delete"), Some(&1));
    assert_eq!(stats.by_action.get("update"), Some(&2));
}

#[test]
fn clear_discards_everything() {
    let mut sync = ElectricSync::new();
    sync.enqueue(item("a", "create", "/a", None, 1));
    sync.enqueue(delivered("b"));
    sync.clear();
    assert!(sync.items().is_empty());
    assert!(sync.get_pending().is_empty());
    assert_eq!(sync.get_stats().total, 0);
    assert_eq!(sync.queue_path(), ".nova/sync-queue.json");
}

#[test]
fn clear_ends_a_flush_in_flight() {
    let mut sync = ElectricSync::new();
    sync.enqueue(item("a", "create", "/a", None, 1));
    assert_eq!(expect_sync(sync.flush_step(FlushEvent::Begin)).id, "a");
    sync.clear();
    match sync.flush_step(FlushEvent::Outcome(SyncOutcome::Synced)) {
        Err(SyncError::NoFlushInProgress) => {},
        other => panic!("the flush should be gone, got {:?}", other),
    }
    assert!(sync.items().is_empty());
    let report = expect_done(sync.flush_step(FlushEvent::Begin));
    assert_eq!(report.processed, 0);
}

#[test]
fn loading_a_snapshot_replaces_the_queue() {
    let mut sync = ElectricSync::new();
    sync.enqueue(item("stale", "create", "/s", None, 1));
    let stored = vec![item("a", "create", "/a", Some("x"), 10), delivered("b")];
    assert_eq!(sync.load_queue(StoreRead::Items(stored)), Ok(()));
    assert_eq!(ids(&sync), vec!["a", "b"]);
    assert_eq!(sync.items()[0].content, Some("x".to_string()));
    assert_eq!(sync.items()[0].timestamp, 10);
    assert!(!sync.items()[0].synced);
    assert!(sync.items()[1].synced);
}

#[test]
fn missing_snapshot_is_an_empty_queue() {
    let mut sync = ElectricSync::new();
    sync.enqueue(item("stale", "create", "/s", None, 1));
    assert_eq!(sync.load_queue(StoreRead::Missing), Ok(()));
    assert!(sync.items().is_empty());
}

#[test]
fn unreadable_or_corrupt_snapshot_is_an_error_and_changes_nothing() {
    let mut sync = ElectricSync::new();
    sync.enqueue(item("kept", "create", "/k", None, 1));
    assert_eq!(sync.load_queue(StoreRead::Unreadable), Err(SyncError::IoError));
    assert_eq!(ids(&sync), vec!["kept"]);
    assert_eq!(sync.load_queue(StoreRead::Corrupt), Err(SyncError::CorruptData));
    assert_eq!(ids(&sync), vec!["kept"]);
}

#[test]
fn loading_ends_a_flush_in_flight() {
    let mut sync = ElectricSync::new();
    sync.enqueue(item("a", "create", "/a", None, 1));
    assert_eq!(expect_sync(sync.flush_step(FlushEvent::Begin)).id, "a");
    assert_eq!(sync.load_queue(StoreRead::Items(vec![item("n", "create", "/n", None, 2)])), Ok(()));
    assert_eq!(expect_sync(sync.flush_step(FlushEvent::Begin)).id, "n");
}

#[test]
fn failed_load_does_not_disturb_a_flush_in_flight() {
    let mut sync = ElectricSync::new();
    sync.enqueue(item("a", "create", "/a", None, 1));
    assert_eq!(expect_sync(sync.flush_step(FlushEvent::Begin)).id, "a");
    assert_eq!(sync.load_queue(StoreRead::Corrupt), Err(SyncError::CorruptData));
    let report = expect_done(sync.flush_step(FlushEvent::Outcome(SyncOutcome::Synced)));
    assert_eq!(report.processed, 1);
}

#[test]
fn broken_call_counts_as_failed_attempt() {
    assert_eq!(SyncOutcome::from_reply(Ok(SyncOutcome::Synced)), SyncOutcome::Synced);
    assert_eq!(SyncOutcome::from_reply(Ok(SyncOutcome::Conflicted)), SyncOutcome::Conflicted);
    assert_eq!(SyncOutcome::from_reply(Ok(SyncOutcome::Failed)), SyncOutcome::Failed);
    assert_eq!(SyncOutcome::from_reply(Err(SyncError::AdapterFailure)), SyncOutcome::Failed);
}

#[test]
fn cloned_item_has_the_same_fields() {
    let first = item("a", "create", "/a", Some("text"), 42);
    let copy = first.clone();
    assert_eq!(copy.id, "a");
    assert_eq!(copy.action, "create");
    assert_eq!(copy.path, "/a");
    assert_eq!(copy.content, Some("text".to_string()));
    assert_eq!(copy.timestamp, 42);
    assert!(!copy.synced);
}

#[test]
fn queue_handed_out_and_taken_back_is_the_same() {
    let mut sync = ElectricSync::new();
    sync.enqueue(item("a", "create", "/a", Some("x"), -5));
    sync.enqueue(delivered("b"));
    sync.enqueue(item("c", "delete", "/c", None, i64::MAX));
    let saved: Vec<SyncQueueItem> = sync.items().iter().map(|queued| queued.clone()).collect();
    let mut other = ElectricSync::new();
    assert_eq!(other.load_queue(StoreRead::Items(saved)), Ok(()));
    assert_eq!(other.items().len(), 3);
    for (kept, loaded) in sync.items().iter().zip(other.items().iter()) {
        assert_eq!(kept.id, loaded.id);
        assert_eq!(kept.action, loaded.action);
        assert_eq!(kept.path, loaded.path);
        assert_eq!(kept.content, loaded.content);
        assert_eq!(kept.timestamp, loaded.timestamp);
        assert_eq!(kept.synced, loaded.synced);
    }
}

#[test]
fn flush_presents_items_to_the_adapter_in_enqueue_order() {
    let mut sync = ElectricSync::new();
    sync.enqueue(item("A", "update", "/x", Some("first"), 1));
    sync.enqueue(item("B", "update", "/x", Some("second"), 2));
    let mut remote = Scripted::new(vec![Ok(SyncOutcome::Synced), Ok(SyncOutcome::Synced)]);
    let report = sync.flush(&mut remote).unwrap();
    assert_eq!(remote.seen_ids(), vec!["A", "B"]);
    assert_eq!(remote.seen[0].path, "/x");
    assert_eq!(remote.seen[0].timestamp, 1);
    assert_eq!(remote.seen[1].path, "/x");
    assert_eq!(remote.seen[1].timestamp, 2);
    assert_eq!(report.processed, 2);
    assert_eq!(report.failed, 0);
    assert!(report.conflicts.is_empty());
    assert!(sync.items().is_empty());
}

#[test]
fn flush_with_adapter_on_empty_queue_calls_nothing() {
    let mut sync = ElectricSync::new();
    let mut remote = Scripted::new(vec![]);
    let report = sync.flush(&mut remote).unwrap();
    assert_eq!(report.processed, 0);
    assert_eq!(report.failed, 0);
    assert!(report.conflicts.is_empty());
    assert!(remote.seen.is_empty());
    assert!(sync.items().is_empty());
    // Once more, with the same result.
    let report = sync.flush(&mut remote).unwrap();
    assert_eq!(report.processed, 0);
    assert_eq!(report.failed, 0);
    assert!(report.conflicts.is_empty());
    assert!(sync.items().is_empty());
}

#[test]
fn flush_with_adapter_skips_delivered_items_and_prunes_them() {
    let mut sync = ElectricSync::new();
    sync.enqueue(delivered("old"));
    let mut remote = Scripted::new(vec![]);
    let report = sync.flush(&mut remote).unwrap();
    assert_eq!(report.processed, 0);
    assert!(remote.seen.is_empty());
    assert!(sync.items().is_empty());
}

#[test]
fn flush_with_adapter_tallies_every_outcome() {
    let mut sync = ElectricSync::new();
    sync.enqueue(item("a", "create", "/a", None, 1));
    sync.enqueue(item("b", "update", "/b", None, 2));
    sync.enqueue(delivered("skip"));
    sync.enqueue(item("c", "delete", "/c", None, 3));
    sync.enqueue(item("d", "update", "/d", None, 4));
    sync.enqueue(item("e", "update", "/e", None, 5));
    let mut remote = Scripted::new(vec![
        Ok(SyncOutcome::Synced),
        Ok(SyncOutcome::Conflicted),
        Ok(SyncOutcome::Failed),
        Err(SyncError::AdapterFailure),
        Ok(SyncOutcome::Conflicted),
    ]);
    let report = sync.flush(&mut remote).unwrap();
    assert_eq!(remote.seen_ids(), vec!["a", "b", "c", "d", "e"]);
    assert_eq!(report.processed, 1);
    assert_eq!(report.failed, 2);
    assert_eq!(report.conflicts, vec!["b", "e"]);
    assert_eq!(ids(&sync), vec!["b", "c", "d", "e"]);
    assert!(sync.items().iter().all(|queued| !queued.synced));
    // What was not delivered is tried again, in the same order.
    let mut remote = Scripted::new(vec![Ok(SyncOutcome::Synced); 4]);
    let report = sync.flush(&mut remote).unwrap();
    assert_eq!(remote.seen_ids(), vec!["b", "c", "d", "e"]);
    assert_eq!(report.processed, 4);
    assert!(sync.items().is_empty());
}

#[test]
fn flush_with_adapter_is_refused_while_a_flush_is_in_flight() {
    let mut sync = ElectricSync::new();
    sync.enqueue(item("a", "create", "/a", None, 1));
    assert_eq!(expect_sync(sync.flush_step(FlushEvent::Begin)).id, "a");
    let mut remote = Scripted::new(vec![Ok(SyncOutcome::Synced)]);
    match sync.flush(&mut remote) {
        Err(SyncError::FlushInProgress) => {},
        other => panic!("the flush should have been refused, got {:?}", other),
    }
    assert!(remote.seen.is_empty());
    assert_eq!(ids(&sync), vec!["a"]);
    assert!(!sync.items()[0].synced);
    // The flush in flight is not disturbed.
    let report = expect_done(sync.flush_step(FlushEvent::Outcome(SyncOutcome::Synced)));
    assert_eq!(report.processed, 1);
    let report = sync.flush(&mut remote).unwrap();
    assert_eq!(report.processed, 0);
}

#[test]
fn adapter_is_given_a_copy_of_the_item() {
    let mut sync = ElectricSync::new();
    sync.enqueue(item("a", "create", "/a", Some("text"), 9));
    let mut remote = Scripted::new(vec![Ok(SyncOutcome::Failed)]);
    sync.flush(&mut remote).unwrap();
    assert_eq!(remote.seen[0].id, "a");
    assert_eq!(remote.seen[0].action, "create");
    assert_eq!(remote.seen[0].content, Some("text".to_string()));
    assert_eq!(remote.seen[0].timestamp, 9);
    assert!(!remote.seen[0].synced);
    assert_eq!(ids(&sync), vec!["a"]);
}

#[test]
fn cloned_resolution_has_the_same_fields() {
    let first = merge_with(Some("merged"));
    let copy = first.clone();
    assert_eq!(copy.strategy, "merge");
    assert_eq!(copy.local_version, "local-3");
    assert_eq!(copy.remote_version, "remote-5");
    assert_eq!(copy.resolved_content, Some("merged".to_string()));
}

#[test]
fn each_error_says_what_went_wrong() {
    assert_eq!(SyncError::IoError.message(), "Failed to read or write queue");
    assert_eq!(SyncError::CorruptData.message(), "Failed to parse queue");
    assert_eq!(SyncError::ItemNotFound.message(), "Item not found");
    assert_eq!(SyncError::UnknownStrategy.message(), "Unknown conflict strategy");
    assert_eq!(SyncError::MissingMergeContent.message(), "Merge needs the resolved content");
    assert_eq!(SyncError::AdapterFailure.message(), "Remote sync failed");
    assert_eq!(SyncError::FlushInProgress.message(), "A flush is already in progress");
    assert_eq!(SyncError::NoFlushInProgress.message(), "No flush is in progress");
}
