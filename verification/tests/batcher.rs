use agentfs_core::attrs::{
    attr_prelude, chmod_update, chown_update, may_cache_attr, merge_pending_view, utimens_change,
    utimens_route, utimens_update, AttrPrelude, TimesRoute,
};
use agentfs_core::batcher::AgentFSWriteBatcher;
use agentfs_core::batcher_state::AgentFSWriteBatcherState;
use agentfs_core::config::BatcherConfig;
use agentfs_core::drain::{
    after_step, commit_step, AfterStep, AgentFSWriteBatchDrainReason as DrainReason, CommitStep,
    DrainBatch, SchedulerAction, SchedulerEvent, StepResult,
};
use agentfs_core::drain_steps::{record_drain, Drain, DrainAsk, DrainReply};
use agentfs_core::error::{Error, FsError};
use agentfs_core::file::{AfterEnqueue, AgentFSFile, WriteRoute};
use agentfs_core::pending::{PendingInodeWrites, PendingTimeChange};
use agentfs_core::ranges::{apply_runs, clip_runs, largest_end, normalize_write_ranges, WriteRange};
use agentfs_core::stats::{Stats, TimeChange, S_IFREG};
use agentfs_core::telemetry::Telemetry;

fn config() -> BatcherConfig {
    BatcherConfig {
        enabled: true,
        window_millis: 60_000,
        inode_bytes: 100,
        global_bytes: 250,
        txn_max_inodes: 2,
        txn_max_bytes: 1000,
    }
}

fn batcher() -> AgentFSWriteBatcher {
    AgentFSWriteBatcher::from_config(&config())
}

fn range(offset: u64, data: &[u8]) -> WriteRange {
    WriteRange { offset, data: data.to_vec() }
}

fn stats(ino: i64) -> Stats {
    Stats {
        ino,
        mode: S_IFREG | 0o644,
        nlink: 1,
        uid: 0,
        gid: 0,
        size: 0,
        atime: 1,
        mtime: 2,
        ctime: 3,
        atime_nsec: 0,
        mtime_nsec: 0,
        ctime_nsec: 0,
        rdev: 0,
    }
}

/// Runs a drain up to where it settles, or to its end. The steps end as given, the rest well.
fn run(batcher: &AgentFSWriteBatcher, batch: DrainBatch, ends: &[StepResult]) -> Drain {
    let mut drain = Drain::start(batch);
    loop {
        let reply = match drain.asked {
            DrainAsk::ReadDirectives => {
                DrainReply::Directives(batcher.commit_directives(&drain.batch))
            }
            DrainAsk::Run { at, .. } => {
                DrainReply::Step(ends.get(at).copied().unwrap_or(StepResult::Done))
            }
            DrainAsk::Begin | DrainAsk::Commit | DrainAsk::Rollback => DrainReply::Done,
            DrainAsk::Settle | DrainAsk::Finished => return drain,
        };
        drain.step(reply);
    }
}

fn parts(runs: &[WriteRange]) -> Vec<(u64, Vec<u8>)> {
    runs.iter().map(|run| (run.offset, run.data.clone())).collect()
}

#[test]
fn later_writes_prevail_and_neighbours_merge() {
    let ranges = vec![range(4, b"efgh"), range(0, b"abcd"), range(2, b"XY"), range(20, b"z"), range(9, b"")];
    let runs = normalize_write_ranges(&ranges).unwrap();
    assert_eq!(parts(&runs), vec![(0, b"abXYefgh".to_vec()), (20, b"z".to_vec())]);
    assert!(matches!(
        normalize_write_ranges(&vec![range(u64::MAX, b"ab")]),
        Err(Error::Internal(message)) if message == "write range end overflow"
    ));
    assert_eq!(parts(&clip_runs(&runs, 3, 21)), vec![(3, b"Yefgh".to_vec()), (20, b"z".to_vec())]);
    assert_eq!(largest_end(&ranges), Some(21));
    let mut buf = vec![0u8; 6];
    assert!(apply_runs(&mut buf, 2, &clip_runs(&runs, 2, 8)));
    assert_eq!(buf, b"XYefgh");
}

#[test]
fn queued_writes_are_read_back() {
    let mut batcher = batcher();
    let first = batcher.queue(7, vec![range(0, b"hello")]).unwrap();
    assert!(first.queued && first.schedule_drain);
    assert_eq!(first.inode_bytes, 5);
    let second = batcher.queue(7, vec![range(3, b"p!")]).unwrap();
    assert!(!second.schedule_drain);
    assert!(batcher.has_pending(7) && !batcher.has_pending(8));
    let mut buf = vec![b'.'; 8];
    assert!(batcher.overlay_read(7, 0, &mut buf).applied);
    assert_eq!(buf, b"help!...");
    assert_eq!(batcher.pending_max_end(7), Some(5));
    assert_eq!(parts(&batcher.pending_ranges(7, 1, 3)), vec![(1, b"elp".to_vec())]);
    let mut merged = stats(7);
    batcher.merge_into_stats(7, &mut merged);
    assert_eq!(merged.size, 5);
    let nothing = batcher.queue(9, vec![range(0, b"")]).unwrap();
    assert!(!nothing.queued);
}

#[test]
fn full_buffers_ask_for_a_drain() {
    let mut batcher = batcher();
    let small = batcher.queue(1, vec![range(0, &[1; 99])]).unwrap().outcome;
    assert!(!small.drain_inode && !small.drain_all);
    let inode = batcher.queue(1, vec![range(99, &[1; 1])]).unwrap().outcome;
    assert!(inode.drain_inode && !inode.drain_all);
    assert_eq!(AgentFSFile::finish_enqueue(&inode), AfterEnqueue::DrainInode);
    let all = batcher.queue(2, vec![range(0, &[1; 150])]).unwrap().outcome;
    assert!(all.drain_all && !all.drain_inode);
    assert_eq!(AgentFSFile::finish_enqueue(&all), AfterEnqueue::DrainAll);
}

#[test]
fn a_drain_takes_what_it_committed() {
    let mut batcher = batcher();
    batcher.queue(1, vec![range(0, b"one")]).unwrap();
    batcher.queue(1, vec![range(3, b"two")]).unwrap();
    let batch = batcher.begin_drain(None).unwrap();
    assert_eq!(batch.entries.len(), 1);
    assert_eq!(batch.entries[0].count, 2);
    assert_eq!(batch.entries[0].coalesced(), 1);
    assert_eq!(parts(&batch.entries[0].runs), vec![(0, b"onetwo".to_vec())]);
    // A write that comes during the commit stays.
    batcher.queue(1, vec![range(6, b"!")]).unwrap();
    let action = batcher.finish_drain(&run(&batcher, batch, &[]));
    assert_eq!(action.invalidate, vec![1]);
    assert_eq!(parts(&batcher.pending_ranges(1, 0, 10)), vec![(6, b"!".to_vec())]);
    let rest = batcher.begin_drain(Some(1)).unwrap();
    batcher.finish_drain(&run(&batcher, rest, &[]));
    assert!(batcher.is_idle());
}

#[test]
fn a_drain_is_bounded() {
    let mut batcher = batcher();
    for ino in 1..=3 {
        batcher.queue(ino, vec![range(0, b"x")]).unwrap();
    }
    let batch = batcher.begin_drain(Some(3)).unwrap();
    assert_eq!(batch.entries.len(), 2);
    assert!(batch.more_pending);
    assert!(batch.entries.iter().any(|entry| entry.ino == 3));
}

#[test]
fn truncation_cuts_what_waits() {
    let mut batcher = batcher();
    batcher.queue(1, vec![range(0, b"abcdef")]).unwrap();
    batcher.truncate_pending(1, 2);
    assert_eq!(parts(&batcher.pending_ranges(1, 0, 10)), vec![(0, b"ab".to_vec())]);
    let before = batcher.pending_generation(1).value;
    batcher.discard_pending(1);
    assert!(!batcher.has_pending(1));
    assert!(batcher.pending_generation(1).value > before);
}

#[test]
fn times_wait_with_the_data() {
    let mut batcher = batcher();
    batcher.queue(1, vec![range(0, b"a")]).unwrap();
    let change = PendingTimeChange { atime: None, mtime: Some((50, 5)), ctime: Some((60, 6)) };
    batcher.stash_pending_times(1, change);
    let mut merged = stats(1);
    batcher.merge_into_stats(1, &mut merged);
    assert_eq!((merged.atime, merged.mtime, merged.ctime), (1, 50, 60));
    let batch = batcher.begin_drain(None).unwrap();
    let directive = batcher.commit_directive(1);
    let step = commit_step(&batch.entries[0].runs, directive);
    assert!(matches!(step, CommitStep::WriteRuns(_)));
    assert!(matches!(after_step(step, StepResult::InodeMissing), AfterStep::Continue(_)));
    batcher.truncate_pending(1, 0);
    assert!(batcher.pending_times(1).is_some());
}

fn with_times() -> (AgentFSWriteBatcher, PendingTimeChange) {
    let mut batcher = batcher();
    batcher.queue(1, vec![range(0, b"a"), range(1, b"b")]).unwrap();
    batcher.queue(2, vec![range(0, b"c")]).unwrap();
    let change = PendingTimeChange { atime: None, mtime: Some((50, 5)), ctime: Some((60, 6)) };
    batcher.stash_pending_times(1, change);
    batcher.stash_pending_times(2, change);
    (batcher, change)
}

#[test]
fn a_drain_applies_the_times_of_what_succeeded() {
    let (mut batcher, change) = with_times();
    let batch = batcher.begin_drain(None).unwrap();
    let inos: Vec<i64> = batch.entries.iter().map(|entry| entry.ino).collect();
    assert_eq!(inos.len(), 2);
    let drain = run(&batcher, batch, &[StepResult::InodeMissing]);
    assert!(matches!(drain.asked, DrainAsk::Settle) && !drain.failed);
    assert_eq!(drain.results, vec![StepResult::InodeMissing, StepResult::Done]);
    assert_eq!(drain.applied.len(), 1);
    assert_eq!(drain.applied[0].0, inos[1]);
    assert_eq!(drain.applied[0].1.mtime, change.mtime);
    batcher.finish_drain(&drain);
    assert!(!batcher.has_pending(1) && !batcher.has_pending(2));
    assert!(batcher.pending_times(inos[1]).is_none());
}

#[test]
fn a_failed_drain_leaves_the_queue() {
    let (batcher, _) = with_times();
    let batch = batcher.begin_drain(None).unwrap();
    let drain = run(&batcher, batch, &[StepResult::Done, StepResult::Failed]);
    assert!(matches!(drain.asked, DrainAsk::Finished) && drain.failed);
    assert!(batcher.has_pending(1) && batcher.has_pending(2));

    let mut refused = Drain::start(batcher.begin_drain(None).unwrap());
    assert!(matches!(refused.asked, DrainAsk::Begin));
    refused.step(DrainReply::Failed);
    assert!(matches!(refused.asked, DrainAsk::Finished) && refused.failed);

    let mut lost = Drain::start(batcher.begin_drain(None).unwrap());
    lost.step(DrainReply::Done);
    lost.step(DrainReply::Directives(batcher.commit_directives(&lost.batch)));
    while let DrainAsk::Run { .. } = lost.asked {
        lost.step(DrainReply::Step(StepResult::Done));
    }
    assert!(matches!(lost.asked, DrainAsk::Commit));
    lost.step(DrainReply::Failed);
    assert!(matches!(lost.asked, DrainAsk::Rollback) && lost.failed);
    lost.step(DrainReply::Done);
    assert!(matches!(lost.asked, DrainAsk::Finished));
}

#[test]
fn an_empty_drain_only_settles() {
    let mut batcher = batcher();
    let drain = Drain::start(batcher.begin_drain(None).unwrap());
    assert!(matches!(drain.asked, DrainAsk::Settle));
    let action = batcher.finish_drain(&drain);
    assert!(action.invalidate.is_empty() && !action.schedule_drain);
}

#[test]
fn a_drain_is_counted_by_its_reason() {
    let (batcher, _) = with_times();
    let batch = batcher.begin_drain(None).unwrap();
    let mut telemetry = Telemetry::new(true);
    record_drain(&mut telemetry, &batch, DrainReason::Timer);
    record_drain(&mut telemetry, &batch, DrainReason::Bytes);
    record_drain(&mut telemetry, &batch, DrainReason::Bytes);
    assert_eq!(telemetry.core.agentfs_batcher_drains_timer.value, 2);
    assert_eq!(telemetry.core.agentfs_batcher_drains_bytes.value, 4);
    assert_eq!(telemetry.core.agentfs_batcher_drains_explicit.value, 0);
    assert_eq!(telemetry.core.agentfs_batcher_coalesced_ranges.value, 3);
    let mut off = Telemetry::new(false);
    record_drain(&mut off, &batch, DrainReason::Explicit);
    assert_eq!(off.core.agentfs_batcher_drains_explicit.value, 0);
}

#[test]
fn times_without_data_are_not_counted() {
    let mut batcher = batcher();
    batcher.queue(1, vec![range(0, b"a")]).unwrap();
    let change = PendingTimeChange { atime: None, mtime: Some((50, 5)), ctime: None };
    batcher.stash_pending_times(1, change);
    batcher.truncate_pending(1, 0);
    let batch = batcher.begin_drain(Some(1)).unwrap();
    let mut telemetry = Telemetry::new(true);
    record_drain(&mut telemetry, &batch, DrainReason::Explicit);
    assert_eq!(telemetry.core.agentfs_batcher_drains_explicit.value, 0);
    for entry in &batch.entries {
        assert!(entry.runs.is_empty());
    }
}

#[test]
fn the_scheduler_runs_until_nothing_waits() {
    let mut batcher = batcher();
    batcher.queue(1, vec![range(0, b"a")]).unwrap();
    assert_eq!(batcher.scheduler_step(SchedulerEvent::Woke), SchedulerAction::Drain);
    assert_eq!(batcher.scheduler_step(SchedulerEvent::DrainFailed), SchedulerAction::Sleep);
    let batch = batcher.begin_drain(None).unwrap();
    batcher.finish_drain(&run(&batcher, batch, &[]));
    assert_eq!(batcher.scheduler_step(SchedulerEvent::Drained(false)), SchedulerAction::Exit);
    assert!(!batcher.ensure_drain_scheduled());
    assert!(batcher.queue(1, vec![range(0, b"a")]).unwrap().schedule_drain);
    assert!(!batcher.ensure_drain_scheduled());
}

fn file(batched: bool) -> AgentFSFile {
    AgentFSFile { ino: 1, chunk_size: 4096, inline_threshold: 512, overlay_reads: true, batched }
}

#[test]
fn reads_merge_what_waits() {
    let mut batcher = batcher();
    batcher.queue(1, vec![range(6, b"world")]).unwrap();
    let file = file(true);
    assert!(!file.drains_before_read());
    let end = file.pending_end(Some(&batcher));
    assert_eq!(end, Some(11));
    let window = file.read_window(2, 100, 6, end).unwrap();
    assert_eq!((window.read_size, window.base_window), (9, 4));
    let bytes = file.finish_read(window, 2, b"llo,".to_vec(), Some(&batcher), end);
    assert_eq!(bytes, b"llo,world");
    assert!(file.read_window(11, 1, 6, end).is_none());
    assert!(file.read_window(0, 0, 6, end).is_none());
}

#[test]
fn writes_take_the_batcher_if_there_is_one() {
    assert_eq!(file(true).write_route(3), WriteRoute::Queue);
    assert_eq!(file(false).write_route(3), WriteRoute::Direct);
    assert_eq!(file(true).write_route(0), WriteRoute::Nothing);
    assert_eq!(file(true).ranges_route(&vec![range(0, b"")]), WriteRoute::Nothing);
    assert_eq!(
        AgentFSFile::sync_statements(),
        vec![
            "PRAGMA synchronous = FULL",
            "PRAGMA wal_checkpoint(TRUNCATE)",
            "PRAGMA synchronous = NORMAL",
        ]
    );
}

#[test]
fn attributes_change_with_the_times() {
    let chmod = chmod_update(1, Some(S_IFREG | 0o600), 0o170755, (9, 1)).unwrap();
    assert_eq!(chmod.mode, Some(S_IFREG | 0o755));
    assert_eq!(chmod.times.ctime, Some((9, 1)));
    assert!(matches!(chmod_update(1, None, 0, (9, 1)), Err(FsError::NotFound)));
    assert!(chown_update(1, true, None, None, (9, 1)).unwrap().is_none());
    assert_eq!(chown_update(1, true, Some(5), None, (9, 1)).unwrap().unwrap().uid, Some(5));
    assert!(matches!(chown_update(1, false, Some(5), None, (9, 1)), Err(FsError::NotFound)));
    assert_eq!(
        utimens_route(TimeChange::Omit, TimeChange::Omit, false, true, true),
        TimesRoute::Nothing
    );
    assert_eq!(
        utimens_route(TimeChange::Now, TimeChange::Omit, false, true, true),
        TimesRoute::Stash
    );
    assert_eq!(
        utimens_route(TimeChange::Now, TimeChange::Omit, true, true, true),
        TimesRoute::Direct
    );
    let times = utimens_change(TimeChange::At(5, 6), TimeChange::Now, (9, 1));
    assert_eq!((times.atime, times.mtime, times.ctime), (Some((5, 6)), Some((9, 1)), Some((9, 1))));
    assert!(utimens_update(1, true, times).is_ok());
    assert!(matches!(utimens_update(1, false, times), Err(FsError::NotFound)));
    assert_eq!(attr_prelude(true, true, true), AttrPrelude::Drain);
    assert_eq!(attr_prelude(false, true, true), AttrPrelude::MarkExplicit);
    assert_eq!(attr_prelude(false, false, true), AttrPrelude::Drain);
    assert_eq!(attr_prelude(false, true, false), AttrPrelude::Nothing);
}

#[test]
fn cached_attributes_are_of_the_present_generation() {
    let mut batcher = batcher();
    let seen = batcher.pending_generation(1);
    assert!(may_cache_attr(Some(batcher.pending_generation(1)), Some(seen)));
    batcher.queue(1, vec![range(0, b"abc")]).unwrap();
    assert!(!may_cache_attr(Some(batcher.pending_generation(1)), Some(seen)));
    assert!(may_cache_attr(None, None));
    let mut merged = stats(1);
    merge_pending_view(true, Some(&batcher), 1, &mut merged);
    assert_eq!(merged.size, 3);
    let mut plain = stats(1);
    merge_pending_view(false, Some(&batcher), 1, &mut plain);
    assert_eq!(plain.size, 0);
}

#[test]
fn truncation_takes_exactly_the_tail_off_the_total() {
    let mut batcher = batcher();
    batcher.queue(1, vec![range(0, b"abcdef"), range(10, b"xyz")]).unwrap();
    batcher.queue(2, vec![range(5, b"other")]).unwrap();
    assert_eq!(batcher.state.total_pending_bytes, 14);
    batcher.truncate_pending(1, 4);
    assert_eq!(batcher.state.total_pending_bytes, 9);
    assert_eq!(parts(&batcher.pending_ranges(1, 0, 20)), vec![(0, b"abcd".to_vec())]);
    assert_eq!(batcher.pending_max_end(1), Some(4));
    assert_eq!(parts(&batcher.pending_ranges(2, 0, 20)), vec![(5, b"other".to_vec())]);
}

#[test]
fn an_access_time_outlives_a_truncation() {
    let mut batcher = batcher();
    let change = PendingTimeChange { atime: Some((5, 0)), mtime: None, ctime: None };
    batcher.stash_pending_times(1, change);
    batcher.truncate_pending(1, 0);
    assert_eq!(batcher.pending_times(1).unwrap().atime, Some((5, 0)));
    batcher.queue(2, vec![range(8, b"tail")]).unwrap();
    batcher.stash_pending_times(2, change);
    batcher.truncate_pending(2, 8);
    assert!(batcher.pending_ranges(2, 0, 20).is_empty());
    assert_eq!(batcher.pending_times(2), Some(change));
}

#[test]
fn a_new_generation_exceeds_those_of_all_inodes() {
    let mut state = AgentFSWriteBatcherState::default();
    for ino in 1..5 {
        state.bump_generation(ino);
    }
    let before: Vec<u64> = (1..6).map(|ino| state.generation(ino).value).collect();
    state.bump_generation(3);
    let after = state.generation(3).value;
    assert!(before.iter().all(|generation| after > *generation));
    for (ino, old) in (1..6).zip(before) {
        assert!(state.generation(ino).value >= old);
    }
}

#[test]
fn ranges_are_counted_as_the_caller_says() {
    let mut entry = PendingInodeWrites::new(7);
    entry.pending_times =
        Some(PendingTimeChange { atime: Some((5, 0)), mtime: Some((6, 0)), ctime: None });
    entry.times_explicit = true;
    entry.push_ranges(vec![range(0, b"ab")], 10).unwrap();
    assert_eq!((entry.ranges.len(), entry.pending_bytes, entry.generation), (1, 10, 7));
    assert!(!entry.times_explicit);
    let times = entry.pending_times.unwrap();
    assert_eq!((times.atime, times.mtime), (Some((5, 0)), None));
    assert!(matches!(
        entry.push_ranges(vec![range(9, b"c")], usize::MAX),
        Err(Error::Internal(message)) if message == "batched write byte count overflow"
    ));
    assert_eq!((entry.ranges.len(), entry.pending_bytes), (1, 10));
}
