//! What becomes of the bytes and times that are written, byte by byte.
use crate::batcher::{AgentFSWriteBatcher, EnqueueOutcome, QueueAction};
use crate::drain::{
    AfterStep, CommitDirective, CommitStep, SchedulerAction, SchedulerEvent, StepResult,
    after_step, commit_step,
};
use crate::error::{Error, FsError};
use crate::file::{AfterEnqueue, AgentFSFile, ReadWindow, WriteRoute, found_stats};
use crate::pending::{PendingTimeChange, clear_applied, needs_commit_stamp};
use crate::ranges::{
    RangeModel, WriteRange, clip_runs, largest_end, max_end, normalize_write_ranges, range_models,
    written_byte,
};
use crate::stats::Stats;
use vstd::prelude::*;

verus! {

/// Whether a write is the last one of a sequence that reaches a position.
pub open spec fn is_last_at(writes: Seq<RangeModel>, at: int, pos: int) -> bool {
    &&& 0 <= at < writes.len()
    &&& writes[at].offset <= pos < writes[at].offset + writes[at].bytes.len()
    &&& forall|k: int|
        at < k < writes.len() ==> !((#[trigger] writes[k]).offset <= pos < writes[k].offset
            + writes[k].bytes.len())
}

/// Whether no write of a sequence reaches a position.
pub open spec fn is_untouched(writes: Seq<RangeModel>, pos: int) -> bool {
    forall|k: int|
        0 <= k < writes.len() ==> !((#[trigger] writes[k]).offset <= pos < writes[k].offset
            + writes[k].bytes.len())
}

/// Of several writes the last one that reaches a position decides its byte.
pub proof fn the_last_write_decides_a_byte(writes: Seq<RangeModel>, at: int, pos: int)
    ensures
        is_last_at(writes, at, pos) ==> written_byte(writes, pos) == Some(
            writes[at].bytes[pos - writes[at].offset],
        ),
        is_untouched(writes, pos) ==> written_byte(writes, pos) is None,
    decreases writes.len(),
{
    if writes.len() > 0 {
        let rest = writes.drop_last();
        the_last_write_decides_a_byte(rest, at, pos);
        assert(writes.last() == writes[writes.len() - 1]);
        if is_last_at(writes, at, pos) && at < rest.len() {
            assert(rest[at] == writes[at]);
            assert forall|k: int| at < k < rest.len() implies !((#[trigger] rest[k]).offset <= pos
                < rest[k].offset + rest[k].bytes.len()) by {
                assert(rest[k] == writes[k]);
            }
            assert(is_last_at(rest, at, pos));
        }
        if is_untouched(writes, pos) {
            assert forall|k: int| 0 <= k < rest.len() implies !((#[trigger] rest[k]).offset <= pos
                < rest[k].offset + rest[k].bytes.len()) by {
                assert(rest[k] == writes[k]);
            }
            assert(is_untouched(rest, pos));
        }
    }
}

/// A position that is written is reached by a last write.
proof fn lemma_last_write(writes: Seq<RangeModel>, pos: int) -> (at: int)
    ensures
        is_untouched(writes, pos) || is_last_at(writes, at, pos),
    decreases writes.len(),
{
    if writes.len() == 0 {
        0
    } else {
        let last = writes.len() - 1;
        let end = writes[last];
        if end.offset <= pos < end.offset + end.bytes.len() {
            last
        } else {
            let rest = writes.drop_last();
            let at = lemma_last_write(rest, pos);
            if is_untouched(rest, pos) {
                assert forall|k: int| 0 <= k < writes.len() implies !((#[trigger] writes[k]).offset
                    <= pos < writes[k].offset + writes[k].bytes.len()) by {
                    if k < rest.len() {
                        assert(rest[k] == writes[k]);
                    }
                }
            } else {
                assert(rest[at] == writes[at]);
                assert forall|k: int| at < k < writes.len() implies !((#[trigger] writes[k]).offset
                    <= pos < writes[k].offset + writes[k].bytes.len()) by {
                    if k < rest.len() {
                        assert(rest[k] == writes[k]);
                    }
                }
            }
            at
        }
    }
}

/// Writes are merged into runs that are in order and do not touch each other, and that hold at
/// each position what the last write put there, and nothing where no write reached. That fails
/// exactly if a write ends behind the last position.
pub proof fn merged_runs_hold_the_last_writes(
    ranges: Vec<WriteRange>,
    result: Result<Vec<WriteRange>, Error>,
    at: int,
    run: int,
    pos: int,
)
    requires
        call_ensures(normalize_write_ranges, (&ranges,), result),
    ensures
        result is Ok <==> forall|i: int|
            0 <= i < ranges@.len() ==> (#[trigger] ranges@[i]).offset + ranges@[i].data@.len()
                <= u64::MAX,
        result matches Ok(runs) ==> {
            &&& forall|i: int, j: int|
                0 <= i < j < runs@.len() ==> (#[trigger] runs@[i]).offset + runs@[i].data@.len() < (
                #[trigger] runs@[j]).offset
            &&& is_last_at(range_models(ranges@), at, pos) && is_last_at(
                range_models(runs@),
                run,
                pos,
            ) ==> runs@[run].data@[pos - runs@[run].offset] == ranges@[at].data@[pos
                - ranges@[at].offset]
            &&& is_untouched(range_models(ranges@), pos) <==> is_untouched(
                range_models(runs@),
                pos,
            )
        },
{
    let writes = range_models(ranges@);
    assert forall|i: int| 0 <= i < ranges@.len() implies (#[trigger] writes[i]).end()
        == ranges@[i].offset + ranges@[i].data@.len() by {}
    if result is Ok {
        let runs = result->Ok_0;
        let merged = range_models(runs@);
        assert forall|i: int, j: int| 0 <= i < j < runs@.len() implies (#[trigger] runs@[i]).offset
            + runs@[i].data@.len() < (#[trigger] runs@[j]).offset by {
            assert(merged[i].end() < merged[j].offset);
        }
        the_last_write_decides_a_byte(writes, at, pos);
        the_last_write_decides_a_byte(merged, run, pos);
        assert(written_byte(merged, pos) == written_byte(writes, pos));
        let one = lemma_last_write(writes, pos);
        let two = lemma_last_write(merged, pos);
        the_last_write_decides_a_byte(writes, one, pos);
        the_last_write_decides_a_byte(merged, two, pos);
        assert forall|i: int| 0 <= i < ranges@.len() implies (#[trigger] ranges@[i]).offset
            + ranges@[i].data@.len() <= u64::MAX by {
            assert(writes[i].end() <= u64::MAX);
        }
    } else {
        let i = choose|i: int| 0 <= i < writes.len() && (#[trigger] writes[i]).end() > u64::MAX;
        assert(ranges@[i].offset + ranges@[i].data@.len() > u64::MAX);
    }
}

/// The largest end is an end, and none is larger. There is none exactly without a write.
pub proof fn the_largest_end_is_the_largest(
    ranges: Vec<WriteRange>,
    end: Option<u64>,
    i: int,
)
    requires
        call_ensures(largest_end, (&ranges,), end),
    ensures
        end is None <==> ranges@.len() == 0,
        0 <= i < ranges@.len() && ranges@[i].offset + ranges@[i].data@.len() <= u64::MAX
            ==> ranges@[i].offset + ranges@[i].data@.len() <= end->0,
        end matches Some(found) ==> exists|k: int|
            0 <= k < ranges@.len() && (#[trigger] ranges@[k]).offset + ranges@[k].data@.len()
                >= found,
{
    let writes = range_models(ranges@);
    if ranges@.len() > 0 {
        let k = lemma_max_is_reached(writes);
        assert(ranges@[k].offset + ranges@[k].data@.len() == writes[k].end());
        if 0 <= i < ranges@.len() {
            crate::ranges::lemma_max_end(writes, i);
            assert(writes[i].end() == ranges@[i].offset + ranges@[i].data@.len());
        }
    }
}

proof fn lemma_max_is_reached(writes: Seq<RangeModel>) -> (k: int)
    requires
        writes.len() > 0,
    ensures
        0 <= k < writes.len(),
        max_end(writes) == Some(writes[k].end()),
    decreases writes.len(),
{
    let last = writes.len() - 1;
    if writes.len() == 1 {
        last
    } else {
        let rest = writes.drop_last();
        let k = lemma_max_is_reached(rest);
        assert(rest[k] == writes[k]);
        if writes[k].end() > writes[last].end() {
            k
        } else {
            last
        }
    }
}

/// Runs that are cut to a window hold at each position of it what they held, and nothing outside.
pub proof fn cutting_runs_keeps_the_window(
    runs: Vec<WriteRange>,
    from: u64,
    to: u64,
    cut: Vec<WriteRange>,
    at: int,
    run: int,
    pos: int,
)
    requires
        from <= to,
        crate::ranges::ends_fit(range_models(runs@)),
        call_ensures(clip_runs, (&runs, from, to), cut),
    ensures
        from <= pos < to && is_last_at(range_models(runs@), at, pos) && is_last_at(
            range_models(cut@),
            run,
            pos,
        ) ==> cut@[run].data@[pos - cut@[run].offset] == runs@[at].data@[pos - runs@[at].offset],
        is_untouched(range_models(cut@), pos) <==> pos < from || to <= pos || is_untouched(
            range_models(runs@),
            pos,
        ),
{
    let all = range_models(runs@);
    let left = range_models(cut@);
    crate::ranges::clip_all_keeps_window(all, from as int, to as int, pos);
    the_last_write_decides_a_byte(all, at, pos);
    the_last_write_decides_a_byte(left, run, pos);
    let one = lemma_last_write(all, pos);
    let two = lemma_last_write(left, pos);
    the_last_write_decides_a_byte(all, one, pos);
    the_last_write_decides_a_byte(left, two, pos);
}

/// The writes that wait for an inode, in the order in which they came.
pub open spec fn waiting(batcher: AgentFSWriteBatcher, ino: i64) -> Seq<RangeModel> {
    if batcher@.pending.contains_key(ino) {
        batcher@.pending[ino].ranges
    } else {
        Seq::empty()
    }
}

/// Whether all waiting writes of an inode end at or before the last position.
pub open spec fn waiting_fits(batcher: AgentFSWriteBatcher, ino: i64) -> bool {
    forall|i: int|
        0 <= i < waiting(batcher, ino).len() ==> (#[trigger] waiting(batcher, ino)[i]).offset
            + waiting(batcher, ino)[i].bytes.len() <= u64::MAX
}

/// A read shows at each position the byte of the last waiting write that reaches it, and leaves
/// what it found where none does.
pub proof fn a_read_shows_what_waits(
    batcher: AgentFSWriteBatcher,
    ino: i64,
    offset: u64,
    buf: &mut Vec<u8>,
    hit: crate::batcher::OverlayHit,
    i: int,
    at: int,
)
    requires
        batcher.wf(),
        waiting_fits(batcher, ino),
        offset + old(buf)@.len() <= u64::MAX,
        call_ensures(AgentFSWriteBatcher::overlay_read, (&batcher, ino, offset, buf), hit),
    ensures
        final(buf)@.len() == old(buf)@.len(),
        0 <= i < old(buf)@.len() && is_last_at(waiting(batcher, ino), at, offset + i) ==> {
            let write = waiting(batcher, ino)[at];
            final(buf)@[i] == write.bytes[offset + i - write.offset]
        },
        0 <= i < old(buf)@.len() && is_untouched(waiting(batcher, ino), offset + i) ==> {
            let found = old(buf)@[i];
            final(buf)@[i] == found
        },
{
    let writes = waiting(batcher, ino);
    assert forall|k: int| 0 <= k < writes.len() implies (#[trigger] writes[k]).end()
        <= u64::MAX by {}
    the_last_write_decides_a_byte(writes, at, offset + i);
}

/// A queued write is read back: its bytes show at its positions, those of the last range where
/// several overlap, whatever waited before. Other inodes read as before.
pub proof fn a_queued_write_is_read_back(
    batcher: &mut AgentFSWriteBatcher,
    ino: i64,
    ranges: Vec<WriteRange>,
    result: Result<QueueAction, Error>,
    at: int,
    pos: int,
    offset: u64,
    buf: &mut Vec<u8>,
    hit: crate::batcher::OverlayHit,
    other: i64,
)
    requires
        old(batcher).wf(),
        call_ensures(AgentFSWriteBatcher::queue, (batcher, ino, ranges), result),
        result is Ok,
        is_last_at(range_models(ranges@), at, pos),
        waiting_fits(*final(batcher), ino),
        offset <= pos < offset + old(buf)@.len(),
        offset + old(buf)@.len() <= u64::MAX,
        call_ensures(AgentFSWriteBatcher::overlay_read, (final(batcher), ino, offset, buf), hit),
    ensures
        final(buf)@[pos - offset] == ranges@[at].data@[pos - ranges@[at].offset],
        other != ino ==> {
            let before = waiting(*old(batcher), other);
            waiting(*final(batcher), other) == before
        },
{
    let given = range_models(ranges@);
    let added = crate::batcher::drop_empty(given);
    crate::batcher::drop_empty_is_invisible(given);
    the_last_write_decides_a_byte(given, at, pos);
    assert(written_byte(added, pos) == written_byte(given, pos));
    let writes = waiting(*final(batcher), ino);
    if added.len() == 0 {
        assert(written_byte(added, pos) is None);
    }
    let before = old(batcher)@.entry_or_fresh(ino).ranges;
    assert(writes == before + added);
    crate::ranges::written_byte_of_concat(before, added, pos);
    assert forall|k: int| 0 <= k < writes.len() implies (#[trigger] writes[k]).end()
        <= u64::MAX by {}
}

/// A queued write counts with all its bytes, those of its inode and those of all. It asks for a
/// drain of everything where the limit of all is reached, and else for one of the inode where the
/// limit of the inode is. A write without a byte changes nothing and asks for nothing.
pub proof fn limits_ask_for_a_drain(
    batcher: &mut AgentFSWriteBatcher,
    ino: i64,
    ranges: Vec<WriteRange>,
    action: QueueAction,
    bytes: usize,
)
    requires
        old(batcher).wf(),
        call_ensures(
            AgentFSWriteBatcher::queue,
            (batcher, ino, ranges),
            Ok::<QueueAction, Error>(action),
        ),
        call_ensures(crate::batcher::count_bytes, (&ranges,), Some(bytes)),
    ensures
        bytes == 0 ==> {
            let before = old(batcher)@;
            &&& final(batcher)@ == before
            &&& !action.queued && !action.schedule_drain
            &&& !action.outcome.drain_all && !action.outcome.drain_inode
        },
        bytes > 0 ==> {
            let total = old(batcher)@.total;
            let scheduled = old(batcher)@.drain_scheduled;
            let most = old(batcher).batch_global_bytes;
            let most_of_one = old(batcher).batch_bytes;
            &&& action.queued
            &&& final(batcher)@.total == total + bytes
            &&& final(batcher)@.drain_scheduled
            &&& action.schedule_drain == !scheduled
            &&& action.outcome.drain_all <==> total + bytes >= most
            &&& action.outcome.drain_inode <==> total + bytes < most && action.inode_bytes
                >= most_of_one
        },
{
    let given = range_models(ranges@);
    crate::batcher::drop_empty_is_invisible(given);
    let added = crate::batcher::drop_empty(given);
    if added.len() > 0 {
        assert(added.last() == added[added.len() - 1]);
        assert(added[added.len() - 1].bytes.len() > 0);
    }
}

/// What waits shows in the attributes: the times that were set replace those that were read, each
/// by itself, and the size reaches to the end of the last byte that waits. Nothing else changes.
pub proof fn attributes_show_what_waits(
    batcher: AgentFSWriteBatcher,
    ino: i64,
    stats: &mut Stats,
    i: int,
)
    requires
        call_ensures(AgentFSWriteBatcher::merge_into_stats, (&batcher, ino, stats), ()),
    ensures
        ({
            let found = *old(stats);
            let shown = *final(stats);
            let times = if batcher@.pending.contains_key(ino) {
                batcher@.pending[ino].pending_times
            } else {
                None
            };
            &&& shown.ino == found.ino && shown.mode == found.mode && shown.nlink == found.nlink
            &&& shown.uid == found.uid && shown.gid == found.gid && shown.rdev == found.rdev
            &&& shown.size >= found.size
            &&& 0 <= i < waiting(batcher, ino).len() ==> {
                let end = waiting(batcher, ino)[i].offset + waiting(batcher, ino)[i].bytes.len();
                end <= i64::MAX ==> shown.size >= end
            }
            &&& shown.size > found.size && shown.size < i64::MAX ==> exists|k: int|
                0 <= k < waiting(batcher, ino).len() && shown.size == (#[trigger] waiting(
                    batcher,
                    ino,
                )[k]).offset + waiting(batcher, ino)[k].bytes.len()
            &&& match times {
                Some(set) => {
                    &&& set.atime matches Some(t) ==> shown.atime == t.0
                    &&& set.atime is None ==> shown.atime == found.atime && shown.atime_nsec
                        == found.atime_nsec
                    &&& set.mtime matches Some(t) ==> shown.mtime == t.0
                    &&& set.mtime is None ==> shown.mtime == found.mtime && shown.mtime_nsec
                        == found.mtime_nsec
                    &&& set.ctime matches Some(t) ==> shown.ctime == t.0
                    &&& set.ctime is None ==> shown.ctime == found.ctime && shown.ctime_nsec
                        == found.ctime_nsec
                },
                None => shown == (Stats { size: shown.size, ..found }),
            }
        }),
{
    let writes = waiting(batcher, ino);
    if writes.len() > 0 {
        let k = lemma_max_is_reached(writes);
        assert(writes[k].end() == writes[k].offset + writes[k].bytes.len());
        if 0 <= i < writes.len() {
            crate::ranges::lemma_max_end(writes, i);
        }
    }
}

/// Times that are set later win, each by itself, and those that are not set stay.
pub proof fn later_times_win(
    times: &mut PendingTimeChange,
    newer: PendingTimeChange,
)
    requires
        call_ensures(PendingTimeChange::apply, (times, &newer), ()),
    ensures
        final(times).atime == if newer.atime is Some {
            newer.atime
        } else {
            old(times).atime
        },
        final(times).mtime == if newer.mtime is Some {
            newer.mtime
        } else {
            old(times).mtime
        },
        final(times).ctime == if newer.ctime is Some {
            newer.ctime
        } else {
            old(times).ctime
        },
{
}

/// A write stamps the modification and the change time again and leaves the access time to who
/// set it. What a commit wrote is dropped, each time by itself, and what was set since stays.
pub proof fn times_go_once_they_are_written(
    written: &mut PendingTimeChange,
    cleared: &mut PendingTimeChange,
    applied: PendingTimeChange,
)
    requires
        call_ensures(PendingTimeChange::clear_write_stamped, (written,), ()),
        call_ensures(clear_applied, (cleared, &applied), ()),
    ensures
        final(written).atime == old(written).atime,
        final(written).mtime is None && final(written).ctime is None,
        old(cleared).atime == applied.atime ==> final(cleared).atime is None,
        old(cleared).atime != applied.atime ==> final(cleared).atime == old(cleared).atime,
        old(cleared).mtime == applied.mtime ==> final(cleared).mtime is None,
        old(cleared).mtime != applied.mtime ==> final(cleared).mtime == old(cleared).mtime,
        old(cleared).ctime == applied.ctime ==> final(cleared).ctime is None,
        old(cleared).ctime != applied.ctime ==> final(cleared).ctime == old(cleared).ctime,
{
}

/// Times are laid over attributes each by itself, and leave everything else.
pub proof fn times_are_laid_over_attributes(times: PendingTimeChange, stats: &mut Stats)
    requires
        call_ensures(PendingTimeChange::merge_into, (&times, stats), ()),
    ensures
        *final(stats) == (Stats {
            atime: final(stats).atime,
            atime_nsec: final(stats).atime_nsec,
            mtime: final(stats).mtime,
            mtime_nsec: final(stats).mtime_nsec,
            ctime: final(stats).ctime,
            ctime_nsec: final(stats).ctime_nsec,
            ..*old(stats)
        }),
        times.atime is None ==> final(stats).atime == old(stats).atime && final(stats).atime_nsec
            == old(stats).atime_nsec,
        times.mtime is None ==> final(stats).mtime == old(stats).mtime && final(stats).mtime_nsec
            == old(stats).mtime_nsec,
        times.ctime is None ==> final(stats).ctime == old(stats).ctime && final(stats).ctime_nsec
            == old(stats).ctime_nsec,
        times.atime matches Some(t) ==> final(stats).atime == t.0 && (0 <= t.1 <= u32::MAX
            ==> final(stats).atime_nsec == t.1),
        times.mtime matches Some(t) ==> final(stats).mtime == t.0 && (0 <= t.1 <= u32::MAX
            ==> final(stats).mtime_nsec == t.1),
        times.ctime matches Some(t) ==> final(stats).ctime == t.0 && (0 <= t.1 <= u32::MAX
            ==> final(stats).ctime_nsec == t.1),
{
}

/// A commit asks for the time exactly if it may stamp and one of the two times is not set.
pub proof fn a_commit_needs_the_time_to_stamp(
    preserve: bool,
    explicit: Option<PendingTimeChange>,
    needed: bool,
)
    requires
        call_ensures(needs_commit_stamp, (preserve, explicit), needed),
    ensures
        preserve ==> !needed,
        !preserve && explicit is None ==> needed,
        !preserve ==> (explicit matches Some(times) ==> (needed <==> times.mtime is None
            || times.ctime is None)),
{
}

/// A read returns as many bytes as were asked for, up to the end of the file, and none behind it.
/// Of them the database is asked for those that it can hold.
pub proof fn a_read_stops_at_the_end(
    file: AgentFSFile,
    offset: u64,
    size: u64,
    committed: u64,
    pending_end: Option<u64>,
    window: Option<ReadWindow>,
)
    requires
        call_ensures(AgentFSFile::read_window, (&file, offset, size, committed, pending_end), window),
    ensures
        window is Some <==> size > 0 && (offset < committed || (pending_end matches Some(end)
            && offset < end)),
        window matches Some(w) ==> {
            let ends = offset + w.read_size;
            &&& 0 < w.read_size <= size
            &&& ends <= committed || (pending_end matches Some(end) && ends <= end)
            &&& w.read_size < size ==> ends >= committed && (pending_end matches Some(end) ==> ends
                >= end)
            &&& w.base_window <= w.read_size
            &&& w.base_window > 0 ==> offset + w.base_window <= committed
            &&& w.base_window < w.read_size ==> offset + w.base_window >= committed
        },
{
}

/// The bytes that a read returns: at each position that of the last waiting write, else that of
/// the database, else zero.
pub proof fn a_read_fills_gaps_with_zero(
    file: AgentFSFile,
    window: ReadWindow,
    offset: u64,
    base: Vec<u8>,
    batcher: AgentFSWriteBatcher,
    end: u64,
    bytes: Vec<u8>,
    plain: Vec<u8>,
    i: int,
    at: int,
)
    requires
        batcher.wf(),
        waiting_fits(batcher, file.ino),
        base@.len() == window.base_window,
        window.base_window <= window.read_size <= usize::MAX,
        offset + window.read_size <= u64::MAX,
        call_ensures(
            AgentFSFile::finish_read,
            (&file, window, offset, base, Some(&batcher), Some(end)),
            bytes,
        ),
        call_ensures(AgentFSFile::finish_read, (&file, window, offset, base, None, None), plain),
        0 <= i < window.read_size,
    ensures
        bytes@.len() == window.read_size && plain@.len() == window.read_size,
        plain@[i] == if i < base@.len() {
            base@[i]
        } else {
            0
        },
        is_last_at(waiting(batcher, file.ino), at, offset + i) ==> {
            let write = waiting(batcher, file.ino)[at];
            bytes@[i] == write.bytes[offset + i - write.offset]
        },
        is_untouched(waiting(batcher, file.ino), offset + i) ==> bytes@[i] == plain@[i],
{
    let writes = waiting(batcher, file.ino);
    assert forall|k: int| 0 <= k < writes.len() implies (#[trigger] writes[k]).end()
        <= u64::MAX by {}
    the_last_write_decides_a_byte(writes, at, offset + i);
}

/// A write waits only where there is a batcher and, but for those that may always wait, reads see
/// what waits. One without a byte goes nowhere.
pub proof fn writes_wait_where_reads_see_them(
    file: AgentFSFile,
    ranges: Vec<WriteRange>,
    len: usize,
    one: WriteRoute,
    several: WriteRoute,
    batched: WriteRoute,
    drains: bool,
)
    requires
        call_ensures(AgentFSFile::write_route, (&file, len), one),
        call_ensures(AgentFSFile::ranges_route, (&file, &ranges), several),
        call_ensures(AgentFSFile::batched_route, (&file, &ranges), batched),
        call_ensures(AgentFSFile::drains_before_read, (&file,), drains),
    ensures
        one == WriteRoute::Nothing <==> len == 0,
        several == WriteRoute::Nothing <==> forall|i: int|
            0 <= i < ranges@.len() ==> (#[trigger] ranges@[i]).data@.len() == 0,
        batched == WriteRoute::Nothing <==> several == WriteRoute::Nothing,
        one == WriteRoute::Queue ==> file.batched && file.overlay_reads,
        one == WriteRoute::Direct ==> !file.batched || !file.overlay_reads,
        several == WriteRoute::Queue ==> file.batched && file.overlay_reads,
        several == WriteRoute::Direct ==> !file.batched || !file.overlay_reads,
        batched == WriteRoute::Queue ==> file.batched,
        batched == WriteRoute::Direct ==> !file.batched,
        drains <==> !file.overlay_reads,
{
    if several == WriteRoute::Nothing {
        assert forall|i: int| 0 <= i < ranges@.len() implies (#[trigger] ranges@[i]).data@.len()
            == 0 by {
            assert(!crate::file::has_data(ranges@));
        }
    } else {
        assert(crate::file::has_data(ranges@));
    }
}

/// After a write everything is committed if that was asked for, else the inode if that was.
pub proof fn a_full_drain_comes_first(outcome: EnqueueOutcome, after: AfterEnqueue)
    requires
        call_ensures(AgentFSFile::finish_enqueue, (&outcome,), after),
    ensures
        outcome.drain_all <==> after == AfterEnqueue::DrainAll,
        !outcome.drain_all && outcome.drain_inode <==> after == AfterEnqueue::DrainInode,
        !outcome.drain_all && !outcome.drain_inode <==> after == AfterEnqueue::Nothing,
{
}

/// A sync makes commits durable, moves the log into the database, and goes back to the usual
/// durability, in that order.
pub proof fn a_sync_is_durable(statements: Vec<&'static str>)
    requires
        call_ensures(AgentFSFile::sync_statements, (), statements),
    ensures
        statements@.len() == 3,
        statements@[0]@ == "PRAGMA synchronous = FULL"@,
        statements@[1]@ == "PRAGMA wal_checkpoint(TRUNCATE)"@,
        statements@[2]@ == "PRAGMA synchronous = NORMAL"@,
{
    let all = crate::text::texts(statements@);
    assert(all.len() == 3);
    assert(all[0] == statements@[0]@);
    assert(all[1] == statements@[1]@);
    assert(all[2] == statements@[2]@);
}

/// The attributes of an open file are those of its row; without one it is not found.
pub proof fn a_file_has_the_attributes_of_its_row(
    row: Option<Stats>,
    result: Result<Stats, FsError>,
)
    requires
        call_ensures(found_stats, (row,), result),
    ensures
        row is None ==> result == Err::<Stats, FsError>(FsError::NotFound),
        row matches Some(stats) ==> result == Ok::<Stats, FsError>(stats),
{
}

/// What is committed of an inode: its runs, with the times, if it has any, else the times alone, if
/// any are set.
pub proof fn data_takes_its_times_along(
    runs: Vec<WriteRange>,
    directive: CommitDirective,
    step: CommitStep,
)
    requires
        call_ensures(commit_step, (&runs, directive), step),
    ensures
        runs@.len() > 0 ==> step == CommitStep::WriteRuns(directive),
        runs@.len() == 0 ==> (directive.times matches Some(times) ==> step == CommitStep::SetTimes(
            times,
        )),
        runs@.len() == 0 && directive.times is None ==> step == CommitStep::Skip,
{
}

/// A step that failed rolls the transaction back. A missing inode does so only where times alone
/// were to be set; where data was to be written it is passed over, and no times count as written.
/// What succeeded goes on with the times that it wrote.
pub proof fn only_a_missing_inode_is_passed_over(
    directive: CommitDirective,
    times: PendingTimeChange,
    result: StepResult,
    wrote: AfterStep,
    set: AfterStep,
    skipped: AfterStep,
)
    requires
        call_ensures(after_step, (CommitStep::WriteRuns(directive), result), wrote),
        call_ensures(after_step, (CommitStep::SetTimes(times), result), set),
        call_ensures(after_step, (CommitStep::Skip, StepResult::Done), skipped),
    ensures
        result == StepResult::Failed ==> wrote is Rollback && set is Rollback,
        result == StepResult::InodeMissing ==> wrote == AfterStep::Continue(None) && set
            is Rollback,
        result == StepResult::Done ==> wrote == AfterStep::Continue(directive.times),
        result == StepResult::Done ==> set == AfterStep::Continue(Some(times)),
        skipped == AfterStep::Continue(None),
{
}

/// The scheduler drains when it wakes and while more has to be committed at once. Otherwise it
/// sleeps while something waits and ends when nothing does, and then a new one can be started.
pub proof fn the_scheduler_ends_when_nothing_waits(
    batcher: &mut AgentFSWriteBatcher,
    event: SchedulerEvent,
    action: SchedulerAction,
)
    requires
        old(batcher).wf(),
        call_ensures(AgentFSWriteBatcher::scheduler_step, (batcher, event), action),
    ensures
        event is Woke || event == SchedulerEvent::Drained(true) <==> action
            == SchedulerAction::Drain,
        action == SchedulerAction::Exit ==> {
            let nothing = old(batcher)@.pending.dom().len() == 0;
            nothing && !final(batcher)@.drain_scheduled
        },
        action == SchedulerAction::Sleep ==> {
            let something = old(batcher)@.pending.dom().len() > 0;
            something
        },
        action != SchedulerAction::Exit ==> {
            let before = old(batcher)@;
            final(batcher)@ == before
        },
        ({
            let before = old(batcher)@.pending;
            final(batcher)@.pending == before
        }),
{
}

} // verus!
