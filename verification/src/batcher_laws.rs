//! Laws of the group-commit queue.
//!
//! They relate the operations of the queue to each other and to what a reader sees.
use crate::batcher::{truncated, truncated_hides_the_tail};
use crate::batcher_state::{BatcherModel, lemma_sum_remove, lemma_with_retired};
use crate::pending::{PendingTimeChange, commit_times};
use crate::ranges::{
    RangeModel, ends_fit, max_end, merged_bytes, total_len, written_below_max_end, written_byte,
    written_byte_of_concat,
};
use crate::stats::Stats;
use vstd::prelude::*;

verus! {

/// Read your writes: once ranges are queued for an inode, a reader sees their bytes
/// where they wrote and the earlier pending bytes elsewhere; other inodes are left
/// alone.
pub proof fn queued_writes_are_visible(
    model: BatcherModel,
    ino: i64,
    ranges: Seq<RangeModel>,
    other: i64,
    pos: int,
)
    ensures
        written_byte(model.queued(ino, ranges).ranges_of(ino), pos) == (match written_byte(
            ranges,
            pos,
        ) {
            Some(byte) => Some(byte),
            None => written_byte(model.ranges_of(ino), pos),
        }),
        other != ino ==> model.queued(ino, ranges).ranges_of(other) == model.ranges_of(other),
        other != ino ==> model.queued(ino, ranges).times_of(other) == model.times_of(other),
{
    written_byte_of_concat(model.ranges_of(ino), ranges, pos);
    assert(model.queued(ino, ranges).ranges_of(ino) =~= model.ranges_of(ino) + ranges);
}

/// A read of a window that a queued write covers entirely returns the written bytes,
/// whatever the database holds.
pub proof fn read_returns_the_write(
    model: BatcherModel,
    ino: i64,
    write: RangeModel,
    base: Seq<u8>,
)
    requires
        base.len() == write.bytes.len(),
        write.end() <= u64::MAX,
        ends_fit(model.ranges_of(ino)),
    ensures
        model.queued(ino, seq![write]).read_over(ino, write.offset, base) == write.bytes,
{
    let next = model.queued(ino, seq![write]);
    let all = next.ranges_of(ino);
    assert(all =~= model.ranges_of(ino) + seq![write]);
    assert forall|i: int| 0 <= i < all.len() implies (#[trigger] all[i]).end() <= u64::MAX by {
        if i < model.ranges_of(ino).len() {
            assert(all[i] == model.ranges_of(ino)[i]);
        }
    }
    assert(all.last() == write);
    assert forall|i: int| 0 <= i < base.len() implies #[trigger] merged_bytes(
        base,
        write.offset,
        all,
    )[i] == write.bytes[i] by {
        assert(write.covers(write.offset + i));
    }
    assert(merged_bytes(base, write.offset, all) =~= write.bytes);
}

/// Commit, then remove: when the first `count` pending ranges of an inode are in the
/// database, removing them from the queue changes nothing that a reader sees, and
/// ranges appended during the commit stay pending.
pub proof fn commit_then_remove_keeps_reads(
    model: BatcherModel,
    ino: i64,
    count: nat,
    start: int,
    base: Seq<u8>,
)
    requires
        model.wf(),
        model.pending.contains_key(ino),
        count <= model.pending[ino].ranges.len(),
    ensures
        ({
            let ranges = model.ranges_of(ino);
            let after = model.prefix_removed(ino, count);
            let committed = merged_bytes(base, start, ranges.take(count as int));
            &&& after.ranges_of(ino) == ranges.skip(count as int)
            &&& merged_bytes(committed, start, after.ranges_of(ino)) == merged_bytes(
                base,
                start,
                ranges,
            )
        }),
{
    let entry = model.pending[ino];
    let ranges = entry.ranges;
    let after = model.prefix_removed(ino, count);
    let head = ranges.take(count as int);
    let tail = ranges.skip(count as int);
    assert(head + tail =~= ranges);
    if count == 0 {
        assert(ranges.skip(0) =~= ranges);
    }
    assert(after.ranges_of(ino) =~= tail);
    let committed = merged_bytes(base, start, head);
    assert forall|i: int| 0 <= i < base.len() implies #[trigger] merged_bytes(
        committed,
        start,
        tail,
    )[i] == merged_bytes(base, start, ranges)[i] by {
        written_byte_of_concat(head, tail, start + i);
    }
    assert(merged_bytes(committed, start, tail) =~= merged_bytes(base, start, ranges));
}

/// A truncation cuts what a reader sees at the new size and keeps stashed times.
pub proof fn truncation_cuts_reads_and_keeps_times(
    model: BatcherModel,
    ino: i64,
    size: int,
    pos: int,
)
    requires
        model.wf(),
    ensures
        written_byte(model.truncated_to(ino, size).ranges_of(ino), pos) == (if pos < size {
            written_byte(model.ranges_of(ino), pos)
        } else {
            None
        }),
        model.truncated_to(ino, size).times_of(ino) == model.times_of(ino),
{
    truncated_hides_the_tail(model.ranges_of(ino), size, pos);
}

/// A truncation leaves no range that ends behind the new size, takes exactly the bytes that it
/// drops off the total, and leaves everything pending for other inodes alone. Ranges that end
/// at a representable position still do.
pub proof fn truncation_drops_exactly_the_tail(
    model: BatcherModel,
    ino: i64,
    size: int,
    other: i64,
)
    requires
        model.wf(),
    ensures
        ({
            let cut = model.truncated_to(ino, size);
            &&& max_end(cut.ranges_of(ino)) matches Some(end) ==> end <= size
            &&& ends_fit(model.ranges_of(ino)) ==> ends_fit(cut.ranges_of(ino))
            &&& total_len(cut.ranges_of(ino)) <= total_len(model.ranges_of(ino))
            &&& cut.total == model.total - (total_len(model.ranges_of(ino)) - total_len(
                cut.ranges_of(ino),
            ))
            &&& other != ino ==> {
                &&& cut.pending.contains_key(other) == model.pending.contains_key(other)
                &&& cut.ranges_of(other) == model.ranges_of(other)
                &&& cut.times_of(other) == model.times_of(other)
                &&& model.pending.contains_key(other) ==> cut.pending[other]
                    == model.pending[other]
            }
        }),
{
    if model.pending.contains_key(ino) {
        lemma_sum_remove(model.pending, ino);
        lemma_truncated_ends(model.ranges_of(ino), size);
    }
}

proof fn lemma_truncated_ends(ranges: Seq<RangeModel>, size: int)
    ensures
        max_end(truncated(ranges, size)) matches Some(end) ==> end <= size,
        ends_fit(ranges) ==> ends_fit(truncated(ranges, size)),
        total_len(truncated(ranges, size)) <= total_len(ranges),
    decreases ranges.len(),
{
    if ranges.len() > 0 {
        let front = ranges.drop_last();
        let head = truncated(front, size);
        let all = truncated(ranges, size);
        let last = ranges.last();
        lemma_truncated_ends(front, size);
        if last.offset < size {
            assert(all.drop_last() =~= head);
        }
        if ends_fit(ranges) {
            assert forall|i: int| 0 <= i < front.len() implies (#[trigger] front[i]).end()
                <= u64::MAX by {
                assert(front[i] == ranges[i]);
            }
            assert(ranges[ranges.len() - 1].end() <= u64::MAX);
            assert forall|i: int| 0 <= i < all.len() implies (#[trigger] all[i]).end()
                <= u64::MAX by {
                if i < head.len() {
                    assert(all[i] == head[i]);
                }
            }
        }
    }
}

/// Times that were stashed still wait to be committed after a truncation, also when it leaves
/// no range of the inode.
pub proof fn stashed_times_survive_a_truncation(
    model: BatcherModel,
    ino: i64,
    change: PendingTimeChange,
    size: int,
)
    requires
        change != PendingTimeChange::no_change(),
    ensures
        ({
            let stashed = model.stashed(ino, change);
            let times = stashed.truncated_to(ino, size).times_of(ino);
            &&& times is Some
            &&& times == stashed.times_of(ino)
            &&& change.atime is Some ==> (times->0).atime == change.atime
            &&& change.mtime is Some ==> (times->0).mtime == change.mtime
            &&& change.ctime is Some ==> (times->0).ctime == change.ctime
        }),
{
}

/// After an inode is discarded nothing of it is pending.
pub proof fn discarded_inode_has_nothing_pending(model: BatcherModel, ino: i64, other: i64)
    ensures
        model.discarded(ino).ranges_of(ino).len() == 0,
        model.discarded(ino).times_of(ino) is None,
        other != ino ==> model.discarded(ino).ranges_of(other) == model.ranges_of(other),
        other != ino ==> model.discarded(ino).times_of(other) == model.times_of(other),
{
}

/// Every change of the pending state of an inode gives it a larger generation, so a
/// reader that compares generations never caches attributes across a change.
pub proof fn changes_advance_the_generation(
    model: BatcherModel,
    ino: i64,
    ranges: Seq<RangeModel>,
    size: int,
    change: PendingTimeChange,
    applied: PendingTimeChange,
    count: nat,
)
    requires
        model.wf(),
        model.room(1),
    ensures
        model.queued(ino, ranges).generation(ino) > model.generation(ino),
        change != PendingTimeChange::no_change() ==> model.stashed(ino, change).generation(ino)
            > model.generation(ino),
        model.pending.contains_key(ino) ==> {
            &&& model.truncated_to(ino, size).generation(ino) > model.generation(ino)
            &&& model.discarded(ino).generation(ino) > model.generation(ino)
            &&& model.marked_explicit(ino).generation(ino) > model.generation(ino)
        },
        model.times_of(ino) is Some ==> model.times_cleared(ino, applied).generation(ino)
            > model.generation(ino),
        model.prefix_removed(ino, count) != model ==> model.prefix_removed(ino, count).generation(
            ino,
        ) > model.generation(ino),
{
    let next = model.advanced();
    let generation = next.last_generation;
    assert(next.generations_wf());
    lemma_with_retired(next, ino, generation);
    let all = next.with_retired(ino, generation);
    if model.pending.contains_key(ino) {
        assert(all.retired.contains_key(ino) || all.watermark == generation) by {
            crate::batcher_state::lemma_pruned(
                next.retired.insert(
                    ino,
                    crate::batcher_state::RetiredGeneration {
                        generation,
                        retired_at: (next.epoch + 1) as u64,
                    },
                ),
                crate::batcher_state::MAX_RETIRED_GENERATIONS as nat,
            );
        }
    }
}

/// A change of one inode never takes the generation of another one back, although it
/// may make the queue forget a remembered generation.
pub proof fn generations_never_go_back(
    model: BatcherModel,
    ino: i64,
    other: i64,
    ranges: Seq<RangeModel>,
    size: int,
    change: PendingTimeChange,
    count: nat,
)
    requires
        model.wf(),
        model.room(1),
        other != ino,
    ensures
        model.generation(other) <= model.queued(ino, ranges).generation(other),
        model.generation(other) <= model.stashed(ino, change).generation(other),
        model.generation(other) <= model.truncated_to(ino, size).generation(other),
        model.generation(other) <= model.discarded(ino).generation(other),
        model.generation(other) <= model.marked_explicit(ino).generation(other),
        model.generation(other) <= model.prefix_removed(ino, count).generation(other),
{
    let next = model.advanced();
    assert(next.generations_wf());
    lemma_with_retired(next, ino, next.last_generation);
    assert(next.generation(other) <= next.with_retired(ino, next.last_generation).generation(
        other,
    ));
    assert(model.discarded(ino).generation(other) == (if model.pending.contains_key(ino) {
        next.with_retired(ino, next.last_generation).generation(other)
    } else {
        model.generation(other)
    }));
}

/// Explicit times win over the stamp of the commit, and without them a commit that
/// must preserve times writes none.
pub proof fn explicit_times_win(
    preserve_times: bool,
    explicit: PendingTimeChange,
    stamp: Option<(i64, i64)>,
)
    ensures
        explicit.mtime is Some ==> commit_times(preserve_times, Some(explicit), stamp).mtime
            == explicit.mtime,
        explicit.ctime is Some ==> commit_times(preserve_times, Some(explicit), stamp).ctime
            == explicit.ctime,
        commit_times(preserve_times, Some(explicit), stamp).atime == explicit.atime,
        commit_times(true, None, stamp) == PendingTimeChange::no_change(),
        commit_times(false, None, stamp).mtime == stamp,
        commit_times(false, None, stamp).ctime == stamp,
        commit_times(false, None, stamp).atime is None,
{
}

/// A write after an explicit time change makes the commit stamp the modification
/// and change times again; an explicit access time survives.
pub proof fn write_after_time_change_stamps_again(
    model: BatcherModel,
    ino: i64,
    change: PendingTimeChange,
    ranges: Seq<RangeModel>,
    stamp: (i64, i64),
)
    ensures
        ({
            let after = model.stashed(ino, change).marked_explicit(ino).queued(ino, ranges);
            let entry = after.pending[ino];
            let times = commit_times(entry.times_explicit, entry.pending_times, Some(stamp));
            &&& times.mtime == Some(stamp)
            &&& times.ctime == Some(stamp)
            &&& change.atime is Some ==> times.atime == change.atime
        }),
{
}

/// An explicit attribute change after the pending writes makes their commit keep the
/// times of the inode.
pub proof fn marked_inode_keeps_its_times(
    model: BatcherModel,
    ino: i64,
    stamp: Option<(i64, i64)>,
)
    requires
        model.pending.contains_key(ino),
        model.pending[ino].pending_times is None,
    ensures
        ({
            let entry = model.marked_explicit(ino).pending[ino];
            commit_times(entry.times_explicit, entry.pending_times, stamp)
                == PendingTimeChange::no_change()
        }),
{
}

/// Stashed times and pending growth show in attributes at once.
pub proof fn pending_state_shows_in_attributes(
    model: BatcherModel,
    ino: i64,
    change: PendingTimeChange,
    ranges: Seq<RangeModel>,
    stats: Stats,
    pos: int,
)
    requires
        0 <= pos < i64::MAX,
    ensures
        change.mtime is Some ==> {
            let shown = model.stashed(ino, change).stats_over(ino, stats);
            shown.mtime == (change.mtime->0).0 && shown.mtime_nsec == (change.mtime->0).1 as u32
        },
        change.atime is Some ==> {
            let shown = model.stashed(ino, change).stats_over(ino, stats);
            shown.atime == (change.atime->0).0 && shown.atime_nsec == (change.atime->0).1 as u32
        },
        model.stats_over(ino, stats).size >= stats.size,
        written_byte(model.ranges_of(ino), pos) is Some ==> model.stats_over(ino, stats).size
            > pos,
        model.ranges_of(ino).len() == 0 && model.times_of(ino) is None ==> model.stats_over(
            ino,
            stats,
        ) == stats,
{
    if written_byte(model.ranges_of(ino), pos) is Some {
        written_below_max_end(model.ranges_of(ino), pos);
    }
}

/// Applied times leave the stash; a newer value that arrived during the commit stays.
pub proof fn newer_stash_survives_the_commit(
    model: BatcherModel,
    ino: i64,
    applied: PendingTimeChange,
    newer: PendingTimeChange,
)
    requires
        model.times_of(ino) == Some(applied),
        newer.mtime is Some,
        newer.mtime != applied.mtime,
    ensures
        ({
            let after = model.stashed(ino, newer).times_cleared(ino, applied);
            after.times_of(ino) is Some && (after.times_of(ino)->0).mtime == newer.mtime
        }),
        model.times_cleared(ino, applied).times_of(ino) is None,
{
}

} // verus!
