//! What becomes of waiting writes and times.
use crate::batcher::AgentFSWriteBatcher;
use crate::batcher_laws::{
    changes_advance_the_generation, truncation_cuts_reads_and_keeps_times,
    truncation_drops_exactly_the_tail,
};
use crate::batcher_state::PendingGeneration;
use crate::drain::CommitDirective;
use crate::pending::PendingTimeChange;
use crate::ranges::{WriteRange, apply_runs, range_models, written_byte};
use crate::write_laws::{is_last_at, is_untouched, the_last_write_decides_a_byte, waiting};
use vstd::prelude::*;

verus! {

/// Times that wait for an inode.
pub open spec fn waiting_times(batcher: AgentFSWriteBatcher, ino: i64) -> Option<
    PendingTimeChange,
> {
    if batcher@.pending.contains_key(ino) {
        batcher@.pending[ino].pending_times
    } else {
        None
    }
}

/// A truncated file keeps what waits below its new size, byte for byte, and loses what waits
/// above it. Its times wait on, and no other file loses anything.
pub proof fn a_truncation_cuts_what_waits(
    batcher: &mut AgentFSWriteBatcher,
    ino: i64,
    size: u64,
    pos: int,
    other: i64,
)
    requires
        old(batcher).wf(),
        old(batcher)@.room(1),
        call_ensures(AgentFSWriteBatcher::truncate_pending, (batcher, ino, size), ()),
        other != ino,
    ensures
        pos < size ==> written_byte(waiting(*final(batcher), ino), pos) == written_byte(
            waiting(*old(batcher), ino),
            pos,
        ),
        pos >= size ==> written_byte(waiting(*final(batcher), ino), pos) is None,
        waiting_times(*final(batcher), ino) == waiting_times(*old(batcher), ino),
        waiting(*final(batcher), other) == waiting(*old(batcher), other),
        waiting_times(*final(batcher), other) == waiting_times(*old(batcher), other),
        final(batcher)@.total <= old(batcher)@.total,
{
    truncation_cuts_reads_and_keeps_times(old(batcher)@, ino, size as int, pos);
    truncation_drops_exactly_the_tail(old(batcher)@, ino, size as int, other);
}

/// What was discarded waits no longer: neither writes nor times, and only of that file.
pub proof fn what_is_discarded_waits_no_longer(
    batcher: &mut AgentFSWriteBatcher,
    ino: i64,
    other: i64,
)
    requires
        old(batcher).wf(),
        old(batcher)@.room(1),
        call_ensures(AgentFSWriteBatcher::discard_pending, (batcher, ino), ()),
        other != ino,
    ensures
        waiting(*final(batcher), ino).len() == 0,
        waiting_times(*final(batcher), ino) is None,
        !final(batcher)@.pending.contains_key(ino),
        waiting(*final(batcher), other) == waiting(*old(batcher), other),
        waiting_times(*final(batcher), other) == waiting_times(*old(batcher), other),
        old(batcher)@.pending.contains_key(ino) ==> final(batcher)@.total == old(batcher)@.total
            - old(batcher)@.pending[ino].pending_bytes,
{
    if old(batcher)@.pending.contains_key(ino) {
        crate::batcher_laws::discarded_inode_has_nothing_pending(old(batcher)@, ino, other);
        lemma_total_holds(old(batcher)@, ino);
    }
}

proof fn lemma_total_holds(model: crate::batcher_state::BatcherModel, ino: i64)
    requires
        model.wf(),
        model.pending.contains_key(ino),
    ensures
        model.pending[ino].pending_bytes <= model.total,
{
    crate::batcher_state::lemma_sum_remove(model.pending, ino);
}

/// Times that are stashed wait over those that waited before, each by itself. What else
/// waits stays as it is, and a drain is asked for where none was.
pub proof fn stashed_times_wait(
    batcher: &mut AgentFSWriteBatcher,
    ino: i64,
    change: PendingTimeChange,
    schedule: bool,
    other: i64,
)
    requires
        old(batcher).wf(),
        old(batcher)@.room(1),
        call_ensures(AgentFSWriteBatcher::stash_pending_times, (batcher, ino, change), schedule),
        other != ino,
    ensures
        ({
            let before = waiting_times(*old(batcher), ino);
            let after = waiting_times(*final(batcher), ino);
            let nothing = change.atime is None && change.mtime is None && change.ctime is None;
            &&& nothing ==> final(batcher)@ == old(batcher)@ && !schedule
            &&& !nothing ==> {
                &&& after is Some
                &&& change.atime is Some ==> after->0.atime == change.atime
                &&& change.mtime is Some ==> after->0.mtime == change.mtime
                &&& change.ctime is Some ==> after->0.ctime == change.ctime
                &&& change.atime is None ==> after->0.atime == if before is Some {
                    before->0.atime
                } else {
                    None
                }
                &&& change.mtime is None ==> after->0.mtime == if before is Some {
                    before->0.mtime
                } else {
                    None
                }
                &&& change.ctime is None ==> after->0.ctime == if before is Some {
                    before->0.ctime
                } else {
                    None
                }
                &&& schedule == !old(batcher)@.drain_scheduled
                &&& final(batcher)@.drain_scheduled
            }
        }),
        waiting(*final(batcher), ino) == waiting(*old(batcher), ino),
        waiting(*final(batcher), other) == waiting(*old(batcher), other),
        waiting_times(*final(batcher), other) == waiting_times(*old(batcher), other),
        final(batcher)@.total == old(batcher)@.total,
{
}

/// A file whose attributes were changed keeps its times when its writes are committed. What
/// waits for it is not changed.
pub proof fn an_explicit_change_is_remembered(
    batcher: &mut AgentFSWriteBatcher,
    ino: i64,
    directive: CommitDirective,
)
    requires
        old(batcher).wf(),
        old(batcher)@.room(1),
        call_ensures(AgentFSWriteBatcher::mark_times_explicit, (batcher, ino), ()),
        call_ensures(AgentFSWriteBatcher::commit_directive, (final(batcher), ino), directive),
    ensures
        old(batcher)@.pending.contains_key(ino) ==> directive.preserve_times,
        !old(batcher)@.pending.contains_key(ino) ==> !directive.preserve_times
            && final(batcher)@ == old(batcher)@,
        directive.times == waiting_times(*old(batcher), ino),
        waiting(*final(batcher), ino) == waiting(*old(batcher), ino),
        final(batcher)@.total == old(batcher)@.total,
{
}

/// Every change of what waits for a file gives it a later generation, so that attributes
/// that were read before it can be told from those that were read after it.
pub proof fn a_change_gives_a_later_generation(
    truncated: &mut AgentFSWriteBatcher,
    discarded: &mut AgentFSWriteBatcher,
    stashed: &mut AgentFSWriteBatcher,
    ino: i64,
    size: u64,
    change: PendingTimeChange,
    schedule: bool,
    generations: (PendingGeneration, PendingGeneration, PendingGeneration, PendingGeneration),
)
    requires
        old(truncated).wf(),
        old(truncated)@.room(1),
        *old(discarded) == *old(truncated),
        *old(stashed) == *old(truncated),
        call_ensures(AgentFSWriteBatcher::truncate_pending, (truncated, ino, size), ()),
        call_ensures(AgentFSWriteBatcher::discard_pending, (discarded, ino), ()),
        call_ensures(AgentFSWriteBatcher::stash_pending_times, (stashed, ino, change), schedule),
        call_ensures(
            AgentFSWriteBatcher::pending_generation,
            (old(truncated), ino),
            generations.0,
        ),
        call_ensures(
            AgentFSWriteBatcher::pending_generation,
            (final(truncated), ino),
            generations.1,
        ),
        call_ensures(
            AgentFSWriteBatcher::pending_generation,
            (final(discarded), ino),
            generations.2,
        ),
        call_ensures(
            AgentFSWriteBatcher::pending_generation,
            (final(stashed), ino),
            generations.3,
        ),
    ensures
        old(truncated)@.pending.contains_key(ino) ==> generations.1.value > generations.0.value,
        old(truncated)@.pending.contains_key(ino) ==> generations.2.value > generations.0.value,
        change.mtime is Some ==> generations.3.value > generations.0.value,
{
    changes_advance_the_generation(
        old(truncated)@,
        ino,
        Seq::empty(),
        size as int,
        change,
        change,
        0,
    );
}

/// What waits in a window is the last write to each byte of it, and nothing is found where
/// nothing waits.
pub proof fn what_waits_in_a_window_is_found(
    batcher: AgentFSWriteBatcher,
    ino: i64,
    offset: u64,
    size: u64,
    runs: Vec<WriteRange>,
    at: int,
    run: int,
    pos: int,
)
    requires
        batcher.wf(),
        crate::write_laws::waiting_fits(batcher, ino),
        offset + size <= u64::MAX,
        call_ensures(AgentFSWriteBatcher::pending_ranges, (&batcher, ino, offset, size), runs),
    ensures
        offset <= pos < offset + size && is_last_at(waiting(batcher, ino), at, pos) && is_last_at(
            range_models(runs@),
            run,
            pos,
        ) ==> runs@[run].data@[pos - runs@[run].offset] == waiting(batcher, ino)[at].bytes[pos
            - waiting(batcher, ino)[at].offset],
        offset <= pos < offset + size && is_last_at(waiting(batcher, ino), at, pos)
            ==> !is_untouched(range_models(runs@), pos),
        is_untouched(waiting(batcher, ino), pos) && 0 <= run < runs@.len() ==> !(runs@[run].offset
            <= pos < runs@[run].offset + runs@[run].data@.len()) || !is_last_at(
            range_models(runs@),
            run,
            pos,
        ),
        0 <= run < runs@.len() ==> offset <= runs@[run].offset && runs@[run].offset
            + runs@[run].data@.len() <= offset + size,
{
    let all = waiting(batcher, ino);
    let found = range_models(runs@);
    the_last_write_decides_a_byte(all, at, pos);
    the_last_write_decides_a_byte(found, run, pos);
    assert(all == batcher@.ranges_of(ino));
    assert(written_byte(found, pos) == written_byte(found, pos));
    if 0 <= run < runs@.len() {
        assert(found[run] == runs@[run]@);
    }
}

/// Whether anything waits, and for how long a file is with it, is told as it is.
pub proof fn what_waits_is_told(
    batcher: AgentFSWriteBatcher,
    ino: i64,
    pending: bool,
    idle: bool,
    end: Option<u64>,
    times: Option<PendingTimeChange>,
    i: int,
)
    requires
        batcher.wf(),
        call_ensures(AgentFSWriteBatcher::has_pending, (&batcher, ino), pending),
        call_ensures(AgentFSWriteBatcher::is_idle, (&batcher,), idle),
        call_ensures(AgentFSWriteBatcher::pending_max_end, (&batcher, ino), end),
        call_ensures(AgentFSWriteBatcher::pending_times, (&batcher, ino), times),
    ensures
        pending <==> waiting(batcher, ino).len() > 0,
        idle ==> !pending && times is None && end is None,
        pending || times is Some ==> !idle,
        times == waiting_times(batcher, ino),
        end is Some <==> pending,
        0 <= i < waiting(batcher, ino).len() && waiting(batcher, ino)[i].offset + waiting(
            batcher,
            ino,
        )[i].bytes.len() <= u64::MAX ==> waiting(batcher, ino)[i].offset + waiting(
            batcher,
            ino,
        )[i].bytes.len() <= end->0,
{
    let all = waiting(batcher, ino);
    assert(all == batcher@.ranges_of(ino));
    if all.len() > 0 {
        assert(crate::ranges::max_end(all) is Some);
    }
    if 0 <= i < all.len() {
        crate::ranges::lemma_max_end(all, i);
    }
}

/// Laying runs over a buffer puts the last of them at each byte, and leaves the other bytes.
pub proof fn runs_are_laid_over_a_buffer(
    buf: &mut Vec<u8>,
    start: u64,
    runs: Vec<WriteRange>,
    applied: bool,
    i: int,
    at: int,
)
    requires
        start + old(buf)@.len() <= u64::MAX,
        forall|k: int|
            0 <= k < runs@.len() ==> (#[trigger] runs@[k])@.offset >= start && runs@[k]@.end()
                <= start + old(buf)@.len(),
        call_ensures(apply_runs, (buf, start, &runs), applied),
        0 <= i < old(buf)@.len(),
    ensures
        final(buf)@.len() == old(buf)@.len(),
        is_last_at(range_models(runs@), at, start + i) ==> final(buf)@[i]
            == runs@[at].data@[start + i - runs@[at].offset],
        is_untouched(range_models(runs@), start + i) ==> final(buf)@[i] == old(buf)@[i],
        applied <==> runs@.len() > 0,
{
    let all = range_models(runs@);
    the_last_write_decides_a_byte(all, at, start + i);
    if is_last_at(all, at, start + i) {
        assert(all[at] == runs@[at]@);
    }
}

} // verus!
