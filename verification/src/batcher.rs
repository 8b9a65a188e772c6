//! In-memory group-commit queue for writes.
//!
//! The batcher holds written ranges and explicit timestamps until a drain commits
//! them to the database. Readers lay the pending ranges over what is committed, so
//! a write is visible as soon as it is queued. A drain commits first and removes
//! afterwards: at every moment a write is in the queue or in the database.
use crate::batcher_state::{
    AgentFSWriteBatcherState, BatcherModel, PendingGeneration, lemma_sum_insert, lemma_sum_remove,
    lemma_with_retired,
};
use crate::config::BatcherConfig;
use crate::error::{Error, is_internal};
use crate::pending::{PendingInodeWrites, PendingModel, PendingTimeChange, with_ranges_keeps_wf};
use crate::ranges::{
    RangeModel, WriteRange, apply_runs, clip_all_inside, clip_all_keeps_window, clip_runs, ends_fit,
    gapped, largest_end, max_end, merged_bytes, normalize_write_ranges, range_models, total_len,
    total_len_of_concat, written_byte,
};
use crate::stats::Stats;
use vstd::prelude::*;

verus! {

broadcast use vstd::std_specs::hash::group_hash_axioms;

/// What the caller of an enqueue has to drain now.
#[derive(Debug, Clone, Copy, PartialEq, Eq, Default, Structural)]
pub struct EnqueueOutcome {
    pub drain_inode: bool,
    pub drain_all: bool,
}

/// What an enqueue asks of its caller.
#[derive(Debug, Clone, Copy, PartialEq, Eq, Structural)]
pub struct QueueAction {
    pub outcome: EnqueueOutcome,
    /// Something was queued: cached attributes of the inode are stale.
    pub queued: bool,
    /// The drain scheduler has to be started.
    pub schedule_drain: bool,
    /// Bytes pending for the inode afterwards.
    pub inode_bytes: usize,
}

/// Whether pending ranges were laid over a read.
#[derive(Debug, Clone, Copy, PartialEq, Eq, Structural)]
pub struct OverlayHit {
    pub applied: bool,
}

/// Group-commit queue with its limits.
pub struct AgentFSWriteBatcher {
    pub batch_bytes: usize,
    pub batch_global_bytes: usize,
    pub txn_max_inodes: usize,
    pub txn_max_bytes: usize,
    pub state: AgentFSWriteBatcherState,
}

impl View for AgentFSWriteBatcher {
    type V = BatcherModel;

    open spec fn view(&self) -> BatcherModel {
        self.state@
    }
}

/// The ranges that hold at least one byte, in order.
pub open spec fn drop_empty(ranges: Seq<RangeModel>) -> Seq<RangeModel>
    decreases ranges.len(),
{
    if ranges.len() == 0 {
        Seq::empty()
    } else if ranges.last().bytes.len() > 0 {
        drop_empty(ranges.drop_last()).push(ranges.last())
    } else {
        drop_empty(ranges.drop_last())
    }
}

/// Dropping empty ranges changes neither the byte count nor what a reader sees.
pub proof fn drop_empty_is_invisible(ranges: Seq<RangeModel>)
    ensures
        total_len(drop_empty(ranges)) == total_len(ranges),
        forall|pos: int| #[trigger]
            written_byte(drop_empty(ranges), pos) == written_byte(ranges, pos),
        forall|i: int|
            0 <= i < drop_empty(ranges).len() ==> (#[trigger] drop_empty(ranges)[i]).bytes.len()
                > 0,
    decreases ranges.len(),
{
    if ranges.len() > 0 {
        drop_empty_is_invisible(ranges.drop_last());
        let kept = drop_empty(ranges);
        let head = drop_empty(ranges.drop_last());
        if ranges.last().bytes.len() > 0 {
            assert(kept.drop_last() =~= head);
            assert(kept.last() == ranges.last());
            assert forall|pos: int| #[trigger] written_byte(kept, pos) == written_byte(
                ranges,
                pos,
            ) by {
                assert(written_byte(head, pos) == written_byte(ranges.drop_last(), pos));
            }
        } else {
            assert forall|pos: int| #[trigger] written_byte(kept, pos) == written_byte(
                ranges,
                pos,
            ) by {
                assert(written_byte(head, pos) == written_byte(ranges.drop_last(), pos));
            }
        }
    }
}

proof fn lemma_drop_empty_nonneg(ranges: Seq<RangeModel>)
    requires
        forall|i: int| 0 <= i < ranges.len() ==> (#[trigger] ranges[i]).offset >= 0,
    ensures
        forall|i: int|
            0 <= i < drop_empty(ranges).len() ==> (#[trigger] drop_empty(ranges)[i]).offset >= 0,
    decreases ranges.len(),
{
    if ranges.len() > 0 {
        let head = ranges.drop_last();
        assert forall|i: int| 0 <= i < head.len() implies (#[trigger] head[i]).offset >= 0 by {
            assert(head[i] == ranges[i]);
        }
        lemma_drop_empty_nonneg(head);
        assert(ranges[ranges.len() - 1].offset >= 0);
        let kept = drop_empty(ranges);
        assert forall|i: int| 0 <= i < kept.len() implies (#[trigger] kept[i]).offset >= 0 by {
            if i < drop_empty(head).len() {
                assert(kept[i] == drop_empty(head)[i]);
            }
        }
    }
}

impl BatcherModel {
    /// The state after non-empty `ranges` were queued for `ino`.
    pub open spec fn queued(self, ino: i64, ranges: Seq<RangeModel>) -> BatcherModel {
        let generation = (self.last_generation + 1) as u64;
        BatcherModel {
            pending: self.pending.insert(
                ino,
                self.entry_or_fresh(ino).with_ranges(ranges).with_generation(generation),
            ),
            last_generation: generation,
            total: self.total + total_len(ranges),
            drain_scheduled: true,
            ..self
        }
    }

    /// No entry is kept that has nothing to commit.
    pub open spec fn only_live(self) -> bool {
        forall|ino: i64| #[trigger]
            self.pending.contains_key(ino) ==> !self.pending[ino].drained()
    }
}

fn keep_nonempty(ranges: Vec<WriteRange>) -> (kept: Vec<WriteRange>)
    ensures
        range_models(kept@) == drop_empty(range_models(ranges@)),
{
    let ghost all = range_models(ranges@);
    let mut kept: Vec<WriteRange> = Vec::new();
    assert(range_models(kept@) =~= drop_empty(all.take(0)));
    for range in it: ranges
        invariant
            all == range_models(ranges@),
            it.seq() == ranges@,
            range_models(kept@) == drop_empty(all.take(it.index() as int)),
    {
        proof {
            let i = it.index() as int;
            assert(all.take(i + 1).drop_last() =~= all.take(i));
            assert(all.take(i + 1).last() == range@);
            assert(range_models(kept@.push(range)) =~= range_models(kept@).push(range@));
        }
        if range.data.len() > 0 {
            kept.push(range);
        }
    }
    assert(all.take(all.len() as int) =~= all);
    kept
}

/// Bytes in all ranges, or none when they do not fit.
pub fn count_bytes(ranges: &Vec<WriteRange>) -> (count: Option<usize>)
    ensures
        match count {
            Some(n) => n == total_len(range_models(ranges@)),
            None => total_len(range_models(ranges@)) > usize::MAX,
        },
{
    let ghost all = range_models(ranges@);
    let mut count: usize = 0;
    let mut i: usize = 0;
    while i < ranges.len()
        invariant
            i <= ranges@.len(),
            all == range_models(ranges@),
            count == total_len(all.take(i as int)),
        decreases ranges@.len() - i,
    {
        proof {
            assert(all.take(i + 1).drop_last() =~= all.take(i as int));
            assert(all.take(i + 1).last() == ranges@[i as int]@);
            total_len_of_concat(all.take(i + 1), all.skip(i + 1));
            assert(all.take(i + 1) + all.skip(i + 1) =~= all);
        }
        match count.checked_add(ranges[i].data.len()) {
            Some(sum) => {
                count = sum;
            },
            None => {
                return None;
            },
        }
        i += 1;
    }
    assert(all.take(i as int) =~= all);
    Some(count)
}

impl AgentFSWriteBatcher {
    /// The invariant of the queue.
    pub open spec fn wf(self) -> bool {
        &&& self@.wf()
        &&& self@.never_stranded()
        &&& self@.only_live()
        &&& self.txn_max_inodes >= 1
        &&& self.txn_max_bytes >= 1
    }

    /// The limits are those of `other`.
    pub open spec fn same_limits(self, other: AgentFSWriteBatcher) -> bool {
        &&& self.batch_bytes == other.batch_bytes
        &&& self.batch_global_bytes == other.batch_global_bytes
        &&& self.txn_max_inodes == other.txn_max_inodes
        &&& self.txn_max_bytes == other.txn_max_bytes
    }

    /// An empty queue. Transactions are bounded to at least one inode and one byte.
    pub fn from_config(config: &BatcherConfig) -> (batcher: Self)
        ensures
            batcher.wf(),
            batcher@ == BatcherModel::initial(),
            batcher.batch_bytes == config.inode_bytes,
            batcher.batch_global_bytes == config.global_bytes,
            batcher.txn_max_inodes == (if config.txn_max_inodes < 1 {
                1
            } else {
                config.txn_max_inodes
            }),
            batcher.txn_max_bytes == (if config.txn_max_bytes < 1 {
                1
            } else {
                config.txn_max_bytes
            }),
    {
        AgentFSWriteBatcher {
            batch_bytes: config.inode_bytes,
            batch_global_bytes: config.global_bytes,
            txn_max_inodes: if config.txn_max_inodes < 1 {
                1
            } else {
                config.txn_max_inodes
            },
            txn_max_bytes: if config.txn_max_bytes < 1 {
                1
            } else {
                config.txn_max_bytes
            },
            state: AgentFSWriteBatcherState::new(),
        }
    }

    /// Queues writes for an inode. Empty ranges are ignored; with none left nothing
    /// happens. The global byte limit asks for a full drain and takes precedence
    /// over the per-inode limit.
    pub fn queue(&mut self, ino: i64, ranges: Vec<WriteRange>) -> (result: Result<
        QueueAction,
        Error,
    >)
        requires
            old(self).wf(),
            old(self)@.room(1),
            total_len(range_models(ranges@)) > usize::MAX || old(self)@.total + total_len(
                range_models(ranges@),
            ) <= usize::MAX,
        ensures
            final(self).wf(),
            final(self).same_limits(*old(self)),
            match result {
                Ok(action) => {
                    let added = drop_empty(range_models(ranges@));
                    &&& total_len(added) <= usize::MAX
                    &&& action.queued == (added.len() > 0)
                    &&& if added.len() == 0 {
                        &&& final(self)@ == old(self)@
                        &&& action.outcome == (EnqueueOutcome {
                            drain_inode: false,
                            drain_all: false,
                        })
                        &&& !action.schedule_drain
                        &&& action.inode_bytes == 0
                    } else {
                        &&& final(self)@ == old(self)@.queued(ino, added)
                        &&& action.inode_bytes == final(self)@.pending[ino].pending_bytes
                        &&& action.schedule_drain == !old(self)@.drain_scheduled
                        &&& action.outcome.drain_all == (final(self)@.total
                            >= old(self).batch_global_bytes)
                        &&& action.outcome.drain_inode == (!action.outcome.drain_all
                            && action.inode_bytes >= old(self).batch_bytes)
                    }
                },
                Err(error) => {
                    &&& total_len(range_models(ranges@)) > usize::MAX
                    &&& final(self)@ == old(self)@
                    &&& is_internal(error, "batched write byte count overflow"@)
                },
            },
    {
        let ghost before = self@;
        let ghost given = range_models(ranges@);
        let ranges: Vec<WriteRange> = keep_nonempty(ranges);
        let ghost added = range_models(ranges@);
        proof {
            drop_empty_is_invisible(given);
            lemma_drop_empty_nonneg(given);
        }
        if ranges.len() == 0 {
            return Ok(
                QueueAction {
                    outcome: EnqueueOutcome { drain_inode: false, drain_all: false },
                    queued: false,
                    schedule_drain: false,
                    inode_bytes: 0,
                },
            );
        }
        let byte_count: usize = match count_bytes(&ranges) {
            Some(count) => count,
            None => {
                return Err(Error::Internal("batched write byte count overflow".to_owned()));
            },
        };
        let generation: u64 = self.state.next_generation();
        let mut entry: PendingInodeWrites = match self.state.pending.remove(&ino) {
            Some(entry) => entry,
            None => PendingInodeWrites::new(generation),
        };
        let ghost base = entry@;
        proof {
            assert(base == before.entry_or_fresh(ino));
            if before.pending.contains_key(ino) {
                lemma_sum_remove(before.pending, ino);
            }
            with_ranges_keeps_wf(base, added);
            assert(self.state.pending@ =~= old(self).state.pending@.remove(ino));
        }
        let pushed = entry.push_ranges(ranges, byte_count);
        assert(pushed is Ok);
        entry.bump_generation(generation);
        let inode_bytes: usize = entry.pending_bytes;
        let ghost model = entry@;
        self.state.pending.insert(ino, entry);
        self.state.total_pending_bytes = self.state.total_pending_bytes + byte_count;
        let drain_all: bool = self.state.total_pending_bytes >= self.batch_global_bytes;
        let schedule_drain: bool = !self.state.drain_scheduled;
        self.state.drain_scheduled = true;
        proof {
            assert(self@.pending =~= before.pending.insert(ino, model));
            lemma_sum_insert(before.pending, ino, model);
            assert(before.pending.remove(ino) =~= if before.pending.contains_key(ino) {
                before.pending.remove(ino)
            } else {
                before.pending
            });
            assert(self@ =~= before.queued(ino, added));
        }
        Ok(
            QueueAction {
                outcome: EnqueueOutcome {
                    drain_inode: inode_bytes >= self.batch_bytes && !drain_all,
                    drain_all,
                },
                queued: true,
                schedule_drain,
                inode_bytes,
            },
        )
    }
}

/// The ranges cut off at `size`: what lies behind is dropped.
pub open spec fn truncated(ranges: Seq<RangeModel>, size: int) -> Seq<RangeModel>
    decreases ranges.len(),
{
    if ranges.len() == 0 {
        Seq::empty()
    } else {
        let head = truncated(ranges.drop_last(), size);
        let last = ranges.last();
        if last.offset >= size {
            head
        } else if last.end() > size {
            head.push(RangeModel { offset: last.offset, bytes: last.bytes.take(size - last.offset) })
        } else {
            head.push(last)
        }
    }
}

/// After a truncation a reader sees the writes below the new size and none at or
/// behind it.
pub proof fn truncated_hides_the_tail(ranges: Seq<RangeModel>, size: int, pos: int)
    ensures
        written_byte(truncated(ranges, size), pos) == (if pos < size {
            written_byte(ranges, pos)
        } else {
            None
        }),
    decreases ranges.len(),
{
    if ranges.len() > 0 {
        truncated_hides_the_tail(ranges.drop_last(), size, pos);
        let head = truncated(ranges.drop_last(), size);
        let all = truncated(ranges, size);
        let last = ranges.last();
        if last.offset < size {
            assert(all.drop_last() =~= head);
        }
    }
}

proof fn lemma_truncated_wf(ranges: Seq<RangeModel>, size: int)
    requires
        forall|i: int|
            0 <= i < ranges.len() ==> (#[trigger] ranges[i]).bytes.len() > 0 && ranges[i].offset
                >= 0,
    ensures
        total_len(truncated(ranges, size)) <= total_len(ranges),
        forall|i: int|
            0 <= i < truncated(ranges, size).len() ==> (#[trigger] truncated(
                ranges,
                size,
            )[i]).bytes.len() > 0 && truncated(ranges, size)[i].offset >= 0,
    decreases ranges.len(),
{
    if ranges.len() > 0 {
        let head = ranges.drop_last();
        assert forall|i: int| 0 <= i < head.len() implies (#[trigger] head[i]).bytes.len() > 0
            && head[i].offset >= 0 by {
            assert(head[i] == ranges[i]);
        }
        lemma_truncated_wf(head, size);
        let last = ranges[ranges.len() - 1];
        assert(last.bytes.len() > 0);
        let all = truncated(ranges, size);
        if last.offset < size {
            assert(all.drop_last() =~= truncated(head, size));
        }
    }
}

fn truncate_ranges(ranges: Vec<WriteRange>, size: u64) -> (kept: Vec<WriteRange>)
    ensures
        range_models(kept@) == truncated(range_models(ranges@), size as int),
{
    let ghost all = range_models(ranges@);
    let mut kept: Vec<WriteRange> = Vec::new();
    assert(range_models(kept@) =~= truncated(all.take(0), size as int));
    for range in it: ranges
        invariant
            all == range_models(ranges@),
            it.seq() == ranges@,
            range_models(kept@) == truncated(all.take(it.index() as int), size as int),
    {
        let ghost original = range@;
        proof {
            let i = it.index() as int;
            assert(all.take(i + 1).drop_last() =~= all.take(i));
            assert(all.take(i + 1).last() == original);
        }
        let mut range = range;
        if range.offset < size {
            let keep: u64 = size - range.offset;
            if (range.data.len() as u64) > keep {
                range.data.truncate(keep as usize);
                assert(range@.bytes =~= original.bytes.take(size - original.offset));
            }
            assert(range_models(kept@.push(range)) =~= range_models(kept@).push(range@));
            kept.push(range);
        }
    }
    assert(all.take(all.len() as int) =~= all);
    kept
}

impl PendingModel {
    /// The entry after everything at or behind `size` was cut off.
    pub open spec fn cut_at(self, size: int, generation: u64) -> PendingModel {
        PendingModel {
            ranges: truncated(self.ranges, size),
            pending_bytes: total_len(truncated(self.ranges, size)),
            generation,
            ..self
        }
    }
}

impl BatcherModel {
    /// The state without an entry for `ino`, whose `generation` is remembered.
    pub open spec fn dropped(self, ino: i64, generation: u64) -> BatcherModel {
        let retired = self.with_retired(ino, generation);
        BatcherModel {
            pending: self.pending.remove(ino),
            total: (self.total - self.pending[ino].pending_bytes) as nat,
            ..retired
        }
    }

    /// The state with `entry` in place of the entry of `ino`.
    pub open spec fn replaced(self, ino: i64, entry: PendingModel) -> BatcherModel {
        BatcherModel {
            pending: self.pending.insert(ino, entry),
            total: (self.total - self.pending[ino].pending_bytes + entry.pending_bytes) as nat,
            ..self
        }
    }

    /// `entry` in place of the entry of `ino`, or no entry when it has nothing left
    /// to commit.
    pub open spec fn settled(self, ino: i64, entry: PendingModel) -> BatcherModel {
        if entry.drained() {
            self.dropped(ino, entry.generation)
        } else {
            self.replaced(ino, entry)
        }
    }

    /// The state after pending writes of `ino` were truncated to `size`.
    pub open spec fn truncated_to(self, ino: i64, size: int) -> BatcherModel {
        if self.pending.contains_key(ino) {
            let next = self.advanced();
            next.settled(ino, self.pending[ino].cut_at(size, next.last_generation))
        } else {
            self
        }
    }

    /// The state after everything pending for `ino` was discarded.
    pub open spec fn discarded(self, ino: i64) -> BatcherModel {
        if self.pending.contains_key(ino) {
            let next = self.advanced();
            next.dropped(ino, next.last_generation)
        } else {
            self
        }
    }

    /// The state after explicit times were stashed for `ino`.
    pub open spec fn stashed(self, ino: i64, change: PendingTimeChange) -> BatcherModel {
        if change == PendingTimeChange::no_change() {
            self
        } else {
            let entry = self.entry_or_fresh(ino);
            let times = match entry.pending_times {
                Some(times) => times,
                None => PendingTimeChange::no_change(),
            };
            let generation = (self.last_generation + 1) as u64;
            BatcherModel {
                pending: self.pending.insert(
                    ino,
                    PendingModel {
                        pending_times: Some(times.merged_with(change)),
                        generation,
                        ..entry
                    },
                ),
                last_generation: generation,
                drain_scheduled: true,
                ..self
            }
        }
    }

    /// The state after an explicit attribute change of `ino` was noted.
    pub open spec fn marked_explicit(self, ino: i64) -> BatcherModel {
        if self.pending.contains_key(ino) {
            let next = self.advanced();
            BatcherModel {
                pending: self.pending.insert(
                    ino,
                    PendingModel {
                        times_explicit: true,
                        generation: next.last_generation,
                        ..self.pending[ino]
                    },
                ),
                ..next
            }
        } else {
            self
        }
    }
}

/// Replacing or dropping one entry keeps the invariant.
pub proof fn lemma_settled_wf(model: BatcherModel, ino: i64, entry: PendingModel)
    requires
        model.wf(),
        model.pending.contains_key(ino),
        entry.wf(),
        entry.generation <= model.last_generation,
        model.epoch < u64::MAX,
    ensures
        model.settled(ino, entry).wf(),
        model.never_stranded() ==> model.settled(ino, entry).never_stranded(),
        model.only_live() ==> model.settled(ino, entry).only_live(),
        model.settled(ino, entry).last_generation == model.last_generation,
        model.settled(ino, entry).epoch <= model.epoch + 1,
{
    lemma_sum_remove(model.pending, ino);
    lemma_sum_insert(model.pending, ino, entry);
    lemma_with_retired(model, ino, entry.generation);
    let next = model.settled(ino, entry);
    assert forall|other: i64| #[trigger] next.pending.contains_key(other) implies
        next.pending[other].wf() && next.pending[other].generation <= next.last_generation by {
        if other != ino {
            assert(model.pending.contains_key(other));
        }
    }
    if model.only_live() {
        assert forall|other: i64| #[trigger] next.pending.contains_key(other) implies
            !next.pending[other].drained() by {
            if other != ino {
                assert(model.pending.contains_key(other));
            }
        }
    }
    if next.pending.dom().len() > 0 {
        assert(model.pending.dom().contains(ino));
        assert(model.pending.dom().len() > 0);
    }
}

impl AgentFSWriteBatcherState {
    /// Puts an entry back in place, or drops it and remembers its generation when
    /// nothing is left to commit.
    pub(crate) fn settle(&mut self, ino: i64, entry: PendingInodeWrites, old_bytes: usize) -> (dropped:
        bool)
        requires
            exists|model: BatcherModel|
                {
                    &&& #[trigger] model.wf()
                    &&& model.pending.contains_key(ino)
                    &&& model.pending[ino].pending_bytes == old_bytes
                    &&& old(self)@ == (BatcherModel { pending: model.pending.remove(ino), ..model })
                },
            entry@.wf(),
            entry@.pending_bytes <= old_bytes,
            entry.generation <= old(self)@.last_generation,
            old(self)@.epoch < u64::MAX,
        ensures
            dropped == entry@.drained(),
            forall|model: BatcherModel|
                {
                    &&& #[trigger] model.wf()
                    &&& model.pending.contains_key(ino)
                    &&& model.pending[ino].pending_bytes == old_bytes
                    &&& old(self)@ == (BatcherModel { pending: model.pending.remove(ino), ..model })
                } ==> final(self)@ == model.settled(ino, entry@) && final(self)@.wf(),
    {
        let ghost before = self@;
        proof {
            let model = choose|model: BatcherModel|
                {
                    &&& #[trigger] model.wf()
                    &&& model.pending.contains_key(ino)
                    &&& model.pending[ino].pending_bytes == old_bytes
                    &&& before == (BatcherModel { pending: model.pending.remove(ino), ..model })
                };
            lemma_sum_remove(model.pending, ino);
            assert(model.generations_wf());
        }
        let new_bytes: usize = entry.pending_bytes;
        let drained: bool = entry.is_drained();
        let generation: u64 = entry.generation;
        let ghost kept = entry@;
        self.total_pending_bytes = self.total_pending_bytes - old_bytes + new_bytes;
        assert(self@.generations_wf());
        if drained {
            self.retire_generation(ino, generation);
        } else {
            self.pending.insert(ino, entry);
        }
        proof {
            assert forall|model: BatcherModel|
                {
                    &&& #[trigger] model.wf()
                    &&& model.pending.contains_key(ino)
                    &&& model.pending[ino].pending_bytes == old_bytes
                    &&& before == (BatcherModel { pending: model.pending.remove(ino), ..model })
                } implies self@ == model.settled(ino, kept) && self@.wf() by {
                lemma_settled_wf(model, ino, kept);
                if drained {
                    assert(kept.pending_bytes == 0);
                    assert(self@ =~= model.settled(ino, kept));
                } else {
                    assert(self@.pending =~= before.pending.insert(ino, kept));
                    assert(before.pending.insert(ino, kept) =~= model.pending.insert(ino, kept));
                    assert(self@ =~= model.settled(ino, kept));
                }
            }
        }
        drained
    }
}

impl AgentFSWriteBatcher {
    /// Cuts pending writes at `new_size`, so that pending and committed contents
    /// agree after a truncation without a drain. Stashed times stay pending.
    pub fn truncate_pending(&mut self, ino: i64, new_size: u64)
        requires
            old(self).wf(),
            old(self)@.room(1),
        ensures
            final(self).wf(),
            final(self).same_limits(*old(self)),
            final(self)@ == old(self)@.truncated_to(ino, new_size as int),
    {
        let ghost before = self@;
        match self.state.pending.remove(&ino) {
            None => {
                assert(self@.pending =~= before.pending);
            },
            Some(entry) => {
                let ghost original = entry@;
                assert(before.pending.contains_key(ino) && original == before.pending[ino]);
                let generation: u64 = self.state.next_generation();
                let mut entry = entry;
                let old_bytes: usize = entry.pending_bytes;
                let mut ranges: Vec<WriteRange> = Vec::new();
                std::mem::swap(&mut ranges, &mut entry.ranges);
                let kept: Vec<WriteRange> = truncate_ranges(ranges, new_size);
                proof {
                    lemma_truncated_wf(original.ranges, new_size as int);
                }
                let new_bytes: usize = match count_bytes(&kept) {
                    Some(count) => count,
                    None => 0,
                };
                entry.ranges = kept;
                entry.pending_bytes = new_bytes;
                entry.bump_generation(generation);
                proof {
                    let next = before.advanced();
                    assert(next.wf());
                    assert(self@ =~= (BatcherModel { pending: next.pending.remove(ino), ..next }));
                    assert(entry@ =~= original.cut_at(new_size as int, next.last_generation));
                    lemma_settled_wf(next, ino, entry@);
                }
                self.state.settle(ino, entry, old_bytes);
            },
        }
    }

    /// Discards everything pending for an inode whose deletion is committed, so
    /// that no stale data outlives it.
    pub fn discard_pending(&mut self, ino: i64)
        requires
            old(self).wf(),
            old(self)@.room(1),
        ensures
            final(self).wf(),
            final(self).same_limits(*old(self)),
            final(self)@ == old(self)@.discarded(ino),
    {
        let ghost before = self@;
        match self.state.pending.remove(&ino) {
            None => {
                assert(self@.pending =~= before.pending);
            },
            Some(entry) => {
                let ghost next = before.advanced();
                let generation: u64 = self.state.next_generation();
                let bytes: usize = entry.pending_bytes;
                let empty = PendingInodeWrites::new(generation);
                proof {
                    assert(next.wf());
                    assert(self@ =~= (BatcherModel { pending: next.pending.remove(ino), ..next }));
                    lemma_settled_wf(next, ino, empty@);
                }
                self.state.settle(ino, empty, bytes);
            },
        }
    }

    /// Notes an explicit attribute change after the writes that are pending, so that
    /// their commit keeps the times. Nothing happens for an inode without pending
    /// state.
    pub fn mark_times_explicit(&mut self, ino: i64)
        requires
            old(self).wf(),
            old(self)@.room(1),
        ensures
            final(self).wf(),
            final(self).same_limits(*old(self)),
            final(self)@ == old(self)@.marked_explicit(ino),
    {
        let ghost before = self@;
        match self.state.pending.remove(&ino) {
            None => {
                assert(self@.pending =~= before.pending);
            },
            Some(entry) => {
                assert(before.pending.contains_key(ino) && entry@ == before.pending[ino]);
                let generation: u64 = self.state.next_generation();
                let mut entry = entry;
                let bytes: usize = entry.pending_bytes;
                entry.times_explicit = true;
                entry.bump_generation(generation);
                proof {
                    let next = before.advanced();
                    assert(next.wf());
                    assert(self@ =~= (BatcherModel { pending: next.pending.remove(ino), ..next }));
                    lemma_settled_wf(next, ino, entry@);
                    assert(next.settled(ino, entry@) =~= before.marked_explicit(ino));
                }
                self.state.settle(ino, entry, bytes);
            },
        }
    }

    /// Stashes explicit times so that the next drain commits them together with any
    /// pending data. Returns whether the drain scheduler has to be started.
    pub fn stash_pending_times(&mut self, ino: i64, change: PendingTimeChange) -> (schedule_drain:
        bool)
        requires
            old(self).wf(),
            old(self)@.room(1),
        ensures
            final(self).wf(),
            final(self).same_limits(*old(self)),
            final(self)@ == old(self)@.stashed(ino, change),
            schedule_drain == (change != PendingTimeChange::no_change()
                && !old(self)@.drain_scheduled),
    {
        let ghost before = self@;
        if change.is_empty() {
            return false;
        }
        let generation: u64 = self.state.next_generation();
        let mut entry: PendingInodeWrites = match self.state.pending.remove(&ino) {
            Some(entry) => entry,
            None => PendingInodeWrites::new(generation),
        };
        let ghost base = entry@;
        let mut times: PendingTimeChange = match entry.pending_times {
            Some(times) => times,
            None => PendingTimeChange { atime: None, mtime: None, ctime: None },
        };
        times.apply(&change);
        entry.pending_times = Some(times);
        entry.bump_generation(generation);
        let ghost model = entry@;
        self.state.pending.insert(ino, entry);
        let schedule_drain: bool = !self.state.drain_scheduled;
        self.state.drain_scheduled = true;
        proof {
            assert(base == before.entry_or_fresh(ino));
            assert(self@.pending =~= before.pending.insert(ino, model));
            lemma_sum_insert(before.pending, ino, model);
            if before.pending.contains_key(ino) {
                lemma_sum_remove(before.pending, ino);
            } else {
                assert(before.pending.remove(ino) =~= before.pending);
            }
            assert(self@ =~= before.stashed(ino, change));
        }
        schedule_drain
    }
}

impl BatcherModel {
    /// The pending ranges of `ino`.
    pub open spec fn ranges_of(self, ino: i64) -> Seq<RangeModel> {
        if self.pending.contains_key(ino) {
            self.pending[ino].ranges
        } else {
            Seq::empty()
        }
    }

    /// The stashed times of `ino`.
    pub open spec fn times_of(self, ino: i64) -> Option<PendingTimeChange> {
        if self.pending.contains_key(ino) {
            self.pending[ino].pending_times
        } else {
            None
        }
    }

    /// What a read of `len` bytes at `offset` returns when the database holds `base`
    /// there: pending bytes win. Ranges that end beyond the largest position are not
    /// served.
    pub open spec fn read_over(self, ino: i64, offset: int, base: Seq<u8>) -> Seq<u8> {
        if ends_fit(self.ranges_of(ino)) && offset + base.len() <= u64::MAX {
            merged_bytes(base, offset, self.ranges_of(ino))
        } else {
            base
        }
    }

    /// Attributes with pending times and pending size laid over them.
    pub open spec fn stats_over(self, ino: i64, stats: Stats) -> Stats {
        let timed = match self.times_of(ino) {
            Some(times) => times.over(stats),
            None => stats,
        };
        match max_end(self.ranges_of(ino)) {
            Some(end) => {
                let size = if end > i64::MAX {
                    i64::MAX as int
                } else {
                    end
                };
                if size > timed.size {
                    Stats { size: size as i64, ..timed }
                } else {
                    timed
                }
            },
            None => timed,
        }
    }
}

impl AgentFSWriteBatcher {
    /// Pending writes of `ino` inside `[offset, offset + size)` as sorted disjoint
    /// runs cut to that window. Nothing is removed.
    pub fn pending_ranges(&self, ino: i64, offset: u64, size: u64) -> (runs: Vec<WriteRange>)
        requires
            self.wf(),
        ensures
            gapped(range_models(runs@)),
            forall|i: int|
                0 <= i < runs@.len() ==> offset <= (#[trigger] runs@[i])@.offset && runs@[i]@.end()
                    <= offset + size,
            forall|pos: int| #[trigger]
                written_byte(range_models(runs@), pos) == (if offset <= pos < offset + size
                    && offset + size <= u64::MAX && ends_fit(self@.ranges_of(ino)) {
                    written_byte(self@.ranges_of(ino), pos)
                } else {
                    None
                }),
    {
        let none: Vec<WriteRange> = Vec::new();
        assert(range_models(none@) =~= Seq::<RangeModel>::empty());
        if size == 0 {
            return none;
        }
        let read_end: u64 = match offset.checked_add(size) {
            Some(end) => end,
            None => {
                return none;
            },
        };
        let entry: &PendingInodeWrites = match self.state.pending.get(&ino) {
            Some(entry) => entry,
            None => {
                return none;
            },
        };
        assert(self@.pending.contains_key(ino) && self@.pending[ino] == entry@);
        match normalize_write_ranges(&entry.ranges) {
            Err(_) => none,
            Ok(runs) => {
                let out: Vec<WriteRange> = clip_runs(&runs, offset, read_end);
                proof {
                    let all = range_models(runs@);
                    clip_all_inside(all, offset as int, read_end as int);
                    assert forall|pos: int| #[trigger] written_byte(range_models(out@), pos) == (if offset
                        <= pos < offset + size && offset + size <= u64::MAX && ends_fit(
                        self@.ranges_of(ino),
                    ) {
                        written_byte(self@.ranges_of(ino), pos)
                    } else {
                        None
                    }) by {
                        clip_all_keeps_window(all, offset as int, read_end as int, pos);
                        assert(written_byte(all, pos) == written_byte(self@.ranges_of(ino), pos));
                    }
                    assert forall|i: int| 0 <= i < out@.len() implies offset <= (
                    #[trigger] out@[i])@.offset && out@[i]@.end() <= offset + size by {
                        assert(range_models(out@)[i] == out@[i]@);
                    }
                }
                out
            },
        }
    }

    /// Whether any data write is pending for `ino`.
    pub fn has_pending(&self, ino: i64) -> (yes: bool)
        ensures
            yes == (self@.ranges_of(ino).len() > 0),
    {
        match self.state.pending.get(&ino) {
            Some(entry) => entry.ranges.len() > 0,
            None => false,
        }
    }

    /// Whether anything at all is pending.
    pub fn is_idle(&self) -> (idle: bool)
        requires
            self.wf(),
        ensures
            idle == (self@.pending.dom().len() == 0),
            idle == (self@.pending == Map::<i64, PendingModel>::empty()),
    {
        let idle: bool = self.state.pending.is_empty();
        proof {
            if idle {
                assert(self@.pending =~= Map::<i64, PendingModel>::empty());
            } else {
                if self@.pending.dom().len() == 0 {
                    assert(self@.pending.dom() =~= Set::<i64>::empty());
                    assert(self.state.pending@ =~= Map::<i64, PendingInodeWrites>::empty());
                }
            }
        }
        idle
    }

    /// Largest end of a pending write of `ino`, saturating at the largest position.
    pub fn pending_max_end(&self, ino: i64) -> (result: Option<u64>)
        ensures
            match (result, max_end(self@.ranges_of(ino))) {
                (None, None) => true,
                (Some(end), Some(exact)) => end == (if exact > u64::MAX {
                    u64::MAX as int
                } else {
                    exact
                }),
                _ => false,
            },
    {
        match self.state.pending.get(&ino) {
            Some(entry) => largest_end(&entry.ranges),
            None => None,
        }
    }

    /// The stashed times of `ino`; they stay stashed.
    pub fn pending_times(&self, ino: i64) -> (times: Option<PendingTimeChange>)
        ensures
            times == self@.times_of(ino),
    {
        match self.state.pending.get(&ino) {
            Some(entry) => entry.pending_times,
            None => None,
        }
    }

    /// The version of the pending state of `ino`.
    pub fn pending_generation(&self, ino: i64) -> (generation: PendingGeneration)
        ensures
            generation.value == self@.generation(ino),
    {
        self.state.generation(ino)
    }

    /// Lays pending writes over bytes read at `off`: pending bytes win.
    pub fn overlay_read(&self, ino: i64, off: u64, buf: &mut Vec<u8>) -> (hit: OverlayHit)
        requires
            self.wf(),
        ensures
            final(buf)@ == self@.read_over(ino, off as int, old(buf)@),
            hit.applied == (ends_fit(self@.ranges_of(ino)) && off + old(buf)@.len() <= u64::MAX
                && exists|pos: int|
                off <= pos < off + old(buf)@.len() && #[trigger] written_byte(
                    self@.ranges_of(ino),
                    pos,
                ) is Some),
    {
        let ghost base = buf@;
        let ghost pending = self@.ranges_of(ino);
        let size: u64 = buf.len() as u64;
        let runs: Vec<WriteRange> = self.pending_ranges(ino, off, size);
        let ghost all = range_models(runs@);
        if runs.len() == 0 {
            proof {
                assert(all =~= Seq::<RangeModel>::empty());
                assert forall|pos: int|
                    off <= pos < off + base.len() && off + base.len() <= u64::MAX && ends_fit(
                        pending,
                    ) implies #[trigger] written_byte(pending, pos) is None by {
                    assert(written_byte(all, pos) == written_byte(pending, pos));
                }
                assert(buf@ =~= self@.read_over(ino, off as int, base));
            }
            return OverlayHit { applied: false };
        }
        proof {
            let first = all[0];
            assert(first == runs@[0]@);
            assert(first.bytes.len() > 0);
            crate::ranges::lemma_written_by(all, 0, first.offset);
            assert(written_byte(all, first.offset) is Some);
            assert(off <= first.offset < off + size && off + size <= u64::MAX && ends_fit(pending));
            assert(written_byte(pending, first.offset) is Some);
        }
        apply_runs(buf, off, &runs);
        proof {
            assert forall|i: int| 0 <= i < base.len() implies #[trigger] buf@[i]
                == self@.read_over(ino, off as int, base)[i] by {
                assert(written_byte(all, off + i) == written_byte(pending, off + i));
            }
            assert(buf@ =~= self@.read_over(ino, off as int, base));
        }
        OverlayHit { applied: true }
    }

    /// Lays pending times and the pending size over attributes from the database.
    pub fn merge_into_stats(&self, ino: i64, stats: &mut Stats)
        ensures
            *final(stats) == self@.stats_over(ino, *old(stats)),
    {
        if let Some(times) = self.pending_times(ino) {
            times.merge_into(stats);
        }
        if let Some(pending_end) = self.pending_max_end(ino) {
            let end: i64 = if pending_end > i64::MAX as u64 {
                i64::MAX
            } else {
                pending_end as i64
            };
            if end > stats.size {
                stats.size = end;
            }
        }
    }
}

} // verus!
