//! Draining the group-commit queue into the database.
//!
//! A drain selects pending inodes for one bounded transaction, hands out the runs
//! to write and the times to set, and, once the transaction is durable, removes
//! exactly what was committed. Whatever arrives in between stays pending.
use crate::batcher::{AgentFSWriteBatcher, lemma_settled_wf};
use crate::batcher_state::{AgentFSWriteBatcherState, BatcherModel, lemma_sum_remove, map_keys};
use crate::error::{Error, is_internal};
use crate::pending::{PendingInodeWrites, PendingModel, PendingTimeChange, clear_applied};
use crate::ranges::{
    WriteRange, ends_fit, gapped, normalize_write_ranges, range_models, total_len,
    total_len_of_concat, written_byte,
};
use vstd::prelude::*;

verus! {

broadcast use vstd::std_specs::hash::group_hash_axioms;

/// Why a drain runs.
#[derive(Debug, Clone, Copy, PartialEq, Eq, Structural)]
pub enum AgentFSWriteBatchDrainReason {
    Timer,
    Bytes,
    Explicit,
}

/// The inodes of one drain transaction, as chosen so far.
#[verifier::ext_equal]
pub struct Selection {
    pub inos: Seq<i64>,
    pub bytes: nat,
    pub truncated: bool,
}

pub open spec fn saturated_sum(a: nat, b: nat) -> nat {
    if a + b > usize::MAX {
        usize::MAX as nat
    } else {
        a + b
    }
}

/// The required inode is chosen first, whatever the bounds, when it is pending.
pub open spec fn required_first(
    pending: Map<i64, PendingModel>,
    required: Option<i64>,
) -> Selection {
    match required {
        Some(ino) => if pending.contains_key(ino) && !pending[ino].drained() {
            Selection {
                inos: seq![ino],
                bytes: saturated_sum(0, pending[ino].pending_bytes),
                truncated: false,
            }
        } else {
            Selection { inos: Seq::empty(), bytes: 0, truncated: false }
        },
        None => Selection { inos: Seq::empty(), bytes: 0, truncated: false },
    }
}

/// One more candidate: it is chosen unless a bound is reached. The first inode is
/// always chosen.
pub open spec fn offer(
    chosen: Selection,
    pending: Map<i64, PendingModel>,
    ino: i64,
    required: Option<i64>,
    max_inodes: nat,
    max_bytes: nat,
) -> Selection {
    if chosen.truncated || required == Some(ino) || !pending.contains_key(ino)
        || pending[ino].drained() {
        chosen
    } else if chosen.inos.len() >= max_inodes || (chosen.inos.len() > 0 && saturated_sum(
        chosen.bytes,
        pending[ino].pending_bytes,
    ) > max_bytes) {
        Selection { truncated: true, ..chosen }
    } else {
        Selection {
            inos: chosen.inos.push(ino),
            bytes: saturated_sum(chosen.bytes, pending[ino].pending_bytes),
            truncated: false,
        }
    }
}

/// The choice after the candidates in `order` were offered one by one.
pub open spec fn select(
    pending: Map<i64, PendingModel>,
    order: Seq<i64>,
    required: Option<i64>,
    max_inodes: nat,
    max_bytes: nat,
) -> Selection
    decreases order.len(),
{
    if order.len() == 0 {
        required_first(pending, required)
    } else {
        offer(
            select(pending, order.drop_last(), required, max_inodes, max_bytes),
            pending,
            order.last(),
            required,
            max_inodes,
            max_bytes,
        )
    }
}

/// Every chosen inode is pending, nothing is chosen twice, and without truncation
/// every candidate with work is chosen.
pub proof fn lemma_select(
    pending: Map<i64, PendingModel>,
    order: Seq<i64>,
    required: Option<i64>,
    max_inodes: nat,
    max_bytes: nat,
)
    requires
        order.no_duplicates(),
        max_inodes >= 1,
    ensures
        ({
            let chosen = select(pending, order, required, max_inodes, max_bytes);
            &&& chosen.inos.no_duplicates()
            &&& forall|i: int|
                0 <= i < chosen.inos.len() ==> {
                    &&& pending.contains_key(#[trigger] chosen.inos[i])
                    &&& !pending[chosen.inos[i]].drained()
                    &&& order.contains(chosen.inos[i]) || required == Some(chosen.inos[i])
                }
            &&& !chosen.truncated ==> forall|ino: i64| #[trigger]
                order.contains(ino) && pending.contains_key(ino) && !pending[ino].drained()
                    && required != Some(ino) ==> chosen.inos.contains(ino)
            &&& chosen.inos.len() <= max_inodes || chosen.inos.len() == 1
            &&& chosen.truncated ==> chosen.inos.len() > 0
        }),
    decreases order.len(),
{
    if order.len() > 0 {
        let head = order.drop_last();
        lemma_select(pending, head, required, max_inodes, max_bytes);
        let before = select(pending, head, required, max_inodes, max_bytes);
        let chosen = select(pending, order, required, max_inodes, max_bytes);
        let last = order.last();
        assert(order[order.len() - 1] == last);
        assert(!head.contains(last)) by {
            if head.contains(last) {
                let k = choose|k: int| 0 <= k < head.len() && head[k] == last;
                assert(order[k] == last);
            }
        }
        assert forall|i: int| 0 <= i < chosen.inos.len() implies {
            &&& pending.contains_key(#[trigger] chosen.inos[i])
            &&& !pending[chosen.inos[i]].drained()
            &&& order.contains(chosen.inos[i]) || required == Some(chosen.inos[i])
        } by {
            if i < before.inos.len() {
                assert(chosen.inos[i] == before.inos[i]);
                if head.contains(before.inos[i]) {
                    let k = choose|k: int| 0 <= k < head.len() && head[k] == before.inos[i];
                    assert(order[k] == before.inos[i]);
                }
            }
        }
        if !chosen.truncated {
            assert forall|ino: i64| #[trigger]
                order.contains(ino) && pending.contains_key(ino) && !pending[ino].drained()
                    && required != Some(ino) implies chosen.inos.contains(ino) by {
                let k = choose|k: int| 0 <= k < order.len() && order[k] == ino;
                if k < head.len() {
                    assert(head[k] == ino);
                    assert(!before.truncated && head.contains(ino));
                    assert(before.inos.contains(ino));
                    let j = choose|j: int| 0 <= j < before.inos.len() && before.inos[j] == ino;
                    assert(chosen.inos[j] == ino);
                } else {
                    assert(chosen.inos[chosen.inos.len() - 1] == ino);
                }
            }
        }
    }
}

/// A required inode with pending work is part of the transaction, whatever the
/// bounds and the order of the candidates.
pub proof fn required_inode_is_selected(
    pending: Map<i64, PendingModel>,
    order: Seq<i64>,
    required: i64,
    max_inodes: nat,
    max_bytes: nat,
)
    requires
        pending.contains_key(required),
        !pending[required].drained(),
    ensures
        select(pending, order, Some(required), max_inodes, max_bytes).inos.len() > 0,
        select(pending, order, Some(required), max_inodes, max_bytes).inos[0] == required,
    decreases order.len(),
{
    if order.len() > 0 {
        required_inode_is_selected(pending, order.drop_last(), required, max_inodes, max_bytes);
    }
}

/// While work is pending every drain commits something.
pub proof fn drain_makes_progress(
    pending: Map<i64, PendingModel>,
    order: Seq<i64>,
    required: Option<i64>,
    max_inodes: nat,
    max_bytes: nat,
    ino: i64,
)
    requires
        order.no_duplicates(),
        order.to_set() == pending.dom(),
        max_inodes >= 1,
        pending.contains_key(ino),
        !pending[ino].drained(),
    ensures
        select(pending, order, required, max_inodes, max_bytes).inos.len() > 0,
{
    lemma_select(pending, order, required, max_inodes, max_bytes);
    assert(order.to_set().contains(ino));
    if required == Some(ino) {
        required_inode_is_selected(pending, order, ino, max_inodes, max_bytes);
    }
}

/// The byte bound of a transaction: more than one inode never exceeds it, unless
/// the required inode alone does.
pub proof fn selection_respects_byte_bound(
    pending: Map<i64, PendingModel>,
    order: Seq<i64>,
    required: Option<i64>,
    max_inodes: nat,
    max_bytes: nat,
)
    ensures
        select(pending, order, required, max_inodes, max_bytes).inos.len() > 1 ==> select(
            pending,
            order,
            required,
            max_inodes,
            max_bytes,
        ).bytes <= max_bytes,
    decreases order.len(),
{
    if order.len() > 0 {
        selection_respects_byte_bound(pending, order.drop_last(), required, max_inodes, max_bytes);
    }
}

/// What one drain writes for one inode.
pub struct DrainEntry {
    pub ino: i64,
    /// How many queued ranges the runs stand for.
    pub count: usize,
    pub runs: Vec<WriteRange>,
}

impl DrainEntry {
    /// The runs show what the pending ranges of the inode show, all of them.
    pub open spec fn stands_for(self, pending: PendingModel) -> bool {
        &&& self.count == pending.ranges.len()
        &&& gapped(range_models(self.runs@))
        &&& ends_fit(range_models(self.runs@))
        &&& forall|pos: int| #[trigger]
            written_byte(range_models(self.runs@), pos) == written_byte(pending.ranges, pos)
    }

    /// How many queued ranges were merged away, counted for entries with data.
    pub open spec fn merged(self) -> int {
        if self.runs@.len() == 0 || self.count <= self.runs@.len() {
            0
        } else {
            self.count - self.runs@.len()
        }
    }

    /// How many queued ranges were merged away, counted for entries with data.
    pub fn coalesced(&self) -> (merged: usize)
        ensures
            merged == self.merged(),
    {
        if self.runs.len() == 0 || self.count <= self.runs.len() {
            0
        } else {
            self.count - self.runs.len()
        }
    }
}

/// The content of one drain transaction.
pub struct DrainBatch {
    pub entries: Vec<DrainEntry>,
    /// Work was left out because of the bounds: drain again at once.
    pub more_pending: bool,
}

impl DrainBatch {
    pub open spec fn inos(self) -> Seq<i64> {
        self.entries@.map_values(|entry: DrainEntry| entry.ino)
    }

    /// The batch is `chosen`, with every pending range of each inode.
    pub open spec fn realizes(self, chosen: Selection, pending: Map<i64, PendingModel>) -> bool {
        &&& self.inos() == chosen.inos
        &&& self.more_pending == chosen.truncated
        &&& forall|i: int|
            0 <= i < self.entries@.len() ==> (#[trigger] self.entries@[i]).stands_for(
                pending[self.entries@[i].ino],
            )
    }
}

/// How the commit of one inode treats its times.
#[derive(Debug, Clone, Copy)]
pub struct CommitDirective {
    pub preserve_times: bool,
    pub times: Option<PendingTimeChange>,
}

/// What to do for one inode inside the transaction.
#[derive(Debug, Clone, Copy)]
pub enum CommitStep {
    /// Write the runs, with the times folded into the same statement.
    WriteRuns(CommitDirective),
    /// No data: set the times with a statement of their own.
    SetTimes(PendingTimeChange),
    /// Nothing to do.
    Skip,
}

/// How a step of the transaction ended.
#[derive(Debug, Clone, Copy, PartialEq, Eq, Structural)]
pub enum StepResult {
    Done,
    /// The inode was deleted while its writes were pending.
    InodeMissing,
    Failed,
}

/// How the transaction goes on after a step.
#[derive(Debug, Clone, Copy)]
pub enum AfterStep {
    /// Go on; these stashed times are part of the transaction.
    Continue(Option<PendingTimeChange>),
    /// Roll back: everything stays pending.
    Rollback,
}

/// The step of an inode with or without data to write and `directive` for its times.
pub open spec fn step_for(has_data: bool, directive: CommitDirective) -> CommitStep {
    if has_data {
        CommitStep::WriteRuns(directive)
    } else {
        match directive.times {
            Some(times) => CommitStep::SetTimes(times),
            None => CommitStep::Skip,
        }
    }
}

/// The step of an inode with `runs` to write and `directive` for its times.
pub fn commit_step(runs: &Vec<WriteRange>, directive: CommitDirective) -> (step: CommitStep)
    ensures
        step == step_for(runs@.len() > 0, directive),
{
    if runs.len() > 0 {
        CommitStep::WriteRuns(directive)
    } else {
        match directive.times {
            Some(times) => CommitStep::SetTimes(times),
            None => CommitStep::Skip,
        }
    }
}

/// How the transaction goes on. A deleted inode does not abort the batch: its data is moot. Its
/// stashed times are not counted as applied. Any other failure rolls the transaction back.
pub open spec fn continued(step: CommitStep, result: StepResult) -> AfterStep {
    match (step, result) {
        (CommitStep::WriteRuns(directive), StepResult::Done) => AfterStep::Continue(
            directive.times,
        ),
        (CommitStep::WriteRuns(_), StepResult::InodeMissing) => AfterStep::Continue(None),
        (CommitStep::SetTimes(times), StepResult::Done) => AfterStep::Continue(Some(times)),
        (CommitStep::Skip, _) => AfterStep::Continue(None),
        _ => AfterStep::Rollback,
    }
}

/// How the transaction goes on after a step.
pub fn after_step(step: CommitStep, result: StepResult) -> (next: AfterStep)
    ensures
        next == continued(step, result),
{
    match step {
        CommitStep::WriteRuns(directive) => match result {
            StepResult::Done => AfterStep::Continue(directive.times),
            StepResult::InodeMissing => AfterStep::Continue(None),
            StepResult::Failed => AfterStep::Rollback,
        },
        CommitStep::SetTimes(times) => match result {
            StepResult::Done => AfterStep::Continue(Some(times)),
            _ => AfterStep::Rollback,
        },
        CommitStep::Skip => AfterStep::Continue(None),
    }
}

impl BatcherModel {
    /// The state after the first `count` ranges of `ino` were committed.
    pub open spec fn prefix_removed(self, ino: i64, count: nat) -> BatcherModel {
        if !self.pending.contains_key(ino) {
            self
        } else {
            let entry = self.pending[ino];
            let n = if count < entry.ranges.len() {
                count
            } else {
                entry.ranges.len()
            };
            let left = PendingModel {
                ranges: entry.ranges.skip(n as int),
                pending_bytes: total_len(entry.ranges.skip(n as int)),
                ..entry
            };
            if n > 0 || left.drained() {
                let next = self.advanced();
                next.settled(ino, left.with_generation(next.last_generation))
            } else {
                self
            }
        }
    }

    /// The state after the committed prefixes were removed one by one.
    pub open spec fn prefixes_removed(self, committed: Seq<(i64, nat)>) -> BatcherModel
        decreases committed.len(),
    {
        if committed.len() == 0 {
            self
        } else {
            let last = committed.last();
            self.prefixes_removed(committed.drop_last()).prefix_removed(last.0, last.1)
        }
    }

    /// The state after stashed times of `ino` that equal the applied ones were
    /// dropped. A newer stash stays.
    pub open spec fn times_cleared(self, ino: i64, applied: PendingTimeChange) -> BatcherModel {
        if self.times_of(ino) is None {
            self
        } else {
            let left = self.times_of(ino)->0.without_applied(applied);
            let next = self.advanced();
            BatcherModel {
                pending: self.pending.insert(
                    ino,
                    PendingModel {
                        pending_times: if left == PendingTimeChange::no_change() {
                            None
                        } else {
                            Some(left)
                        },
                        generation: next.last_generation,
                        ..self.pending[ino]
                    },
                ),
                ..next
            }
        }
    }

    pub open spec fn all_times_cleared(
        self,
        applied: Seq<(i64, PendingTimeChange)>,
    ) -> BatcherModel
        decreases applied.len(),
    {
        if applied.len() == 0 {
            self
        } else {
            let last = applied.last();
            self.all_times_cleared(applied.drop_last()).times_cleared(last.0, last.1)
        }
    }

    /// The state after the drained entries among `order` were dropped one by one;
    /// their generations are remembered.
    pub open spec fn swept(self, order: Seq<i64>) -> BatcherModel
        decreases order.len(),
    {
        if order.len() == 0 {
            self
        } else {
            let before = self.swept(order.drop_last());
            let ino = order.last();
            if before.pending.contains_key(ino) && before.pending[ino].drained() {
                before.dropped(ino, before.pending[ino].generation)
            } else {
                before
            }
        }
    }
}

/// Removing a committed prefix keeps the invariant.
pub proof fn lemma_prefix_removed_wf(model: BatcherModel, ino: i64, count: nat)
    requires
        model.wf(),
        model.room(1),
    ensures
        model.prefix_removed(ino, count).wf(),
        model.never_stranded() ==> model.prefix_removed(ino, count).never_stranded(),
        model.prefix_removed(ino, count).last_generation <= model.last_generation + 1,
        model.prefix_removed(ino, count).epoch <= model.epoch + 1,
{
    if model.pending.contains_key(ino) {
        let entry = model.pending[ino];
        let n = if count < entry.ranges.len() {
            count
        } else {
            entry.ranges.len()
        };
        let rest = entry.ranges.skip(n as int);
        let left = PendingModel { ranges: rest, pending_bytes: total_len(rest), ..entry };
        assert forall|i: int| 0 <= i < rest.len() implies (#[trigger] rest[i]).bytes.len() > 0
            && rest[i].offset >= 0 by {
            assert(rest[i] == entry.ranges[i + n]);
        }
        let next = model.advanced();
        assert(next.wf());
        lemma_settled_wf(next, ino, left.with_generation(next.last_generation));
    }
}

/// Dropping applied times keeps the invariant.
pub proof fn lemma_times_cleared_wf(model: BatcherModel, ino: i64, applied: PendingTimeChange)
    requires
        model.wf(),
        model.room(1),
    ensures
        model.times_cleared(ino, applied).wf(),
        model.never_stranded() ==> model.times_cleared(ino, applied).never_stranded(),
        model.times_cleared(ino, applied).last_generation <= model.last_generation + 1,
        model.times_cleared(ino, applied).epoch == model.epoch,
{
    if model.times_of(ino) is Some {
        let next = model.times_cleared(ino, applied);
        let entry = next.pending[ino];
        crate::batcher_state::lemma_sum_insert(model.pending, ino, entry);
        lemma_sum_remove(model.pending, ino);
        assert(next.pending =~= model.pending.insert(ino, entry));
        assert(entry.wf());
        if model.never_stranded() {
            assert(model.pending.dom().contains(ino));
            assert(model.pending.dom().len() > 0);
        }
    }
}

impl AgentFSWriteBatcherState {
    /// Drops the first `count` ranges of `ino` after they were committed. Ranges
    /// appended during the commit stay; a shrunken or removed entry is tolerated.
    fn remove_committed(&mut self, ino: i64, count: usize)
        requires
            old(self)@.wf(),
            old(self)@.room(1),
        ensures
            final(self)@.wf(),
            final(self)@ == old(self)@.prefix_removed(ino, count as nat),
    {
        let ghost before = self@;
        proof {
            lemma_prefix_removed_wf(before, ino, count as nat);
        }
        match self.pending.remove(&ino) {
            None => {
                assert(self@.pending =~= before.pending);
            },
            Some(entry) => {
                let ghost original = entry@;
                assert(before.pending.contains_key(ino) && original == before.pending[ino]);
                let mut entry = entry;
                let n: usize = if count < entry.ranges.len() {
                    count
                } else {
                    entry.ranges.len()
                };
                let old_bytes: usize = entry.pending_bytes;
                let rest: Vec<WriteRange> = entry.ranges.split_off(n);
                proof {
                    total_len_of_concat(original.ranges.take(n as int), original.ranges.skip(n as int));
                    assert(original.ranges.take(n as int) + original.ranges.skip(n as int)
                        =~= original.ranges);
                    assert(range_models(rest@) =~= original.ranges.skip(n as int));
                }
                let left_bytes: usize = match crate::batcher::count_bytes(&rest) {
                    Some(bytes) => bytes,
                    None => 0,
                };
                entry.ranges = rest;
                entry.pending_bytes = left_bytes;
                if n > 0 || entry.is_drained() {
                    let generation: u64 = self.next_generation();
                    entry.bump_generation(generation);
                    proof {
                        let next = before.advanced();
                        assert(next.wf());
                        assert(self@ =~= (BatcherModel {
                            pending: next.pending.remove(ino),
                            ..next
                        }));
                        assert forall|i: int| 0 <= i < entry@.ranges.len() implies (
                        #[trigger] entry@.ranges[i]).bytes.len() > 0 && entry@.ranges[i].offset
                            >= 0 by {
                            assert(entry@.ranges[i] == original.ranges[i + n]);
                        }
                        assert(entry@.wf());
                    }
                    self.settle(ino, entry, old_bytes);
                } else {
                    assert(original.ranges.skip(0) =~= original.ranges);
                    assert(entry@ =~= original);
                    self.pending.insert(ino, entry);
                    assert(self@.pending =~= before.pending);
                }
            },
        }
    }

    /// Drops the stashed time fields that a commit applied. Field-wise equality
    /// keeps a newer stash that arrived in the meantime.
    fn clear_applied_times(&mut self, ino: i64, applied: &PendingTimeChange)
        requires
            old(self)@.wf(),
            old(self)@.room(1),
        ensures
            final(self)@.wf(),
            final(self)@ == old(self)@.times_cleared(ino, *applied),
    {
        let ghost before = self@;
        proof {
            lemma_times_cleared_wf(before, ino, *applied);
        }
        match self.pending.remove(&ino) {
            None => {
                assert(self@.pending =~= before.pending);
            },
            Some(entry) => {
                let ghost original = entry@;
                assert(before.pending.contains_key(ino) && original == before.pending[ino]);
                let mut entry = entry;
                match entry.pending_times {
                    None => {
                        self.pending.insert(ino, entry);
                        assert(self@.pending =~= before.pending);
                    },
                    Some(times) => {
                        let mut left = times;
                        clear_applied(&mut left, applied);
                        entry.pending_times = if left.is_empty() {
                            None
                        } else {
                            Some(left)
                        };
                        let generation: u64 = self.next_generation();
                        entry.bump_generation(generation);
                        let ghost model = entry@;
                        self.pending.insert(ino, entry);
                        assert(self@.pending =~= before.pending.insert(ino, model));
                        assert(self@ =~= before.times_cleared(ino, *applied));
                    },
                }
            },
        }
    }

    /// Drops entries that have nothing left to commit and lists them.
    fn cleanup_empty_pending(&mut self) -> (removed: Vec<i64>)
        requires
            old(self)@.wf(),
            old(self)@.epoch + old(self)@.pending.dom().len() <= u64::MAX,
        ensures
            final(self)@.wf(),
            final(self)@.only_live(),
            old(self)@.never_stranded() ==> final(self)@.never_stranded(),
            exists|order: Seq<i64>|
                {
                    &&& order.no_duplicates()
                    &&& order.to_set() == old(self)@.pending.dom()
                    &&& final(self)@ == #[trigger] old(self)@.swept(order)
                },
            forall|ino: i64|
                #![trigger removed@.contains(ino)]
                removed@.contains(ino) <==> old(self)@.pending.contains_key(ino)
                    && old(self)@.pending[ino].drained(),
            old(self)@.only_live() ==> final(self)@ == old(self)@,
    {
        let ghost before = self@;
        let keys: Vec<i64> = map_keys(&self.pending);
        let ghost order = keys@;
        let mut removed: Vec<i64> = Vec::new();
        let mut i: usize = 0;
        assert(order.to_set() =~= before.pending.dom());
        while i < keys.len()
            invariant
                i <= keys@.len(),
                order == keys@,
                order.no_duplicates(),
                before.wf(),
                self@.wf(),
                self@ == before.swept(order.take(i as int)),
                before.never_stranded() ==> self@.never_stranded(),
                order.to_set() == before.pending.dom(),
                order.len() == before.pending.dom().len(),
                self@.epoch <= before.epoch + i,
                before.epoch + order.len() <= u64::MAX,
                forall|ino: i64|
                    #![trigger self@.pending.contains_key(ino)]
                    self@.pending.contains_key(ino) <==> before.pending.contains_key(ino) && !(
                    before.pending[ino].drained() && order.take(i as int).contains(ino)),
                forall|ino: i64| #[trigger]
                    self@.pending.contains_key(ino) ==> self@.pending[ino] == before.pending[ino],
                forall|ino: i64|
                    #![trigger removed@.contains(ino)]
                    removed@.contains(ino) <==> before.pending.contains_key(ino)
                        && before.pending[ino].drained() && order.take(i as int).contains(ino),
                before.only_live() ==> self@ == before,
            decreases keys@.len() - i,
        {
            let ino: i64 = keys[i];
            let ghost now = self@;
            let ghost seen = order.take(i as int);
            let ghost upto = order.take(i + 1);
            proof {
                assert(upto.drop_last() =~= seen);
                assert(upto.last() == ino);
                assert(order.to_set().contains(ino));
                assert(before.pending.contains_key(ino));
                assert(!seen.contains(ino)) by {
                    if seen.contains(ino) {
                        let k = choose|k: int| 0 <= k < seen.len() && seen[k] == ino;
                        assert(order[k] == order[i as int]);
                    }
                }
                assert(now.pending.contains_key(ino));
                assert forall|other: i64| #[trigger]
                    upto.contains(other) <==> seen.contains(other) || other == ino by {
                    if seen.contains(other) {
                        let k = choose|k: int| 0 <= k < seen.len() && seen[k] == other;
                        assert(upto[k] == other);
                    }
                    if other == ino {
                        assert(upto[i as int] == ino);
                    }
                    if upto.contains(other) && other != ino {
                        let k = choose|k: int| 0 <= k < upto.len() && upto[k] == other;
                        assert(seen[k] == other);
                    }
                }
            }
            let drained: bool = match self.pending.get(&ino) {
                Some(entry) => entry.is_drained(),
                None => false,
            };
            if drained {
                if let Some(entry) = self.pending.remove(&ino) {
                    let bytes: usize = entry.pending_bytes;
                    proof {
                        assert(self@ =~= (BatcherModel {
                            pending: now.pending.remove(ino),
                            ..now
                        }));
                        lemma_settled_wf(now, ino, entry@);
                    }
                    self.settle(ino, entry, bytes);
                }
                let ghost was = removed@;
                removed.push(ino);
                proof {
                    assert forall|other: i64|
                        #![trigger removed@.contains(other)]
                        removed@.contains(other) <==> was.contains(other) || other == ino by {
                        if was.contains(other) {
                            let k = choose|k: int| 0 <= k < was.len() && was[k] == other;
                            assert(removed@[k] == other);
                        }
                        if other == ino {
                            assert(removed@[was.len() as int] == ino);
                        }
                        if removed@.contains(other) && other != ino {
                            let k = choose|k: int| 0 <= k < removed@.len() && removed@[k] == other;
                            assert(was[k] == other);
                        }
                    }
                }
            }
            i += 1;
        }
        proof {
            assert(order.take(i as int) =~= order);
            assert forall|ino: i64| #[trigger] self@.pending.contains_key(ino) implies
                !self@.pending[ino].drained() by {
                assert(order.to_set().contains(ino));
            }
            assert forall|ino: i64|
                #![trigger removed@.contains(ino)]
                removed@.contains(ino) <==> before.pending.contains_key(ino)
                    && before.pending[ino].drained() by {
                if before.pending.contains_key(ino) {
                    assert(order.to_set().contains(ino));
                }
            }
        }
        removed
    }
}

/// What a finished drain asks of its caller.
pub struct FinishAction {
    /// Inodes whose cached attributes are stale.
    pub invalidate: Vec<i64>,
    /// The drain scheduler has to be started.
    pub schedule_drain: bool,
}

/// What the drain scheduler learns.
#[derive(Debug, Clone, Copy, PartialEq, Eq, Structural)]
pub enum SchedulerEvent {
    /// The gathering window is over.
    Woke,
    /// A drain was committed; the flag says whether more is pending at once.
    Drained(bool),
    /// A drain failed; everything is still pending.
    DrainFailed,
}

/// What the drain scheduler does next.
#[derive(Debug, Clone, Copy, PartialEq, Eq, Structural)]
pub enum SchedulerAction {
    Drain,
    Sleep,
    Exit,
}

impl BatcherModel {
    /// The state with a scheduler for whatever is pending.
    pub open spec fn armed(self) -> BatcherModel {
        if self.pending.dom().len() > 0 {
            BatcherModel { drain_scheduled: true, ..self }
        } else {
            self
        }
    }

    /// The state after a drain committed `committed` and applied `applied`, with
    /// the entries that are left without work dropped in the given order.
    pub open spec fn drained(
        self,
        applied: Seq<(i64, PendingTimeChange)>,
        committed: Seq<(i64, nat)>,
        order: Seq<i64>,
    ) -> BatcherModel {
        self.all_times_cleared(applied).prefixes_removed(committed).swept(order).armed()
    }
}

impl DrainBatch {
    /// How many ranges of each inode the batch commits.
    pub open spec fn committed(self) -> Seq<(i64, nat)> {
        self.entries@.map_values(|entry: DrainEntry| (entry.ino, entry.count as nat))
    }
}

proof fn lemma_pending_count(state: AgentFSWriteBatcherState)
    ensures
        state@.pending.dom() == state.pending@.dom(),
{
    assert(state@.pending.dom() =~= state.pending@.dom());
}

impl AgentFSWriteBatcher {
    /// Chooses the inodes of one transaction among `keys`.
    fn select_inos(&self, keys: &Vec<i64>, required: Option<i64>) -> (chosen: (Vec<i64>, bool))
        ensures
            chosen.0@ == select(
                self@.pending,
                keys@,
                required,
                self.txn_max_inodes as nat,
                self.txn_max_bytes as nat,
            ).inos,
            chosen.1 == select(
                self@.pending,
                keys@,
                required,
                self.txn_max_inodes as nat,
                self.txn_max_bytes as nat,
            ).truncated,
    {
        let ghost pending = self@.pending;
        let ghost max_inodes = self.txn_max_inodes as nat;
        let ghost max_bytes = self.txn_max_bytes as nat;
        let mut inos: Vec<i64> = Vec::new();
        let mut bytes: usize = 0;
        let mut truncated = false;
        if let Some(req) = required {
            if let Some(entry) = self.state.pending.get(&req) {
                if !entry.is_drained() {
                    bytes = bytes.saturating_add(entry.pending_bytes);
                    inos.push(req);
                }
            }
        }
        assert(inos@ =~= required_first(pending, required).inos);
        let mut i: usize = 0;
        while i < keys.len()
            invariant
                i <= keys@.len(),
                pending == self@.pending,
                max_inodes == self.txn_max_inodes,
                max_bytes == self.txn_max_bytes,
                select(pending, keys@.take(i as int), required, max_inodes, max_bytes) == (
                Selection { inos: inos@, bytes: bytes as nat, truncated }),
            decreases keys@.len() - i,
        {
            let ino: i64 = keys[i];
            proof {
                assert(keys@.take(i + 1).drop_last() =~= keys@.take(i as int));
                assert(keys@.take(i + 1).last() == ino);
            }
            let is_required: bool = match required {
                Some(req) => req == ino,
                None => false,
            };
            if !truncated && !is_required {
                if let Some(entry) = self.state.pending.get(&ino) {
                    if !entry.is_drained() {
                        if inos.len() >= self.txn_max_inodes || (inos.len() > 0
                            && bytes.saturating_add(entry.pending_bytes) > self.txn_max_bytes) {
                            truncated = true;
                        } else {
                            bytes = bytes.saturating_add(entry.pending_bytes);
                            inos.push(ino);
                        }
                    }
                }
            }
            i += 1;
        }
        assert(keys@.take(i as int) =~= keys@);
        (inos, truncated)
    }

    /// Starts a drain: chooses inodes for one transaction, at most as many inodes and
    /// bytes as the bounds allow but at least one, and always `required` when it has
    /// work. Nothing is removed from the queue. A range that ends beyond the largest
    /// position makes the drain fail; everything then stays pending.
    ///
    /// The candidates are offered in the order in which the pending map is walked;
    /// that order is not fixed.
    pub fn begin_drain(&self, required: Option<i64>) -> (result: Result<DrainBatch, Error>)
        requires
            self.wf(),
        ensures
            exists|order: Seq<i64>|
                {
                    &&& order.no_duplicates()
                    &&& order.to_set() == self@.pending.dom()
                    &&& {
                        let chosen = #[trigger] select(
                            self@.pending,
                            order,
                            required,
                            self.txn_max_inodes as nat,
                            self.txn_max_bytes as nat,
                        );
                        match result {
                            Ok(batch) => batch.realizes(chosen, self@.pending),
                            Err(error) => {
                                &&& is_internal(error, "write range end overflow"@)
                                &&& exists|i: int|
                                    0 <= i < chosen.inos.len() && !ends_fit(
                                        self@.pending[#[trigger] chosen.inos[i]].ranges,
                                    )
                            },
                        }
                    }
                },
    {
        let keys: Vec<i64> = map_keys(&self.state.pending);
        let (inos, truncated) = self.select_inos(&keys, required);
        let ghost chosen = select(
            self@.pending,
            keys@,
            required,
            self.txn_max_inodes as nat,
            self.txn_max_bytes as nat,
        );
        proof {
            lemma_pending_count(self.state);
            lemma_select(
                self@.pending,
                keys@,
                required,
                self.txn_max_inodes as nat,
                self.txn_max_bytes as nat,
            );
        }
        let mut entries: Vec<DrainEntry> = Vec::new();
        let mut i: usize = 0;
        while i < inos.len()
            invariant
                i <= inos@.len(),
                inos@ == chosen.inos,
                chosen == select(
                    self@.pending,
                    keys@,
                    required,
                    self.txn_max_inodes as nat,
                    self.txn_max_bytes as nat,
                ),
                keys@.no_duplicates(),
                keys@.to_set() == self@.pending.dom(),
                forall|k: int|
                    0 <= k < chosen.inos.len() ==> self@.pending.contains_key(
                        #[trigger] chosen.inos[k],
                    ),
                entries@.len() == i,
                forall|k: int|
                    0 <= k < i ==> (#[trigger] entries@[k]).ino == inos@[k]
                        && entries@[k].stands_for(self@.pending[inos@[k]]),
            decreases inos@.len() - i,
        {
            let ino: i64 = inos[i];
            assert(self@.pending.contains_key(chosen.inos[i as int]));
            if let Some(entry) = self.state.pending.get(&ino) {
                assert(entry@ == self@.pending[ino]);
                match normalize_write_ranges(&entry.ranges) {
                    Ok(runs) => {
                        let count: usize = entry.ranges.len();
                        entries.push(DrainEntry { ino, count, runs });
                    },
                    Err(error) => {
                        assert(!ends_fit(self@.pending[chosen.inos[i as int]].ranges));
                        return Err(error);
                    },
                }
            }
            i += 1;
        }
        let batch = DrainBatch { entries, more_pending: truncated };
        assert(batch.inos() =~= chosen.inos);
        assert(batch.realizes(chosen, self@.pending));
        Ok(batch)
    }

    /// How the commit of `ino` treats its times. To be read when the transaction
    /// holds the write lock of the database.
    pub fn commit_directive(&self, ino: i64) -> (directive: CommitDirective)
        ensures
            directive.preserve_times == (self@.pending.contains_key(ino)
                && self@.pending[ino].times_explicit),
            directive.times == self@.times_of(ino),
    {
        match self.state.pending.get(&ino) {
            Some(entry) => CommitDirective {
                preserve_times: entry.times_explicit,
                times: entry.pending_times,
            },
            None => CommitDirective { preserve_times: false, times: None },
        }
    }

    /// Drops exactly the committed ranges and applied times and keeps whatever was queued
    /// since.
    #[verifier::rlimit(60)]
    pub(crate) fn drop_committed(
        &mut self,
        batch: &DrainBatch,
        applied: &Vec<(i64, PendingTimeChange)>,
    ) -> (action: FinishAction)
        requires
            old(self).wf(),
            old(self)@.room(
                applied@.len() + batch.entries@.len() + old(self)@.pending.dom().len(),
            ),
        ensures
            final(self).wf(),
            final(self).same_limits(*old(self)),
            exists|order: Seq<i64>|
                {
                    &&& order.no_duplicates()
                    &&& order.to_set() == old(self)@.all_times_cleared(applied@).prefixes_removed(
                        batch.committed(),
                    ).pending.dom()
                    &&& final(self)@ == #[trigger] old(self)@.drained(
                        applied@,
                        batch.committed(),
                        order,
                    )
                },
            action.invalidate@.len() >= batch.entries@.len(),
            action.invalidate@.take(batch.entries@.len() as int) == batch.inos(),
            forall|ino: i64|
                #![trigger action.invalidate@.skip(batch.entries@.len() as int).contains(ino)]
                action.invalidate@.skip(batch.entries@.len() as int).contains(ino) <==> {
                    let left = old(self)@.all_times_cleared(applied@).prefixes_removed(
                        batch.committed(),
                    );
                    left.pending.contains_key(ino) && left.pending[ino].drained()
                },
            !action.schedule_drain,
    {
        let ghost before = self@;
        let ghost committed = batch.committed();
        let mut i: usize = 0;
        while i < applied.len()
            invariant
                i <= applied@.len(),
                before == old(self)@,
                before.wf(),
                before.room(applied@.len() + batch.entries@.len() + before.pending.dom().len()),
                self@ == before.all_times_cleared(applied@.take(i as int)),
                self@.wf(),
                self@.never_stranded(),
                self@.pending.dom() == before.pending.dom(),
                self@.last_generation <= before.last_generation + i,
                self@.epoch == before.epoch,
                self.same_limits(*old(self)),
            decreases applied@.len() - i,
        {
            let (ino, times) = applied[i];
            proof {
                assert(applied@.take(i + 1).drop_last() =~= applied@.take(i as int));
                assert(applied@.take(i + 1).last() == applied@[i as int]);
                lemma_times_cleared_wf(self@, ino, times);
                assert(self@.times_cleared(ino, times).pending.dom() =~= self@.pending.dom());
            }
            self.state.clear_applied_times(ino, &times);
            i += 1;
        }
        assert(applied@.take(i as int) =~= applied@);
        let ghost cleared = self@;
        let mut invalidate: Vec<i64> = Vec::new();
        let mut j: usize = 0;
        while j < batch.entries.len()
            invariant
                j <= batch.entries@.len(),
                committed == batch.committed(),
                cleared == before.all_times_cleared(applied@),
                before.wf(),
                before.room(applied@.len() + batch.entries@.len() + before.pending.dom().len()),
                self@ == cleared.prefixes_removed(committed.take(j as int)),
                self@.wf(),
                self@.never_stranded(),
                self@.pending.dom().subset_of(before.pending.dom()),
                self@.last_generation <= before.last_generation + applied@.len() + j,
                self@.epoch <= before.epoch + j,
                self.same_limits(*old(self)),
                invalidate@ == batch.inos().take(j as int),
            decreases batch.entries@.len() - j,
        {
            let entry: &DrainEntry = &batch.entries[j];
            proof {
                assert(committed.take(j + 1).drop_last() =~= committed.take(j as int));
                assert(committed.take(j + 1).last() == (entry.ino, entry.count as nat));
                lemma_prefix_removed_wf(self@, entry.ino, entry.count as nat);
            }
            self.state.remove_committed(entry.ino, entry.count);
            invalidate.push(entry.ino);
            assert(invalidate@ =~= batch.inos().take(j + 1));
            j += 1;
        }
        assert(committed.take(j as int) =~= committed);
        assert(batch.inos().take(j as int) =~= batch.inos());
        proof {
            vstd::set_lib::lemma_len_subset(self@.pending.dom(), before.pending.dom());
        }
        let ghost removed_prefix = self@;
        let removed: Vec<i64> = self.state.cleanup_empty_pending();
        let ghost order = choose|order: Seq<i64>|
            {
                &&& order.no_duplicates()
                &&& order.to_set() == removed_prefix.pending.dom()
                &&& self@ == #[trigger] removed_prefix.swept(order)
            };
        let ghost swept = removed@;
        let mut removed = removed;
        invalidate.append(&mut removed);
        let schedule_drain: bool = self.ensure_drain_scheduled();
        proof {
            assert(self@ == before.drained(applied@, committed, order));
            assert(invalidate@.take(batch.entries@.len() as int) =~= batch.inos());
            assert(invalidate@.skip(batch.entries@.len() as int) =~= swept);
        }
        FinishAction { invalidate, schedule_drain }
    }

    /// Makes sure that pending work has a scheduler. Returns whether it has to be
    /// started.
    pub fn ensure_drain_scheduled(&mut self) -> (start: bool)
        ensures
            final(self)@ == old(self)@.armed(),
            final(self).same_limits(*old(self)),
            start == (!old(self)@.drain_scheduled && old(self)@.pending.dom().len() > 0),
    {
        let ghost before = self@;
        proof {
            lemma_pending_count(self.state);
        }
        let empty: bool = self.state.pending.is_empty();
        proof {
            if empty {
                assert(self.state.pending@.dom() =~= Set::<i64>::empty());
            } else if before.pending.dom().finite() && before.pending.dom().len() == 0 {
                assert(before.pending.dom() =~= Set::<i64>::empty());
                assert(self.state.pending@ =~= Map::<i64, PendingInodeWrites>::empty());
            }
        }
        if !self.state.drain_scheduled && !empty {
            self.state.drain_scheduled = true;
            true
        } else {
            false
        }
    }

    /// One step of the drain scheduler. It drains back to back while more is pending
    /// at once, sleeps for another gathering window when something is left, and exits
    /// only when nothing is pending; the mark that it runs is cleared in that same
    /// step.
    pub fn scheduler_step(&mut self, event: SchedulerEvent) -> (action: SchedulerAction)
        requires
            old(self).wf(),
        ensures
            final(self).wf(),
            final(self).same_limits(*old(self)),
            action == (match event {
                SchedulerEvent::Woke => SchedulerAction::Drain,
                SchedulerEvent::Drained(true) => SchedulerAction::Drain,
                _ => if old(self)@.pending.dom().len() == 0 {
                    SchedulerAction::Exit
                } else {
                    SchedulerAction::Sleep
                },
            }),
            final(self)@ == (if action == SchedulerAction::Exit {
                BatcherModel { drain_scheduled: false, ..old(self)@ }
            } else {
                old(self)@
            }),
    {
        match event {
            SchedulerEvent::Woke => SchedulerAction::Drain,
            SchedulerEvent::Drained(true) => SchedulerAction::Drain,
            _ => {
                if self.is_idle() {
                    self.state.drain_scheduled = false;
                    SchedulerAction::Exit
                } else {
                    SchedulerAction::Sleep
                }
            },
        }
    }
}

} // verus!
