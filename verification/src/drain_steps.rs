//! One drain, step by step: what is asked of the database, and what follows from each answer.
use crate::batcher::AgentFSWriteBatcher;
use crate::batcher_state::BatcherModel;
use crate::drain::{
    AfterStep, AgentFSWriteBatchDrainReason, CommitDirective, CommitStep, DrainBatch, DrainEntry,
    FinishAction, StepResult, after_step, commit_step, continued, step_for,
};
use crate::pending::PendingTimeChange;
use crate::telemetry::record::{
    record_agentfs_batcher_coalesced_ranges, record_agentfs_batcher_drain_bytes,
    record_agentfs_batcher_drain_explicit, record_agentfs_batcher_drain_timer,
};
use crate::telemetry::{CoreCounters, Telemetry, wrapped};
use vstd::prelude::*;

verus! {

/// What a drain asks for next.
#[derive(Debug, Clone, Copy)]
pub enum DrainAsk {
    /// Start a transaction. All that follows is in it, up to its commit or rollback.
    Begin,
    /// How the times of the inodes are treated, now that the transaction holds the write lock.
    ReadDirectives,
    /// Carry out this step for the entry at this place.
    Run { at: usize, step: CommitStep },
    Commit,
    Rollback,
    /// Drop from the queue what was committed.
    Settle,
    /// Nothing: the drain is over.
    Finished,
}

/// What is answered.
#[derive(Debug)]
pub enum DrainReply {
    Directives(Vec<CommitDirective>),
    Step(StepResult),
    Done,
    /// What was asked for did not succeed.
    Failed,
}

/// A drain under way.
pub struct Drain {
    pub batch: DrainBatch,
    /// How the times of each inode are treated, once it is known.
    pub directives: Vec<CommitDirective>,
    /// How the steps ended that were carried out so far.
    pub results: Vec<StepResult>,
    /// The stashed times that are part of the transaction.
    pub applied: Vec<(i64, PendingTimeChange)>,
    /// What was asked last.
    pub asked: DrainAsk,
    /// Whether something that was asked for did not succeed.
    pub failed: bool,
}

/// A drain of a batch under way.
#[verifier::ext_equal]
pub struct DrainState {
    pub directives: Seq<CommitDirective>,
    pub results: Seq<StepResult>,
    pub asked: DrainAsk,
    pub failed: bool,
}

impl View for Drain {
    type V = DrainState;

    open spec fn view(&self) -> DrainState {
        DrainState {
            directives: self.directives@,
            results: self.results@,
            asked: self.asked,
            failed: self.failed,
        }
    }
}

/// An answer as a mathematical value.
pub enum ReplyModel {
    Directives(Seq<CommitDirective>),
    Step(StepResult),
    Done,
    Failed,
}

impl View for DrainReply {
    type V = ReplyModel;

    open spec fn view(&self) -> ReplyModel {
        match self {
            DrainReply::Directives(directives) => ReplyModel::Directives(directives@),
            DrainReply::Step(result) => ReplyModel::Step(*result),
            DrainReply::Done => ReplyModel::Done,
            DrainReply::Failed => ReplyModel::Failed,
        }
    }
}

impl DrainBatch {
    /// The step of the entry at a place.
    pub open spec fn step_at(self, directives: Seq<CommitDirective>, at: int) -> CommitStep {
        step_for(self.entries@[at].runs@.len() > 0, directives[at])
    }

    /// The stashed times that become part of the transaction with the first steps: those of each
    /// entry whose step went on with times, in order.
    pub open spec fn applied_by(
        self,
        directives: Seq<CommitDirective>,
        results: Seq<StepResult>,
    ) -> Seq<(i64, PendingTimeChange)>
        decreases results.len(),
    {
        if results.len() == 0 {
            Seq::empty()
        } else {
            let at = results.len() - 1;
            let earlier = self.applied_by(directives, results.drop_last());
            match continued(self.step_at(directives, at), results.last()) {
                AfterStep::Continue(Some(times)) => earlier.push((self.entries@[at].ino, times)),
                _ => earlier,
            }
        }
    }
}

impl DrainState {
    /// A drain of which nothing is known yet. One of an empty batch only settles.
    pub open spec fn begun(batch: DrainBatch) -> DrainState {
        DrainState {
            directives: Seq::empty(),
            results: Seq::empty(),
            asked: if batch.entries@.len() == 0 {
                DrainAsk::Settle
            } else {
                DrainAsk::Begin
            },
            failed: false,
        }
    }

    pub open spec fn asking(self, asked: DrainAsk) -> DrainState {
        DrainState { asked, ..self }
    }

    /// The step of the next entry, or the commit after the last one.
    pub open spec fn going_on(self, batch: DrainBatch) -> DrainState {
        let at = self.results.len() as int;
        if at < batch.entries@.len() {
            self.asking(
                DrainAsk::Run { at: at as usize, step: batch.step_at(self.directives, at) },
            )
        } else {
            self.asking(DrainAsk::Commit)
        }
    }

    /// Whether a reply is of the kind that was asked for. A rollback succeeds.
    pub open spec fn expects(self, reply: ReplyModel, batch: DrainBatch) -> bool {
        match self.asked {
            DrainAsk::Finished => false,
            DrainAsk::Rollback | DrainAsk::Settle => reply is Done,
            DrainAsk::ReadDirectives => reply matches ReplyModel::Directives(directives)
                && directives.len() == batch.entries@.len(),
            DrainAsk::Run { .. } => reply is Step,
            _ => reply is Done || reply is Failed,
        }
    }

    /// The drain after an answer. A failure after the transaction was started rolls it back.
    pub open spec fn after(self, reply: ReplyModel, batch: DrainBatch) -> DrainState {
        match (self.asked, reply) {
            (DrainAsk::Begin, ReplyModel::Failed) => DrainState {
                asked: DrainAsk::Finished,
                failed: true,
                ..self
            },
            (DrainAsk::Begin, _) => self.asking(DrainAsk::ReadDirectives),
            (DrainAsk::ReadDirectives, ReplyModel::Directives(directives)) => (DrainState {
                directives,
                ..self
            }).going_on(batch),
            (DrainAsk::Run { at, step }, ReplyModel::Step(result)) => match continued(
                step,
                result,
            ) {
                AfterStep::Continue(_) => (DrainState {
                    results: self.results.push(result),
                    ..self
                }).going_on(batch),
                AfterStep::Rollback => DrainState {
                    asked: DrainAsk::Rollback,
                    failed: true,
                    ..self
                },
            },
            (DrainAsk::Commit, ReplyModel::Failed) => DrainState {
                asked: DrainAsk::Rollback,
                failed: true,
                ..self
            },
            (DrainAsk::Commit, _) => self.asking(DrainAsk::Settle),
            _ => self.asking(DrainAsk::Finished),
        }
    }

    /// The steps are carried out one after the other, and whatever is committed was carried out
    /// for every entry of the batch.
    pub open spec fn wf(self, batch: DrainBatch) -> bool {
        &&& self.results.len() <= batch.entries@.len()
        &&& match self.asked {
            DrainAsk::Begin | DrainAsk::ReadDirectives => self.results.len() == 0
                && batch.entries@.len() > 0 && !self.failed,
            DrainAsk::Run { at, step } => {
                &&& self.directives.len() == batch.entries@.len()
                &&& at == self.results.len()
                &&& at < batch.entries@.len()
                &&& step == batch.step_at(self.directives, at as int)
                &&& !self.failed
            },
            DrainAsk::Commit | DrainAsk::Settle => {
                &&& self.directives.len() == batch.entries@.len()
                &&& self.results.len() == batch.entries@.len()
                &&& !self.failed
            },
            DrainAsk::Rollback => self.failed,
            DrainAsk::Finished => true,
        }
    }
}

impl Drain {
    /// The drain is in order, and the times that it collected are those of the steps that went on
    /// with times.
    pub open spec fn wf(self) -> bool {
        &&& self@.wf(self.batch)
        &&& self.applied@ == self.batch.applied_by(self.directives@, self.results@)
    }

    /// Starts the drain of a batch.
    pub fn start(batch: DrainBatch) -> (drain: Drain)
        ensures
            drain.wf(),
            drain.batch == batch,
            drain@ == DrainState::begun(batch),
    {
        let asked: DrainAsk = if batch.entries.len() == 0 {
            DrainAsk::Settle
        } else {
            DrainAsk::Begin
        };
        let drain = Drain {
            batch,
            directives: Vec::new(),
            results: Vec::new(),
            applied: Vec::new(),
            asked,
            failed: false,
        };
        assert(drain@ =~= DrainState::begun(batch));
        drain
    }

    fn go_on(&mut self)
        requires
            old(self).results@.len() <= old(self).batch.entries@.len(),
            old(self).directives@.len() == old(self).batch.entries@.len(),
        ensures
            final(self)@ == old(self)@.going_on(old(self).batch),
            final(self).batch == old(self).batch,
            final(self).applied@ == old(self).applied@,
    {
        let at: usize = self.results.len();
        if at < self.batch.entries.len() {
            let step: CommitStep = commit_step(&self.batch.entries[at].runs, self.directives[at]);
            self.asked = DrainAsk::Run { at, step };
        } else {
            self.asked = DrainAsk::Commit;
        }
    }

    fn roll_back(&mut self)
        ensures
            final(self)@ == (DrainState {
                asked: DrainAsk::Rollback,
                failed: true,
                ..old(self)@
            }),
            final(self).batch == old(self).batch,
            final(self).applied@ == old(self).applied@,
    {
        self.asked = DrainAsk::Rollback;
        self.failed = true;
    }

    /// Takes the answer to what was asked last. What is asked next is in `asked`.
    pub fn step(&mut self, reply: DrainReply)
        requires
            old(self).wf(),
            old(self)@.expects(reply@, old(self).batch),
        ensures
            final(self).wf(),
            final(self).batch == old(self).batch,
            final(self)@ == old(self)@.after(reply@, old(self).batch),
    {
        assert(self.batch.entries.len() == self.batch.entries@.len());
        match (self.asked, reply) {
            (DrainAsk::Begin, DrainReply::Failed) => {
                self.asked = DrainAsk::Finished;
                self.failed = true;
            },
            (DrainAsk::Begin, _) => {
                self.asked = DrainAsk::ReadDirectives;
            },
            (DrainAsk::ReadDirectives, DrainReply::Directives(directives)) => {
                self.directives = directives;
                self.go_on();
                assert(self.results@ =~= Seq::<StepResult>::empty());
            },
            (DrainAsk::Run { at, step }, DrainReply::Step(result)) => {
                match after_step(step, result) {
                    AfterStep::Continue(times) => {
                        let ghost earlier = self.results@;
                        self.results.push(result);
                        assert(self.results@.drop_last() =~= earlier);
                        if let Some(times) = times {
                            let ino: i64 = self.batch.entries[at].ino;
                            self.applied.push((ino, times));
                        }
                        self.go_on();
                    },
                    AfterStep::Rollback => {
                        self.roll_back();
                    },
                }
            },
            (DrainAsk::Commit, DrainReply::Failed) => {
                self.roll_back();
            },
            (DrainAsk::Commit, _) => {
                self.asked = DrainAsk::Settle;
            },
            _ => {
                self.asked = DrainAsk::Finished;
            },
        }
    }
}

/// How the commit of an inode treats its times.
pub open spec fn directive_of(model: BatcherModel, ino: i64) -> CommitDirective {
    CommitDirective {
        preserve_times: model.pending.contains_key(ino) && model.pending[ino].times_explicit,
        times: model.times_of(ino),
    }
}

impl AgentFSWriteBatcher {
    /// How the commit of a batch treats the times of its inodes. To be read when the transaction
    /// holds the write lock of the database: whatever was set before is then part of it.
    pub fn commit_directives(&self, batch: &DrainBatch) -> (directives: Vec<CommitDirective>)
        ensures
            directives@.len() == batch.entries@.len(),
            forall|i: int|
                0 <= i < batch.entries@.len() ==> #[trigger] directives@[i] == directive_of(
                    self@,
                    batch.entries@[i].ino,
                ),
    {
        let mut directives: Vec<CommitDirective> = Vec::new();
        let mut i: usize = 0;
        while i < batch.entries.len()
            invariant
                i <= batch.entries@.len(),
                directives@.len() == i,
                forall|k: int|
                    0 <= k < i ==> #[trigger] directives@[k] == directive_of(
                        self@,
                        batch.entries@[k].ino,
                    ),
            decreases batch.entries@.len() - i,
        {
            directives.push(self.commit_directive(batch.entries[i].ino));
            i += 1;
        }
        directives
    }

    /// Ends a drain whose transaction is durable: drops exactly the committed ranges and the times
    /// that its steps applied, and keeps whatever was queued since.
    pub fn finish_drain(&mut self, drain: &Drain) -> (action: FinishAction)
        requires
            old(self).wf(),
            drain.wf(),
            drain.asked is Settle,
            old(self)@.room(
                drain.applied@.len() + drain.batch.entries@.len() + old(self)@.pending.dom().len(),
            ),
        ensures
            final(self).wf(),
            final(self).same_limits(*old(self)),
            ({
                let applied = drain.batch.applied_by(drain.directives@, drain.results@);
                let committed = drain.batch.committed();
                let left = old(self)@.all_times_cleared(applied).prefixes_removed(committed);
                let count = drain.batch.entries@.len() as int;
                &&& exists|order: Seq<i64>|
                    {
                        &&& order.no_duplicates()
                        &&& order.to_set() == left.pending.dom()
                        &&& final(self)@ == #[trigger] old(self)@.drained(applied, committed, order)
                    }
                &&& action.invalidate@.len() >= count
                &&& action.invalidate@.take(count) == drain.batch.inos()
                &&& forall|ino: i64|
                    #![trigger action.invalidate@.skip(count).contains(ino)]
                    action.invalidate@.skip(count).contains(ino) <==> left.pending.contains_key(ino)
                        && left.pending[ino].drained()
                &&& !action.schedule_drain
            }),
    {
        self.drop_committed(&drain.batch, &drain.applied)
    }
}

/// The queue is settled exactly when the commit has succeeded. After a failure it is not touched.
pub proof fn only_a_committed_drain_is_settled(
    batch: DrainBatch,
    state: DrainState,
    reply: ReplyModel,
)
    requires
        state.wf(batch),
        state.expects(reply, batch),
    ensures
        state.after(reply, batch).wf(batch),
        state.after(reply, batch).asked is Settle <==> state.asked is Commit && reply is Done,
        state.failed ==> state.after(reply, batch).asked is Finished,
        !state.failed && state.after(reply, batch).failed ==> state.after(reply, batch).asked
            is Rollback || state.asked is Begin,
{
    assert(batch.entries.len() == batch.entries@.len());
}

/// Stashed times become part of the transaction exactly where the step of their inode succeeded:
/// not for an inode that is missing, and for each that had times.
pub proof fn times_are_applied_where_a_step_succeeded(
    batch: DrainBatch,
    directives: Seq<CommitDirective>,
    results: Seq<StepResult>,
    ino: i64,
    times: PendingTimeChange,
)
    requires
        results.len() <= batch.entries@.len(),
    ensures
        batch.applied_by(directives, results).contains((ino, times)) <==> exists|at: int|
            0 <= at < results.len() && (#[trigger] batch.entries@[at]).ino == ino && results[at]
                == StepResult::Done && directives[at].times == Some(times),
    decreases results.len(),
{
    if results.len() > 0 {
        let last = results.len() - 1;
        let rest = results.drop_last();
        let earlier = batch.applied_by(directives, rest);
        let all = batch.applied_by(directives, results);
        times_are_applied_where_a_step_succeeded(batch, directives, rest, ino, times);
        if earlier.contains((ino, times)) {
            let k = earlier.index_of((ino, times));
            assert(all[k] == (ino, times));
            let at = choose|at: int|
                0 <= at < rest.len() && (#[trigger] batch.entries@[at]).ino == ino && rest[at]
                    == StepResult::Done && directives[at].times == Some(times);
            assert(results[at] == rest[at]);
            assert(batch.entries@[at].ino == ino);
        }
        let goes_on = continued(batch.step_at(directives, last), results.last());
        if let AfterStep::Continue(Some(found)) = goes_on {
            assert(all.last() == (batch.entries@[last].ino, found));
            if all.contains((ino, times)) && !earlier.contains((ino, times)) {
                let k = all.index_of((ino, times));
                if k < earlier.len() {
                    assert(earlier[k] == (ino, times));
                }
                assert(batch.entries@[last].ino == ino);
            }
        }
        if exists|at: int|
            0 <= at < results.len() && (#[trigger] batch.entries@[at]).ino == ino && results[at]
                == StepResult::Done && directives[at].times == Some(times) {
            let at = choose|at: int|
                0 <= at < results.len() && (#[trigger] batch.entries@[at]).ino == ino
                    && results[at] == StepResult::Done && directives[at].times == Some(times);
            if at < last {
                assert(rest[at] == results[at]);
                assert(batch.entries@[at].ino == ino);
                assert(earlier.contains((ino, times)));
            } else {
                assert(all[all.len() - 1] == (ino, times));
            }
        }
    }
}

/// The counters after one inode with data was drained.
pub open spec fn ticked(
    core: CoreCounters,
    reason: AgentFSWriteBatchDrainReason,
    merged: u64,
) -> CoreCounters {
    let core = if merged > 0 {
        CoreCounters {
            agentfs_batcher_coalesced_ranges: core.agentfs_batcher_coalesced_ranges.plus(merged),
            ..core
        }
    } else {
        core
    };
    match reason {
        AgentFSWriteBatchDrainReason::Timer => CoreCounters {
            agentfs_batcher_drains_timer: core.agentfs_batcher_drains_timer.plus_one(),
            ..core
        },
        AgentFSWriteBatchDrainReason::Bytes => CoreCounters {
            agentfs_batcher_drains_bytes: core.agentfs_batcher_drains_bytes.plus_one(),
            ..core
        },
        AgentFSWriteBatchDrainReason::Explicit => CoreCounters {
            agentfs_batcher_drains_explicit: core.agentfs_batcher_drains_explicit.plus_one(),
            ..core
        },
    }
}

/// The counters after entries were drained. Those without data are not counted.
pub open spec fn counted(
    core: CoreCounters,
    entries: Seq<DrainEntry>,
    reason: AgentFSWriteBatchDrainReason,
) -> CoreCounters
    decreases entries.len(),
{
    if entries.len() == 0 {
        core
    } else {
        let earlier = counted(core, entries.drop_last(), reason);
        let last = entries.last();
        if last.runs@.len() > 0 {
            ticked(earlier, reason, last.merged() as u64)
        } else {
            earlier
        }
    }
}

/// How many entries have data.
pub open spec fn with_data(entries: Seq<DrainEntry>) -> nat
    decreases entries.len(),
{
    if entries.len() == 0 {
        0
    } else {
        with_data(entries.drop_last()) + if entries.last().runs@.len() > 0 {
            1nat
        } else {
            0
        }
    }
}

/// Counts a drain: its reason once for each inode with data, and how many ranges were merged away.
pub fn record_drain(
    telemetry: &mut Telemetry,
    batch: &DrainBatch,
    reason: AgentFSWriteBatchDrainReason,
)
    ensures
        *final(telemetry) == if old(telemetry).enabled {
            Telemetry {
                core: counted(old(telemetry).core, batch.entries@, reason),
                ..*old(telemetry)
            }
        } else {
            *old(telemetry)
        },
{
    let ghost start = *telemetry;
    let ghost all = batch.entries@;
    let mut i: usize = 0;
    assert(all.take(0) =~= Seq::<DrainEntry>::empty());
    while i < batch.entries.len()
        invariant
            i <= batch.entries@.len(),
            all == batch.entries@,
            *telemetry == if start.enabled {
                Telemetry { core: counted(start.core, all.take(i as int), reason), ..start }
            } else {
                start
            },
        decreases batch.entries@.len() - i,
    {
        let entry: &DrainEntry = &batch.entries[i];
        proof {
            assert(all.take(i + 1).drop_last() =~= all.take(i as int));
            assert(all.take(i + 1).last() == *entry);
        }
        if entry.runs.len() > 0 {
            let merged: u64 = entry.coalesced() as u64;
            record_agentfs_batcher_coalesced_ranges(telemetry, merged);
            match reason {
                AgentFSWriteBatchDrainReason::Timer => {
                    record_agentfs_batcher_drain_timer(telemetry);
                },
                AgentFSWriteBatchDrainReason::Bytes => {
                    record_agentfs_batcher_drain_bytes(telemetry);
                },
                AgentFSWriteBatchDrainReason::Explicit => {
                    record_agentfs_batcher_drain_explicit(telemetry);
                },
            }
        }
        i += 1;
    }
    assert(all.take(i as int) =~= all);
}

/// A drain ticks the counter of its reason once for each inode with data, and no other of them.
pub proof fn a_drain_ticks_its_reason(
    core: CoreCounters,
    entries: Seq<DrainEntry>,
    reason: AgentFSWriteBatchDrainReason,
)
    ensures
        ({
            let after = counted(core, entries, reason);
            let n = with_data(entries);
            &&& after.agentfs_batcher_drains_timer.value == if reason is Timer {
                wrapped(core.agentfs_batcher_drains_timer.value + n)
            } else {
                core.agentfs_batcher_drains_timer.value
            }
            &&& after.agentfs_batcher_drains_bytes.value == if reason is Bytes {
                wrapped(core.agentfs_batcher_drains_bytes.value + n)
            } else {
                core.agentfs_batcher_drains_bytes.value
            }
            &&& after.agentfs_batcher_drains_explicit.value == if reason is Explicit {
                wrapped(core.agentfs_batcher_drains_explicit.value + n)
            } else {
                core.agentfs_batcher_drains_explicit.value
            }
        }),
    decreases entries.len(),
{
    let timer = core.agentfs_batcher_drains_timer.value as int;
    let bytes = core.agentfs_batcher_drains_bytes.value as int;
    let explicit = core.agentfs_batcher_drains_explicit.value as int;
    if entries.len() > 0 {
        let rest = entries.drop_last();
        let n = with_data(rest) as int;
        a_drain_ticks_its_reason(core, rest, reason);
        lemma_ticked(counted(core, rest, reason), reason, entries.last().merged() as u64);
        lemma_wraps(timer + n);
        lemma_wraps(bytes + n);
        lemma_wraps(explicit + n);
    } else {
        assert(wrapped(timer) == timer && wrapped(bytes) == bytes && wrapped(explicit) == explicit);
    }
}

proof fn lemma_wraps(n: int)
    ensures
        wrapped(wrapped(n) + 1) == wrapped(n + 1),
{
    vstd::arithmetic::div_mod::lemma_mod_bound(n, 0x1_0000_0000_0000_0000);
    vstd::arithmetic::div_mod::lemma_add_mod_noop(n, 1, 0x1_0000_0000_0000_0000);
}

proof fn lemma_ticked(core: CoreCounters, reason: AgentFSWriteBatchDrainReason, merged: u64)
    ensures
        ({
            let after = ticked(core, reason, merged);
            &&& after.agentfs_batcher_drains_timer == if reason is Timer {
                core.agentfs_batcher_drains_timer.plus_one()
            } else {
                core.agentfs_batcher_drains_timer
            }
            &&& after.agentfs_batcher_drains_bytes == if reason is Bytes {
                core.agentfs_batcher_drains_bytes.plus_one()
            } else {
                core.agentfs_batcher_drains_bytes
            }
            &&& after.agentfs_batcher_drains_explicit == if reason is Explicit {
                core.agentfs_batcher_drains_explicit.plus_one()
            } else {
                core.agentfs_batcher_drains_explicit
            }
        }),
{
}

} // verus!
