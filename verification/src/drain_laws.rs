//! What a drain takes along, and what it leaves.
use crate::batcher::AgentFSWriteBatcher;
use crate::batcher_state::BatcherModel;
use crate::drain::{
    DrainBatch, Selection, drain_makes_progress, lemma_select, required_inode_is_selected, select,
    selection_respects_byte_bound,
};
use crate::drain_steps::{Drain, DrainReply};
use crate::error::Error;
use crate::pending::PendingModel;
use crate::ranges::{range_models, written_byte};
use crate::waiting_laws::waiting_times;
use crate::write_laws::{is_last_at, the_last_write_decides_a_byte, waiting};
use vstd::prelude::*;

verus! {

/// Whether anything waits for a file: writes or times.
pub open spec fn has_work(batcher: AgentFSWriteBatcher, ino: i64) -> bool {
    waiting(batcher, ino).len() > 0 || waiting_times(batcher, ino) is Some
}

/// A drain takes files along for which something waits, each once and within its bounds, and
/// the one that is asked for first. Where it does not say that there is more, it takes all.
pub proof fn a_drain_takes_what_waits(
    batcher: AgentFSWriteBatcher,
    required: Option<i64>,
    batch: DrainBatch,
    i: int,
    j: int,
    ino: i64,
)
    requires
        batcher.wf(),
        call_ensures(
            AgentFSWriteBatcher::begin_drain,
            (&batcher, required),
            Ok::<DrainBatch, Error>(batch),
        ),
    ensures
        0 <= i < batch.entries@.len() ==> has_work(batcher, batch.entries@[i].ino),
        0 <= i < j < batch.entries@.len() ==> batch.entries@[i].ino != batch.entries@[j].ino,
        batch.entries@.len() <= batcher.txn_max_inodes,
        required == Some(ino) && has_work(batcher, ino) ==> batch.entries@.len() > 0
            && batch.entries@[0].ino == ino,
        has_work(batcher, ino) ==> batch.entries@.len() > 0,
        has_work(batcher, ino) && !batch.more_pending ==> batch.inos().contains(ino),
{
    let pending = batcher@.pending;
    let order = choose|order: Seq<i64>|
        {
            &&& order.no_duplicates()
            &&& order.to_set() == pending.dom()
            &&& batch.realizes(
                #[trigger] select(
                    pending,
                    order,
                    required,
                    batcher.txn_max_inodes as nat,
                    batcher.txn_max_bytes as nat,
                ),
                pending,
            )
        };
    let chosen: Selection = select(
        pending,
        order,
        required,
        batcher.txn_max_inodes as nat,
        batcher.txn_max_bytes as nat,
    );
    lemma_select(
        pending,
        order,
        required,
        batcher.txn_max_inodes as nat,
        batcher.txn_max_bytes as nat,
    );
    assert(batch.inos().len() == batch.entries@.len());
    if 0 <= i < batch.entries@.len() {
        assert(batch.inos()[i] == batch.entries@[i].ino);
        assert(pending.contains_key(chosen.inos[i]));
    }
    if 0 <= j < batch.entries@.len() {
        assert(batch.inos()[j] == batch.entries@[j].ino);
    }
    if has_work(batcher, ino) {
        assert(pending.contains_key(ino) && !pending[ino].drained());
        assert(order.to_set().contains(ino));
        drain_makes_progress(
            pending,
            order,
            required,
            batcher.txn_max_inodes as nat,
            batcher.txn_max_bytes as nat,
            ino,
        );
        assert(batch.inos()[0] == batch.entries@[0].ino);
        if required == Some(ino) {
            required_inode_is_selected(
                pending,
                order,
                ino,
                batcher.txn_max_inodes as nat,
                batcher.txn_max_bytes as nat,
            );
        } else if !batch.more_pending {
            assert(order.contains(ino));
        }
    }
}

/// What a drain writes for a file is, at each byte, the last of the writes that wait for it,
/// and it counts them all.
pub proof fn a_drain_writes_the_last_of_what_waits(
    batcher: AgentFSWriteBatcher,
    required: Option<i64>,
    batch: DrainBatch,
    i: int,
    at: int,
    run: int,
    pos: int,
)
    requires
        batcher.wf(),
        call_ensures(
            AgentFSWriteBatcher::begin_drain,
            (&batcher, required),
            Ok::<DrainBatch, Error>(batch),
        ),
        0 <= i < batch.entries@.len(),
    ensures
        ({
            let entry = batch.entries@[i];
            let all = waiting(batcher, entry.ino);
            &&& entry.count == all.len()
            &&& is_last_at(all, at, pos) && is_last_at(range_models(entry.runs@), run, pos)
                ==> entry.runs@[run].data@[pos - entry.runs@[run].offset] == all[at].bytes[pos
                - all[at].offset]
            &&& is_last_at(all, at, pos) ==> written_byte(range_models(entry.runs@), pos) is Some
            &&& is_last_at(range_models(entry.runs@), run, pos) ==> written_byte(all, pos) is Some
        }),
{
    a_drain_takes_what_waits(batcher, required, batch, i, i, 0);
    let entry = batch.entries@[i];
    let all = waiting(batcher, entry.ino);
    let runs = range_models(entry.runs@);
    assert(entry.stands_for(batcher@.pending[entry.ino]));
    assert(all == batcher@.pending[entry.ino].ranges);
    the_last_write_decides_a_byte(all, at, pos);
    the_last_write_decides_a_byte(runs, run, pos);
    assert(written_byte(runs, pos) == written_byte(all, pos));
    if is_last_at(runs, run, pos) {
        assert(runs[run] == entry.runs@[run]@);
    }
}

/// How many bytes wait for some files together.
pub open spec fn bytes_of(pending: Map<i64, PendingModel>, inos: Seq<i64>) -> nat
    decreases inos.len(),
{
    if inos.len() == 0 {
        0
    } else {
        bytes_of(pending, inos.drop_last()) + pending[inos.last()].pending_bytes
    }
}

proof fn lemma_bytes_add_up(
    pending: Map<i64, PendingModel>,
    order: Seq<i64>,
    required: Option<i64>,
    max_inodes: nat,
    max_bytes: nat,
)
    ensures
        ({
            let chosen = select(pending, order, required, max_inodes, max_bytes);
            let sum = bytes_of(pending, chosen.inos);
            chosen.bytes == if sum > usize::MAX {
                usize::MAX as nat
            } else {
                sum
            }
        }),
    decreases order.len(),
{
    let chosen = select(pending, order, required, max_inodes, max_bytes);
    reveal_with_fuel(bytes_of, 2);
    if order.len() == 0 {
        if chosen.inos.len() > 0 {
            assert(chosen.inos.drop_last() =~= Seq::<i64>::empty());
        }
    } else {
        lemma_bytes_add_up(pending, order.drop_last(), required, max_inodes, max_bytes);
        let before = select(pending, order.drop_last(), required, max_inodes, max_bytes);
        if chosen.inos != before.inos {
            assert(chosen.inos.drop_last() =~= before.inos);
            assert(chosen.inos.last() == order.last());
        }
    }
}

proof fn lemma_something_left_out(
    pending: Map<i64, PendingModel>,
    order: Seq<i64>,
    required: Option<i64>,
    max_inodes: nat,
    max_bytes: nat,
) -> (left: i64)
    requires
        order.no_duplicates(),
        max_inodes >= 1,
        select(pending, order, required, max_inodes, max_bytes).truncated,
    ensures
        order.contains(left),
        pending.contains_key(left),
        !pending[left].drained(),
        !select(pending, order, required, max_inodes, max_bytes).inos.contains(left),
    decreases order.len(),
{
    let head = order.drop_last();
    let before = select(pending, head, required, max_inodes, max_bytes);
    assert forall|k: int, l: int| 0 <= k < l < head.len() implies head[k] != head[l] by {
        assert(order[k] != order[l]);
    }
    if before.truncated {
        let left = lemma_something_left_out(pending, head, required, max_inodes, max_bytes);
        let k = choose|k: int| 0 <= k < head.len() && head[k] == left;
        assert(order[k] == left);
        left
    } else {
        let last = order.last();
        assert(order[order.len() - 1] == last);
        lemma_select(pending, head, required, max_inodes, max_bytes);
        if before.inos.contains(last) {
            let i = choose|i: int| 0 <= i < before.inos.len() && before.inos[i] == last;
            assert(pending.contains_key(before.inos[i]));
            let k = choose|k: int| 0 <= k < head.len() && head[k] == last;
            assert(order[k] == last);
        }
        last
    }
}

/// A drain of more than one file takes no more bytes along than one commit may, and says that
/// there is more only where it left a file behind.
pub proof fn a_drain_keeps_to_its_bounds(
    batcher: AgentFSWriteBatcher,
    required: Option<i64>,
    batch: DrainBatch,
)
    requires
        batcher.wf(),
        batcher.txn_max_bytes < usize::MAX,
        call_ensures(
            AgentFSWriteBatcher::begin_drain,
            (&batcher, required),
            Ok::<DrainBatch, Error>(batch),
        ),
    ensures
        batch.entries@.len() > 1 ==> bytes_of(batcher@.pending, batch.inos())
            <= batcher.txn_max_bytes,
        batch.more_pending ==> exists|ino: i64|
            #![trigger has_work(batcher, ino)]
            has_work(batcher, ino) && !batch.inos().contains(ino),
{
    let pending = batcher@.pending;
    let inodes = batcher.txn_max_inodes as nat;
    let bytes = batcher.txn_max_bytes as nat;
    let order = choose|order: Seq<i64>|
        {
            &&& order.no_duplicates()
            &&& order.to_set() == pending.dom()
            &&& batch.realizes(
                #[trigger] select(
                    pending,
                    order,
                    required,
                    batcher.txn_max_inodes as nat,
                    batcher.txn_max_bytes as nat,
                ),
                pending,
            )
        };
    assert(batch.inos().len() == batch.entries@.len());
    lemma_bytes_add_up(pending, order, required, inodes, bytes);
    selection_respects_byte_bound(pending, order, required, inodes, bytes);
    if batch.more_pending {
        let left = lemma_something_left_out(pending, order, required, inodes, bytes);
        assert(has_work(batcher, left));
    }
}

/// A drain begins a transaction, asks once how times are to be treated, runs one step for each
/// file in turn, and commits when all have run. A step that fails rolls it back, unless the
/// file whose writes it had is gone, and so does a commit that fails. Only what was committed
/// is settled.
pub proof fn a_drain_runs_every_file_before_it_commits(drain: &mut Drain, reply: DrainReply)
    requires
        old(drain).wf(),
        old(drain)@.expects(reply@, old(drain).batch),
        call_ensures(Drain::step, (drain, reply), ()),
    ensures
        ({
            let asked = old(drain).asked;
            let next = final(drain).asked;
            let files = old(drain).batch.entries@.len();
            let ran = final(drain).results@.len();
            let goes_on = reply->Step_0 is Done || asked->step is Skip || (asked->step is WriteRuns
                && reply->Step_0 is InodeMissing);
            &&& asked is Begin && reply is Done ==> next is ReadDirectives
            &&& asked is Begin && reply is Failed ==> next is Finished && final(drain).failed
            &&& asked is ReadDirectives ==> next is Run && next->at == 0
                && final(drain).directives@ == reply->Directives_0@
            &&& asked is Run && !goes_on ==> next is Rollback
                && final(drain).failed
            &&& asked is Run && goes_on ==> {
                &&& ran == old(drain).results@.len() + 1
                &&& final(drain).results@.last() == reply->Step_0
                &&& ran < files ==> next is Run && next->at == ran
                &&& ran == files ==> next is Commit
            }
            &&& asked is Commit && reply is Done ==> next is Settle
            &&& asked is Commit && reply is Failed ==> next is Rollback && final(drain).failed
            &&& asked is Rollback || asked is Settle ==> next is Finished
            &&& next is Settle ==> asked is Commit && reply is Done && !final(drain).failed
            &&& next is Commit ==> ran == files
        }),
        final(drain).batch == old(drain).batch,
{
}

/// Writes that were committed wait no longer. Those that were queued behind them, the times,
/// and what waits for other files wait on.
pub proof fn what_was_committed_waits_no_longer(
    model: BatcherModel,
    ino: i64,
    count: nat,
    other: i64,
)
    requires
        model.wf(),
        model.pending.contains_key(ino),
        count <= model.pending[ino].ranges.len(),
        other != ino,
    ensures
        ({
            let after = model.prefix_removed(ino, count);
            let left = model.pending[ino].ranges.skip(count as int);
            &&& after.pending.contains_key(ino) ==> after.pending[ino].ranges == left
                && after.pending[ino].pending_times == model.pending[ino].pending_times
            &&& !after.pending.contains_key(ino) ==> left.len() == 0
                && model.pending[ino].pending_times is None
            &&& after.pending.contains_key(other) == model.pending.contains_key(other)
            &&& model.pending.contains_key(other) ==> after.pending[other] == model.pending[other]
        }),
{
    if count == 0 {
        assert(model.pending[ino].ranges.skip(0) =~= model.pending[ino].ranges);
    }
}

} // verus!
