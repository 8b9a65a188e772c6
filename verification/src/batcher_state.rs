//! State of the group-commit queue: pending entries, byte total and generations.
//!
//! Every change of the pending state of an inode gives it a new generation. A
//! reader that caches attributes compares the generation it saw before it read the
//! database with the current one.
use crate::pending::{PendingInodeWrites, PendingModel};
use std::collections::HashMap;
use vstd::prelude::*;

verus! {

broadcast use vstd::std_specs::hash::group_hash_axioms;

/// How many retired generations are remembered.
pub const MAX_RETIRED_GENERATIONS: usize = 16384;

/// Version of the pending state of one inode.
#[derive(Debug, Clone, Copy, PartialEq, Eq, Structural)]
pub struct PendingGeneration {
    pub value: u64,
}

/// The last generation of an inode that has nothing pending any more.
#[derive(Debug, Clone, Copy, PartialEq, Eq, Structural)]
pub struct RetiredGeneration {
    pub generation: u64,
    pub retired_at: u64,
}

/// Pending state of all inodes.
pub struct AgentFSWriteBatcherState {
    pub pending: HashMap<i64, PendingInodeWrites>,
    pub retired_generations: HashMap<i64, RetiredGeneration>,
    /// Generation reported for an inode without any remembered generation. Only
    /// pruning advances it.
    pub pruned_generation_watermark: u64,
    pub last_generation: u64,
    /// Logical time of retirement, used to bound the remembered generations.
    pub retired_generation_epoch: u64,
    /// Sum of the pending bytes of all inodes.
    pub total_pending_bytes: usize,
    /// Set while the drain scheduler runs.
    pub drain_scheduled: bool,
}

/// The state of the batcher as a mathematical value.
#[verifier::ext_equal]
pub struct BatcherModel {
    pub pending: Map<i64, PendingModel>,
    pub retired: Map<i64, RetiredGeneration>,
    pub watermark: u64,
    pub last_generation: u64,
    pub epoch: u64,
    pub total: nat,
    pub drain_scheduled: bool,
}

impl View for AgentFSWriteBatcherState {
    type V = BatcherModel;

    open spec fn view(&self) -> BatcherModel {
        BatcherModel {
            pending: self.pending@.map_values(|entry: PendingInodeWrites| entry@),
            retired: self.retired_generations@,
            watermark: self.pruned_generation_watermark,
            last_generation: self.last_generation,
            epoch: self.retired_generation_epoch,
            total: self.total_pending_bytes as nat,
            drain_scheduled: self.drain_scheduled,
        }
    }
}

/// Sum of the pending bytes of all entries.
pub open spec fn sum_bytes(pending: Map<i64, PendingModel>) -> nat
    decreases pending.dom().len(),
    when pending.dom().finite()
{
    if pending.dom().len() == 0 {
        0
    } else {
        let ino = pending.dom().choose();
        pending[ino].pending_bytes + sum_bytes(pending.remove(ino))
    }
}

pub proof fn lemma_sum_remove(pending: Map<i64, PendingModel>, ino: i64)
    requires
        pending.dom().finite(),
        pending.contains_key(ino),
    ensures
        sum_bytes(pending) == pending[ino].pending_bytes + sum_bytes(pending.remove(ino)),
    decreases pending.dom().len(),
{
    let first = pending.dom().choose();
    assert(pending.dom().contains(ino));
    if first != ino {
        let rest = pending.remove(first);
        lemma_sum_remove(rest, ino);
        assert(rest.remove(ino) =~= pending.remove(ino).remove(first));
        lemma_sum_remove(pending.remove(ino), first);
    }
}

pub proof fn lemma_sum_insert(pending: Map<i64, PendingModel>, ino: i64, entry: PendingModel)
    requires
        pending.dom().finite(),
    ensures
        sum_bytes(pending.insert(ino, entry)) == entry.pending_bytes + sum_bytes(
            pending.remove(ino),
        ),
{
    let all = pending.insert(ino, entry);
    lemma_sum_remove(all, ino);
    assert(all.remove(ino) =~= pending.remove(ino));
}

/// The entry that retired first.
pub open spec fn oldest(retired: Map<i64, RetiredGeneration>) -> i64 {
    choose|ino: i64|
        retired.contains_key(ino) && forall|other: i64| #[trigger]
            retired.contains_key(other) ==> retired[ino].retired_at <= retired[other].retired_at
}

/// The remembered generations after the oldest ones beyond `limit` were forgotten.
pub open spec fn pruned(retired: Map<i64, RetiredGeneration>, limit: nat) -> Map<
    i64,
    RetiredGeneration,
>
    decreases retired.dom().len(),
{
    if retired.dom().finite() && retired.dom().len() > limit && retired.contains_key(
        oldest(retired),
    ) {
        pruned(retired.remove(oldest(retired)), limit)
    } else {
        retired
    }
}

impl BatcherModel {
    /// Nothing pending, nothing remembered.
    pub open spec fn initial() -> BatcherModel {
        BatcherModel {
            pending: Map::empty(),
            retired: Map::empty(),
            watermark: 0,
            last_generation: 0,
            epoch: 0,
            total: 0,
            drain_scheduled: false,
        }
    }

    /// The invariant of the batcher: the byte total is the sum over the entries,
    /// no generation lies ahead of the counter, the remembered generations are
    /// bounded and retired at different times, and pending work always has a
    /// scheduler to commit it.
    pub open spec fn wf(self) -> bool {
        &&& self.pending.dom().finite()
        &&& self.retired.dom().finite()
        &&& forall|ino: i64| #[trigger]
            self.pending.contains_key(ino) ==> self.pending[ino].wf()
                && self.pending[ino].generation <= self.last_generation
        &&& forall|ino: i64| #[trigger]
            self.retired.contains_key(ino) ==> self.retired[ino].generation <= self.last_generation
                && self.retired[ino].retired_at <= self.epoch
        &&& forall|a: i64, b: i64| #[trigger]
            self.retired.contains_key(a) && #[trigger] self.retired.contains_key(b) && a != b
                ==> self.retired[a].retired_at != self.retired[b].retired_at
        &&& self.retired.dom().len() <= MAX_RETIRED_GENERATIONS
        &&& self.watermark <= self.last_generation
        &&& self.total == sum_bytes(self.pending)
    }

    /// Pending work has a scheduler to commit it.
    pub open spec fn never_stranded(self) -> bool {
        self.pending.dom().len() > 0 ==> self.drain_scheduled
    }

    /// The version that readers compare before they cache attributes.
    pub open spec fn generation(self, ino: i64) -> u64 {
        if self.pending.contains_key(ino) {
            self.pending[ino].generation
        } else if self.retired.contains_key(ino) {
            self.retired[ino].generation
        } else {
            self.watermark
        }
    }

    /// The next generation, taken.
    pub open spec fn advanced(self) -> BatcherModel {
        BatcherModel { last_generation: (self.last_generation + 1) as u64, ..self }
    }

    /// `ino` retired with `generation`, and the oldest remembered entry forgotten if
    /// there are too many.
    pub open spec fn with_retired(self, ino: i64, generation: u64) -> BatcherModel {
        let epoch = (self.epoch + 1) as u64;
        let all = self.retired.insert(ino, RetiredGeneration { generation, retired_at: epoch });
        BatcherModel {
            retired: pruned(all, MAX_RETIRED_GENERATIONS as nat),
            watermark: if all.dom().len() > MAX_RETIRED_GENERATIONS {
                self.last_generation
            } else {
                self.watermark
            },
            epoch,
            ..self
        }
    }

    /// `ino` with a new generation: that of its entry, or a remembered one without an entry.
    pub open spec fn bumped(self, ino: i64) -> BatcherModel {
        let generation = (self.last_generation + 1) as u64;
        if self.pending.contains_key(ino) {
            BatcherModel {
                pending: self.pending.insert(ino, self.pending[ino].with_generation(generation)),
                ..self.advanced()
            }
        } else {
            self.advanced().with_retired(ino, generation)
        }
    }

    /// Both counters can advance `n` more times.
    pub open spec fn room(self, n: nat) -> bool {
        self.last_generation + n <= u64::MAX && self.epoch + n <= u64::MAX
    }

    /// The entry of `ino`, or a fresh one with the next generation.
    pub open spec fn entry_or_fresh(self, ino: i64) -> PendingModel {
        if self.pending.contains_key(ino) {
            self.pending[ino]
        } else {
            PendingModel::fresh((self.last_generation + 1) as u64)
        }
    }
}

proof fn lemma_oldest_exists(retired: Map<i64, RetiredGeneration>)
    requires
        retired.dom().finite(),
        retired.dom().len() > 0,
    ensures
        exists|ino: i64|
            retired.contains_key(ino) && forall|other: i64| #[trigger]
                retired.contains_key(other) ==> retired[ino].retired_at
                    <= retired[other].retired_at,
    decreases retired.dom().len(),
{
    let first = retired.dom().choose();
    let rest = retired.remove(first);
    if rest.dom().len() > 0 {
        lemma_oldest_exists(rest);
        let best = choose|ino: i64|
            rest.contains_key(ino) && forall|other: i64| #[trigger]
                rest.contains_key(other) ==> rest[ino].retired_at <= rest[other].retired_at;
        let winner = if retired[first].retired_at <= retired[best].retired_at {
            first
        } else {
            best
        };
        assert forall|other: i64| #[trigger] retired.contains_key(other) implies
            retired[winner].retired_at <= retired[other].retired_at by {
            if other != first {
                assert(rest.contains_key(other));
            }
        }
        assert(retired.contains_key(winner));
    } else {
        assert forall|other: i64| #[trigger] retired.contains_key(other) implies
            retired[first].retired_at <= retired[other].retired_at by {
            if other != first {
                assert(rest.dom().contains(other));
                assert(rest.dom() =~= Set::<i64>::empty());
            }
        }
        assert(retired.contains_key(first));
    }
}

/// Keys of a map, each once.
pub fn map_keys<V>(map: &HashMap<i64, V>) -> (keys: Vec<i64>)
    ensures
        keys@.no_duplicates(),
        keys@.to_set() == map@.dom(),
        keys@.len() == map@.dom().len(),
        map@.dom().finite(),
{
    let ghost all = vstd::std_specs::iter::IteratorSpec::remaining(
        &vstd::std_specs::hash::spec_keys_iter(map),
    );
    let mut keys: Vec<i64> = Vec::new();
    for key in it: map.keys()
        invariant
            it.seq() == all,
            keys@.len() == it.index(),
            forall|i: int| 0 <= i < keys@.len() ==> keys@[i] == *(#[trigger] all[i]),
    {
        keys.push(*key);
    }
    proof {
        assert(keys@ =~= all.unref());
        assert forall|i: int, j: int| 0 <= i < keys@.len() && 0 <= j < keys@.len() && i
            != j implies keys@[i] != keys@[j] by {
            assert(all[i] != all[j]);
        }
        vstd::seq_lib::seq_to_set_is_finite(keys@);
    }
    keys
}

/// No two entries retired at the same time.
pub open spec fn distinct_times(retired: Map<i64, RetiredGeneration>) -> bool {
    forall|a: i64, b: i64| #[trigger]
        retired.contains_key(a) && #[trigger] retired.contains_key(b) && a != b
            ==> retired[a].retired_at != retired[b].retired_at
}

proof fn lemma_oldest(retired: Map<i64, RetiredGeneration>)
    requires
        retired.dom().finite(),
        retired.dom().len() > 0,
    ensures
        retired.contains_key(oldest(retired)),
        forall|other: i64| #[trigger]
            retired.contains_key(other) ==> retired[oldest(retired)].retired_at
                <= retired[other].retired_at,
{
    lemma_oldest_exists(retired);
}

/// Forgetting keeps some of the entries as they were, and at most `limit` of them.
pub proof fn lemma_pruned(retired: Map<i64, RetiredGeneration>, limit: nat)
    requires
        retired.dom().finite(),
    ensures
        pruned(retired, limit).dom().finite(),
        pruned(retired, limit).dom().len() <= limit,
        forall|ino: i64| #[trigger]
            pruned(retired, limit).contains_key(ino) ==> retired.contains_key(ino)
                && pruned(retired, limit)[ino] == retired[ino],
        retired.dom().len() <= limit ==> pruned(retired, limit) == retired,
    decreases retired.dom().len(),
{
    if retired.dom().len() > limit {
        lemma_oldest(retired);
        lemma_pruned(retired.remove(oldest(retired)), limit);
    }
}

impl BatcherModel {
    /// The clauses of the invariant that speak of generations.
    pub open spec fn generations_wf(self) -> bool {
        &&& self.retired.dom().finite()
        &&& forall|ino: i64| #[trigger]
            self.retired.contains_key(ino) ==> self.retired[ino].generation <= self.last_generation
                && self.retired[ino].retired_at <= self.epoch
        &&& distinct_times(self.retired)
        &&& self.retired.dom().len() <= MAX_RETIRED_GENERATIONS
        &&& self.watermark <= self.last_generation
    }
}

pub proof fn lemma_with_retired(model: BatcherModel, ino: i64, generation: u64)
    requires
        model.generations_wf(),
        generation <= model.last_generation,
        model.epoch < u64::MAX,
    ensures
        model.with_retired(ino, generation).generations_wf(),
        model.with_retired(ino, generation).pending == model.pending,
        model.with_retired(ino, generation).epoch == model.epoch + 1,
        model.with_retired(ino, generation).last_generation == model.last_generation,
        model.with_retired(ino, generation).retired.contains_key(ino) ==> model.with_retired(
            ino,
            generation,
        ).retired[ino].generation == generation,
        model.watermark <= model.with_retired(ino, generation).watermark,
        forall|other: i64|
            #![trigger model.with_retired(ino, generation).generation(other)]
            other != ino ==> model.generation(other) <= model.with_retired(
                ino,
                generation,
            ).generation(other),
        generation <= model.with_retired(ino, generation).generation(ino)
            || model.pending.contains_key(ino),
{
    let epoch = (model.epoch + 1) as u64;
    let all = model.retired.insert(ino, RetiredGeneration { generation, retired_at: epoch });
    let next = model.with_retired(ino, generation);
    lemma_pruned(all, MAX_RETIRED_GENERATIONS as nat);
    assert forall|other: i64| #[trigger] next.retired.contains_key(other) implies
        next.retired[other].generation <= next.last_generation && next.retired[other].retired_at
        <= next.epoch by {
        assert(all.contains_key(other));
        if other != ino {
            assert(model.retired.contains_key(other));
        }
    }
    assert forall|a: i64, b: i64| #[trigger]
        next.retired.contains_key(a) && #[trigger] next.retired.contains_key(b) && a != b implies
        next.retired[a].retired_at != next.retired[b].retired_at by {
        assert(all.contains_key(a) && all.contains_key(b));
        if a != ino {
            assert(model.retired.contains_key(a));
        }
        if b != ino {
            assert(model.retired.contains_key(b));
        }
    }
    assert forall|other: i64|
        #![trigger next.generation(other)]
        other != ino implies model.generation(other) <= next.generation(other) by {
        if !model.pending.contains_key(other) {
            if model.retired.contains_key(other) {
                if !next.retired.contains_key(other) {
                    assert(all.contains_key(other));
                    assert(all.dom().len() > MAX_RETIRED_GENERATIONS);
                }
            } else {
                assert(!all.contains_key(other));
                assert(!next.retired.contains_key(other));
            }
        }
    }
    if !next.retired.contains_key(ino) {
        assert(all.contains_key(ino));
        assert(all.dom().len() > MAX_RETIRED_GENERATIONS);
    }
}

impl Default for AgentFSWriteBatcherState {
    fn default() -> (state: Self)
        ensures
            state@ == BatcherModel::initial(),
            state@.wf(),
            state@.never_stranded(),
    {
        AgentFSWriteBatcherState::new()
    }
}

impl AgentFSWriteBatcherState {
    /// An empty queue.
    pub fn new() -> (state: Self)
        ensures
            state@ == BatcherModel::initial(),
            state@.wf(),
            state@.never_stranded(),
    {
        let state = AgentFSWriteBatcherState {
            pending: HashMap::new(),
            retired_generations: HashMap::new(),
            pruned_generation_watermark: 0,
            last_generation: 0,
            retired_generation_epoch: 0,
            total_pending_bytes: 0,
            drain_scheduled: false,
        };
        assert(state@.pending =~= Map::<i64, PendingModel>::empty());
        state
    }

    /// The version of the pending state of `ino`.
    pub fn generation(&self, ino: i64) -> (generation: PendingGeneration)
        ensures
            generation.value == self@.generation(ino),
    {
        let value: u64 = match self.pending.get(&ino) {
            Some(entry) => entry.generation,
            None => match self.retired_generations.get(&ino) {
                Some(retired) => retired.generation,
                None => self.pruned_generation_watermark,
            },
        };
        PendingGeneration { value }
    }

    /// Takes the next generation.
    pub(crate) fn next_generation(&mut self) -> (generation: u64)
        requires
            old(self)@.last_generation < u64::MAX,
        ensures
            generation == old(self)@.last_generation + 1,
            final(self)@ == old(self)@.advanced(),
            final(self).pending@ == old(self).pending@,
    {
        self.last_generation = self.last_generation + 1;
        self.last_generation
    }

    pub(crate) fn oldest_retired(&self) -> (ino: i64)
        requires
            self.retired_generations@.dom().len() > 0,
            distinct_times(self.retired_generations@),
        ensures
            ino == oldest(self.retired_generations@),
            self.retired_generations@.contains_key(ino),
    {
        let ghost map = self.retired_generations@;
        let keys: Vec<i64> = map_keys(&self.retired_generations);
        let mut best: i64 = keys[0];
        proof {
            assert(keys@.to_set().contains(best));
        }
        let mut best_at: u64 = match self.retired_generations.get(&best) {
            Some(retired) => retired.retired_at,
            None => 0,
        };
        let mut i: usize = 1;
        while i < keys.len()
            invariant
                1 <= i <= keys@.len(),
                map == self.retired_generations@,
                keys@.to_set() == map.dom(),
                map.contains_key(best),
                best_at == map[best].retired_at,
                forall|k: int|
                    0 <= k < i ==> best_at <= map[#[trigger] keys@[k]].retired_at,
            decreases keys@.len() - i,
        {
            let key: i64 = keys[i];
            assert(keys@.to_set().contains(key));
            if let Some(retired) = self.retired_generations.get(&key) {
                if retired.retired_at < best_at {
                    best = key;
                    best_at = retired.retired_at;
                }
            }
            i += 1;
        }
        proof {
            assert forall|other: i64| #[trigger] map.contains_key(other) implies
                map[best].retired_at <= map[other].retired_at by {
                assert(keys@.to_set().contains(other));
                let k = choose|k: int| 0 <= k < keys@.len() && keys@[k] == other;
                assert(best_at <= map[keys@[k]].retired_at);
            }
            lemma_oldest(map);
        }
        best
    }

    /// Forgets the oldest remembered generations beyond the limit. When one is
    /// forgotten, inodes without a remembered generation report the latest one.
    pub(crate) fn prune_retired_generations(&mut self)
        requires
            distinct_times(old(self).retired_generations@),
        ensures
            final(self)@ == (BatcherModel {
                retired: pruned(old(self)@.retired, MAX_RETIRED_GENERATIONS as nat),
                watermark: if old(self)@.retired.dom().len() > MAX_RETIRED_GENERATIONS {
                    old(self)@.last_generation
                } else {
                    old(self)@.watermark
                },
                ..old(self)@
            }),
            final(self).pending@ == old(self).pending@,
    {
        let ghost before = self@;
        let mut pruned_any = false;
        while self.retired_generations.len() > MAX_RETIRED_GENERATIONS
            invariant
                before == old(self)@,
                distinct_times(self.retired_generations@),
                self.retired_generations@.dom().finite(),
                self@ == (BatcherModel { retired: self.retired_generations@, ..before }),
                self.pending@ == old(self).pending@,
                pruned(self.retired_generations@, MAX_RETIRED_GENERATIONS as nat) == pruned(
                    before.retired,
                    MAX_RETIRED_GENERATIONS as nat,
                ),
                pruned_any ==> before.retired.dom().len() > MAX_RETIRED_GENERATIONS,
                !pruned_any ==> self.retired_generations@ == before.retired,
            decreases self.retired_generations@.dom().len(),
        {
            let oldest_ino: i64 = self.oldest_retired();
            self.retired_generations.remove(&oldest_ino);
            pruned_any = true;
        }
        if pruned_any {
            self.pruned_generation_watermark = self.last_generation;
        }
    }

    /// Remembers `generation` for an inode that has nothing pending any more.
    pub(crate) fn retire_generation(&mut self, ino: i64, generation: u64)
        requires
            old(self)@.generations_wf(),
            old(self)@.epoch < u64::MAX,
            generation <= old(self)@.last_generation,
        ensures
            final(self)@ == old(self)@.with_retired(ino, generation),
            final(self)@.generations_wf(),
            final(self).pending@ == old(self).pending@,
    {
        proof {
            lemma_with_retired(self@, ino, generation);
        }
        let ghost before = self@;
        self.retired_generation_epoch = self.retired_generation_epoch + 1;
        let retired_at: u64 = self.retired_generation_epoch;
        self.retired_generations.insert(ino, RetiredGeneration { generation, retired_at });
        proof {
            let all = self.retired_generations@;
            assert forall|a: i64, b: i64| #[trigger]
                all.contains_key(a) && #[trigger] all.contains_key(b) && a != b implies
                all[a].retired_at != all[b].retired_at by {
                if a != ino {
                    assert(before.retired.contains_key(a));
                }
                if b != ino {
                    assert(before.retired.contains_key(b));
                }
            }
        }
        self.prune_retired_generations();
        assert(self@ =~= before.with_retired(ino, generation));
    }

    /// Gives the pending entry of `ino` a new generation, or remembers one for an
    /// inode without an entry.
    pub fn bump_generation(&mut self, ino: i64)
        requires
            old(self)@.wf(),
            old(self)@.room(1),
        ensures
            final(self)@.wf(),
            final(self)@ == old(self)@.bumped(ino),
            final(self)@.generation(ino) == old(self)@.last_generation + 1,
    {
        let ghost before = self@;
        let generation: u64 = self.next_generation();
        match self.pending.remove(&ino) {
            Some(entry) => {
                let mut entry = entry;
                entry.bump_generation(generation);
                let ghost model = entry@;
                self.pending.insert(ino, entry);
                proof {
                    assert(self@.pending =~= before.pending.insert(ino, model));
                    lemma_sum_insert(before.pending, ino, model);
                    lemma_sum_remove(before.pending, ino);
                }
            },
            None => {
                assert(self@.pending =~= before.pending);
                assert(self@.generations_wf());
                self.retire_generation(ino, generation);
                proof {
                    lemma_with_retired(before.advanced(), ino, generation);
                }
            },
        }
        proof {
            a_new_generation_exceeds_all(before, ino, ino);
        }
    }
}

/// A new generation of an inode exceeds that of every inode, and no inode goes back, not even
/// one whose remembered generation is forgotten.
pub proof fn a_new_generation_exceeds_all(model: BatcherModel, ino: i64, other: i64)
    requires
        model.wf(),
        model.last_generation < u64::MAX,
    ensures
        model.bumped(ino).generation(ino) == model.last_generation + 1,
        model.bumped(ino).generation(ino) > model.generation(other),
        model.bumped(ino).generation(other) >= model.generation(other),
{
    if !model.pending.contains_key(ino) {
        let next = model.advanced();
        let epoch = (next.epoch + 1) as u64;
        let generation = next.last_generation;
        let all = next.retired.insert(ino, RetiredGeneration { generation, retired_at: epoch });
        lemma_pruned(all, MAX_RETIRED_GENERATIONS as nat);
        assert(all.contains_key(ino));
        if next.retired.contains_key(other) {
            assert(all.contains_key(other));
        }
    }
}

} // verus!
