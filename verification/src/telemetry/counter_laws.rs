//! What the counters say.
use crate::telemetry::record::{
    record_agentfs_batcher_coalesced_ranges, record_agentfs_batcher_commit_latency,
    record_agentfs_batcher_commit_txn, record_agentfs_batcher_drain_bytes,
    record_agentfs_batcher_drain_explicit, record_agentfs_batcher_drain_timer,
    record_agentfs_batcher_enqueue, record_agentfs_batcher_pending_bytes, record_attr_cache_hit,
    record_attr_cache_miss, record_base_fast_inode_invalidation, record_base_fast_open_eligible,
    record_base_fast_open_keep_cache, record_base_fast_open_passthrough_attempted,
    record_base_fast_open_passthrough_fallback, record_base_fast_open_passthrough_succeeded,
    record_base_fast_open_rejected, record_base_fast_stale_rejection, record_chunk_read_chunks,
    record_chunk_read_query, record_chunk_write_chunks, record_connection_create,
    record_connection_drop_discard, record_connection_health_eviction, record_connection_reuse,
    record_dentry_cache_hit, record_dentry_cache_miss, record_getattr, record_lookup,
    record_lookup_base, record_lookup_delta, record_lookup_whiteout, record_negative_cache_hit,
    record_negative_cache_invalidation, record_negative_cache_miss, record_negative_lookup,
    record_path_cache_hit, record_path_cache_miss, record_path_resolution, record_readdir,
    record_readdir_plus,
};
use crate::telemetry::{Counter, Gauge, Max, Sum, Telemetry, Timer, TimerGuard, timer};
use crate::text_map::TextMap;
use vstd::prelude::*;

verus! {

/// A number as it is kept: the largest one is followed by zero.
pub open spec fn kept(n: int) -> int {
    n % 0x1_0000_0000_0000_0000
}

/// Whether a value of this name is kept, and no other value changed.
pub open spec fn only_shows(
    before: Map<Seq<char>, u64>,
    after: Map<Seq<char>, u64>,
    name: Seq<char>,
    value: int,
) -> bool {
    &&& after.contains_key(name)
    &&& after[name] == value
    &&& forall|other: Seq<char>|
        other != name ==> (before.contains_key(other) <==> #[trigger] after.contains_key(other))
    &&& forall|other: Seq<char>|
        other != name && before.contains_key(other) ==> #[trigger] after[other] == before[other]
}

/// Whether one more is counted under this name, and nothing under any other.
pub open spec fn one_more(
    before: Map<Seq<char>, u64>,
    after: Map<Seq<char>, u64>,
    name: Seq<char>,
    had: u64,
) -> bool {
    only_shows(before, after, name, kept(had + 1))
}

/// Counters count by one, sums add what they are given, maxima keep the largest value,
/// gauges the last one, and none of them changes its name.
pub proof fn each_kind_of_counter_keeps_its_own(
    counter: &mut Counter,
    sum: &mut Sum,
    amount: u64,
    max: &mut Max,
    candidate: u64,
    gauge: &mut Gauge,
    value: u64,
)
    requires
        call_ensures(Counter::increment, (counter,), ()),
        call_ensures(Sum::add, (sum, amount), ()),
        call_ensures(Max::update, (max, candidate), ()),
        call_ensures(Gauge::set, (gauge, value), ()),
    ensures
        old(counter).value < u64::MAX ==> final(counter).value == old(counter).value + 1,
        old(sum).value + amount <= u64::MAX ==> final(sum).value == old(sum).value + amount,
        final(max).value >= old(max).value && final(max).value >= candidate,
        final(max).value == old(max).value || final(max).value == candidate,
        final(gauge).value == value,
        final(counter).name == old(counter).name,
        final(sum).name == old(sum).name,
        final(max).name == old(max).name,
        final(gauge).name == old(gauge).name,
{
}

/// A timer that was started counts one run and the time that went by, none where the clock
/// went back. One that was not started counts nothing, and it is started only where
/// counters are kept.
pub proof fn a_timer_counts_the_time_that_went_by(
    telemetry: Telemetry,
    started: u128,
    guard: TimerGuard,
    slot: &mut Timer,
    now: u128,
)
    requires
        call_ensures(timer, (&telemetry, started), guard),
        call_ensures(TimerGuard::stop, (guard, slot, now), ()),
    ensures
        !telemetry.enabled ==> *final(slot) == *old(slot),
        telemetry.enabled && old(slot).count < u64::MAX ==> final(slot).count == old(slot).count
            + 1,
        telemetry.enabled && now >= started && old(slot).nanos + (now - started) <= u64::MAX
            ==> final(slot).nanos == old(slot).nanos + (now - started),
        telemetry.enabled && now < started ==> final(slot).nanos == old(slot).nanos,
        final(slot).name == old(slot).name,
{
}

/// A snapshot shows each counter under its name, and a timer under two.
pub proof fn a_snapshot_shows_each_counter(
    counter: Counter,
    counted: &mut TextMap<u64>,
    sum: Sum,
    summed: &mut TextMap<u64>,
    max: Max,
    largest: &mut TextMap<u64>,
    slot: Timer,
    timed: &mut TextMap<u64>,
)
    requires
        old(counted).wf() && old(summed).wf() && old(largest).wf() && old(timed).wf(),
        call_ensures(Counter::snapshot_into, (&counter, counted), ()),
        call_ensures(Sum::snapshot_into, (&sum, summed), ()),
        call_ensures(Max::snapshot_into, (&max, largest), ()),
        call_ensures(Timer::snapshot_into, (&slot, timed), ()),
    ensures
        only_shows(old(counted)@, final(counted)@, counter.name@, counter.value as int),
        only_shows(old(summed)@, final(summed)@, sum.name@, sum.value as int),
        only_shows(old(largest)@, final(largest)@, max.name@, max.value as int),
        final(timed)@.contains_key(slot.name@ + "_count"@),
        final(timed)@.contains_key(slot.name@ + "_nanos"@),
        final(timed)@[slot.name@ + "_count"@] == slot.count,
        final(timed)@[slot.name@ + "_nanos"@] == slot.nanos,
{
    reveal_strlit("_count");
    reveal_strlit("_nanos");
    let n = slot.name@.len() as int;
    assert((slot.name@ + "_count"@)[n + 1] == 'c');
    assert((slot.name@ + "_nanos"@)[n + 1] == 'n');
}

/// Resolved paths are counted, and their parts are summed up.
pub proof fn resolved_paths_are_counted_with_their_parts(
    telemetry: &mut Telemetry,
    components: u64,
)
    requires
        call_ensures(record_path_resolution, (telemetry, components), ()),
    ensures
        !old(telemetry).enabled ==> *final(telemetry) == *old(telemetry),
        old(telemetry).enabled ==> {
            let before = old(telemetry).core;
            let after = final(telemetry).core;
            &&& after.path_resolution_count.value == kept(before.path_resolution_count.value + 1)
            &&& after.path_component_count.value == kept(
                before.path_component_count.value + components,
            )
            &&& final(telemetry).base == old(telemetry).base
        },
{
}

/// Chunks that are read and chunks that are written are summed up apart.
pub proof fn chunks_are_summed_up_by_direction(
    read: &mut Telemetry,
    written: &mut Telemetry,
    chunks: u64,
)
    requires
        old(read).named() && old(written).named(),
        call_ensures(record_chunk_read_chunks, (read, chunks), ()),
        call_ensures(record_chunk_write_chunks, (written, chunks), ()),
    ensures
        old(read).enabled ==> only_shows(
            old(read).core.counters(),
            final(read).core.counters(),
            "chunk_read_chunks"@,
            kept(old(read).core.chunk_read_chunks.value + chunks),
        ),
        old(written).enabled ==> only_shows(
            old(written).core.counters(),
            final(written).core.counters(),
            "chunk_write_chunks"@,
            kept(old(written).core.chunk_write_chunks.value + chunks),
        ),
        !old(read).enabled ==> *final(read) == *old(read),
        !old(written).enabled ==> *final(written) == *old(written),
{
}

/// The most that ever waited is kept, and what was saved by merging and the time that
/// commits took are summed up.
pub proof fn what_waits_is_kept_at_its_most(
    waiting: &mut Telemetry,
    pending_bytes: u64,
    merged: &mut Telemetry,
    ranges: u64,
    took: &mut Telemetry,
    nanos: u128,
)
    requires
        old(waiting).named() && old(merged).named() && old(took).named(),
        call_ensures(record_agentfs_batcher_pending_bytes, (waiting, pending_bytes), ()),
        call_ensures(record_agentfs_batcher_coalesced_ranges, (merged, ranges), ()),
        call_ensures(record_agentfs_batcher_commit_latency, (took, nanos), ()),
    ensures
        old(waiting).enabled ==> only_shows(
            old(waiting).core.counters(),
            final(waiting).core.counters(),
            "agentfs_batcher_pending_max_bytes"@,
            if pending_bytes >= old(waiting).core.agentfs_batcher_pending_max_bytes.value {
                pending_bytes as int
            } else {
                old(waiting).core.agentfs_batcher_pending_max_bytes.value as int
            },
        ),
        old(merged).enabled ==> only_shows(
            old(merged).core.counters(),
            final(merged).core.counters(),
            "agentfs_batcher_coalesced_ranges"@,
            kept(old(merged).core.agentfs_batcher_coalesced_ranges.value + ranges),
        ),
        old(took).enabled && nanos <= u64::MAX ==> only_shows(
            old(took).core.counters(),
            final(took).core.counters(),
            "agentfs_batcher_commit_latency_ns_total"@,
            kept(old(took).core.agentfs_batcher_commit_latency_ns_total.value + nanos),
        ),
        !old(waiting).enabled ==> *final(waiting) == *old(waiting),
        !old(merged).enabled ==> *final(merged) == *old(merged),
        !old(took).enabled ==> *final(took) == *old(took),
{
}

/// Commits are counted, the inodes that they take along are summed up, and the most that one
/// took is kept.
pub proof fn commits_are_counted_with_their_inodes(telemetry: &mut Telemetry, inodes: u64)
    requires
        call_ensures(record_agentfs_batcher_commit_txn, (telemetry, inodes), ()),
    ensures
        !old(telemetry).enabled ==> *final(telemetry) == *old(telemetry),
        old(telemetry).enabled ==> {
            let before = old(telemetry).core;
            let after = final(telemetry).core;
            &&& after.agentfs_batcher_commit_txns.value == kept(
                before.agentfs_batcher_commit_txns.value + 1,
            )
            &&& after.agentfs_batcher_txn_inodes_total.value == kept(
                before.agentfs_batcher_txn_inodes_total.value + inodes,
            )
            &&& after.agentfs_batcher_txn_inodes_max.value >= inodes
            &&& after.agentfs_batcher_txn_inodes_max.value
                >= before.agentfs_batcher_txn_inodes_max.value
            &&& after.agentfs_batcher_txn_inodes_max.value == inodes
                || after.agentfs_batcher_txn_inodes_max.value
                == before.agentfs_batcher_txn_inodes_max.value
        },
{
}

/// How connections come and go is counted, each way under its own name.
pub proof fn connections_are_counted(
    connection_create: &mut Telemetry,
    connection_reuse: &mut Telemetry,
    connection_drop_discard: &mut Telemetry,
    connection_health_eviction: &mut Telemetry,
)
    requires
        old(connection_create).named(),
        call_ensures(record_connection_create, (connection_create,), ()),
        old(connection_reuse).named(),
        call_ensures(record_connection_reuse, (connection_reuse,), ()),
        old(connection_drop_discard).named(),
        call_ensures(record_connection_drop_discard, (connection_drop_discard,), ()),
        old(connection_health_eviction).named(),
        call_ensures(record_connection_health_eviction, (connection_health_eviction,), ()),
    ensures
        old(connection_create).enabled ==> one_more(
            old(connection_create).core.counters(),
            final(connection_create).core.counters(),
            "connection_create"@,
            old(connection_create).core.connection_create.value,
        ) && final(connection_create).base == old(connection_create).base,
        !old(connection_create).enabled ==> *final(connection_create) == *old(connection_create),
        old(connection_reuse).enabled ==> one_more(
            old(connection_reuse).core.counters(),
            final(connection_reuse).core.counters(),
            "connection_reuse"@,
            old(connection_reuse).core.connection_reuse.value,
        ) && final(connection_reuse).base == old(connection_reuse).base,
        !old(connection_reuse).enabled ==> *final(connection_reuse) == *old(connection_reuse),
        old(connection_drop_discard).enabled ==> one_more(
            old(connection_drop_discard).core.counters(),
            final(connection_drop_discard).core.counters(),
            "connection_drop_discards"@,
            old(connection_drop_discard).core.connection_drop_discards.value,
        ) && final(connection_drop_discard).base == old(connection_drop_discard).base,
        !old(connection_drop_discard).enabled ==> *final(connection_drop_discard) == *old(connection_drop_discard),
        old(connection_health_eviction).enabled ==> one_more(
            old(connection_health_eviction).core.counters(),
            final(connection_health_eviction).core.counters(),
            "connection_health_evictions"@,
            old(connection_health_eviction).core.connection_health_evictions.value,
        ) && final(connection_health_eviction).base == old(connection_health_eviction).base,
        !old(connection_health_eviction).enabled ==> *final(connection_health_eviction) == *old(connection_health_eviction),
{
}

/// Lookups are counted, and those that the delta, the base or a whiteout answered, and those
/// that found nothing, each under its own name.
pub proof fn lookups_are_counted(
    lookup: &mut Telemetry,
    lookup_delta: &mut Telemetry,
    lookup_base: &mut Telemetry,
    lookup_whiteout: &mut Telemetry,
    negative_lookup: &mut Telemetry,
)
    requires
        old(lookup).named(),
        call_ensures(record_lookup, (lookup,), ()),
        old(lookup_delta).named(),
        call_ensures(record_lookup_delta, (lookup_delta,), ()),
        old(lookup_base).named(),
        call_ensures(record_lookup_base, (lookup_base,), ()),
        old(lookup_whiteout).named(),
        call_ensures(record_lookup_whiteout, (lookup_whiteout,), ()),
        old(negative_lookup).named(),
        call_ensures(record_negative_lookup, (negative_lookup,), ()),
    ensures
        old(lookup).enabled ==> one_more(
            old(lookup).core.counters(),
            final(lookup).core.counters(),
            "lookup_count"@,
            old(lookup).core.lookup_count.value,
        ) && final(lookup).base == old(lookup).base,
        !old(lookup).enabled ==> *final(lookup) == *old(lookup),
        old(lookup_delta).enabled ==> one_more(
            old(lookup_delta).core.counters(),
            final(lookup_delta).core.counters(),
            "lookup_delta_count"@,
            old(lookup_delta).core.lookup_delta_count.value,
        ) && final(lookup_delta).base == old(lookup_delta).base,
        !old(lookup_delta).enabled ==> *final(lookup_delta) == *old(lookup_delta),
        old(lookup_base).enabled ==> one_more(
            old(lookup_base).core.counters(),
            final(lookup_base).core.counters(),
            "lookup_base_count"@,
            old(lookup_base).core.lookup_base_count.value,
        ) && final(lookup_base).base == old(lookup_base).base,
        !old(lookup_base).enabled ==> *final(lookup_base) == *old(lookup_base),
        old(lookup_whiteout).enabled ==> one_more(
            old(lookup_whiteout).core.counters(),
            final(lookup_whiteout).core.counters(),
            "lookup_whiteout_count"@,
            old(lookup_whiteout).core.lookup_whiteout_count.value,
        ) && final(lookup_whiteout).base == old(lookup_whiteout).base,
        !old(lookup_whiteout).enabled ==> *final(lookup_whiteout) == *old(lookup_whiteout),
        old(negative_lookup).enabled ==> one_more(
            old(negative_lookup).core.counters(),
            final(negative_lookup).core.counters(),
            "negative_lookup_count"@,
            old(negative_lookup).core.negative_lookup_count.value,
        ) && final(negative_lookup).base == old(negative_lookup).base,
        !old(negative_lookup).enabled ==> *final(negative_lookup) == *old(negative_lookup),
{
}

/// Reads of attributes and of directories are counted, each kind under its own name.
pub proof fn reads_of_directories_are_counted(
    getattr: &mut Telemetry,
    readdir: &mut Telemetry,
    readdir_plus: &mut Telemetry,
)
    requires
        old(getattr).named(),
        call_ensures(record_getattr, (getattr,), ()),
        old(readdir).named(),
        call_ensures(record_readdir, (readdir,), ()),
        old(readdir_plus).named(),
        call_ensures(record_readdir_plus, (readdir_plus,), ()),
    ensures
        old(getattr).enabled ==> one_more(
            old(getattr).core.counters(),
            final(getattr).core.counters(),
            "getattr_count"@,
            old(getattr).core.getattr_count.value,
        ) && final(getattr).base == old(getattr).base,
        !old(getattr).enabled ==> *final(getattr) == *old(getattr),
        old(readdir).enabled ==> one_more(
            old(readdir).core.counters(),
            final(readdir).core.counters(),
            "readdir_count"@,
            old(readdir).core.readdir_count.value,
        ) && final(readdir).base == old(readdir).base,
        !old(readdir).enabled ==> *final(readdir) == *old(readdir),
        old(readdir_plus).enabled ==> one_more(
            old(readdir_plus).core.counters(),
            final(readdir_plus).core.counters(),
            "readdir_plus_count"@,
            old(readdir_plus).core.readdir_plus_count.value,
        ) && final(readdir_plus).base == old(readdir_plus).base,
        !old(readdir_plus).enabled ==> *final(readdir_plus) == *old(readdir_plus),
{
}

/// What the caches of paths and of names that are not there knew and did not know is counted
/// apart.
pub proof fn hits_and_misses_are_counted_apart(
    path_cache_hit: &mut Telemetry,
    path_cache_miss: &mut Telemetry,
    negative_cache_hit: &mut Telemetry,
    negative_cache_miss: &mut Telemetry,
    negative_cache_invalidation: &mut Telemetry,
)
    requires
        old(path_cache_hit).named(),
        call_ensures(record_path_cache_hit, (path_cache_hit,), ()),
        old(path_cache_miss).named(),
        call_ensures(record_path_cache_miss, (path_cache_miss,), ()),
        old(negative_cache_hit).named(),
        call_ensures(record_negative_cache_hit, (negative_cache_hit,), ()),
        old(negative_cache_miss).named(),
        call_ensures(record_negative_cache_miss, (negative_cache_miss,), ()),
        old(negative_cache_invalidation).named(),
        call_ensures(record_negative_cache_invalidation, (negative_cache_invalidation,), ()),
    ensures
        old(path_cache_hit).enabled ==> one_more(
            old(path_cache_hit).core.counters(),
            final(path_cache_hit).core.counters(),
            "path_cache_hits"@,
            old(path_cache_hit).core.path_cache_hits.value,
        ) && final(path_cache_hit).base == old(path_cache_hit).base,
        !old(path_cache_hit).enabled ==> *final(path_cache_hit) == *old(path_cache_hit),
        old(path_cache_miss).enabled ==> one_more(
            old(path_cache_miss).core.counters(),
            final(path_cache_miss).core.counters(),
            "path_cache_misses"@,
            old(path_cache_miss).core.path_cache_misses.value,
        ) && final(path_cache_miss).base == old(path_cache_miss).base,
        !old(path_cache_miss).enabled ==> *final(path_cache_miss) == *old(path_cache_miss),
        old(negative_cache_hit).enabled ==> one_more(
            old(negative_cache_hit).core.counters(),
            final(negative_cache_hit).core.counters(),
            "negative_cache_hits"@,
            old(negative_cache_hit).core.negative_cache_hits.value,
        ) && final(negative_cache_hit).base == old(negative_cache_hit).base,
        !old(negative_cache_hit).enabled ==> *final(negative_cache_hit) == *old(negative_cache_hit),
        old(negative_cache_miss).enabled ==> one_more(
            old(negative_cache_miss).core.counters(),
            final(negative_cache_miss).core.counters(),
            "negative_cache_misses"@,
            old(negative_cache_miss).core.negative_cache_misses.value,
        ) && final(negative_cache_miss).base == old(negative_cache_miss).base,
        !old(negative_cache_miss).enabled ==> *final(negative_cache_miss) == *old(negative_cache_miss),
        old(negative_cache_invalidation).enabled ==> one_more(
            old(negative_cache_invalidation).core.counters(),
            final(negative_cache_invalidation).core.counters(),
            "negative_cache_invalidations"@,
            old(negative_cache_invalidation).core.negative_cache_invalidations.value,
        ) && final(negative_cache_invalidation).base == old(negative_cache_invalidation).base,
        !old(negative_cache_invalidation).enabled ==> *final(negative_cache_invalidation) == *old(negative_cache_invalidation),
{
}

/// What the caches of attributes and of entries knew and did not know is counted apart.
pub proof fn attribute_hits_and_misses_are_counted_apart(
    attr_cache_hit: &mut Telemetry,
    attr_cache_miss: &mut Telemetry,
    dentry_cache_hit: &mut Telemetry,
    dentry_cache_miss: &mut Telemetry,
)
    requires
        old(attr_cache_hit).named(),
        call_ensures(record_attr_cache_hit, (attr_cache_hit,), ()),
        old(attr_cache_miss).named(),
        call_ensures(record_attr_cache_miss, (attr_cache_miss,), ()),
        old(dentry_cache_hit).named(),
        call_ensures(record_dentry_cache_hit, (dentry_cache_hit,), ()),
        old(dentry_cache_miss).named(),
        call_ensures(record_dentry_cache_miss, (dentry_cache_miss,), ()),
    ensures
        old(attr_cache_hit).enabled ==> one_more(
            old(attr_cache_hit).core.counters(),
            final(attr_cache_hit).core.counters(),
            "attr_cache_hits"@,
            old(attr_cache_hit).core.attr_cache_hits.value,
        ) && final(attr_cache_hit).base == old(attr_cache_hit).base,
        !old(attr_cache_hit).enabled ==> *final(attr_cache_hit) == *old(attr_cache_hit),
        old(attr_cache_miss).enabled ==> one_more(
            old(attr_cache_miss).core.counters(),
            final(attr_cache_miss).core.counters(),
            "attr_cache_misses"@,
            old(attr_cache_miss).core.attr_cache_misses.value,
        ) && final(attr_cache_miss).base == old(attr_cache_miss).base,
        !old(attr_cache_miss).enabled ==> *final(attr_cache_miss) == *old(attr_cache_miss),
        old(dentry_cache_hit).enabled ==> one_more(
            old(dentry_cache_hit).core.counters(),
            final(dentry_cache_hit).core.counters(),
            "dentry_cache_hits"@,
            old(dentry_cache_hit).core.dentry_cache_hits.value,
        ) && final(dentry_cache_hit).base == old(dentry_cache_hit).base,
        !old(dentry_cache_hit).enabled ==> *final(dentry_cache_hit) == *old(dentry_cache_hit),
        old(dentry_cache_miss).enabled ==> one_more(
            old(dentry_cache_miss).core.counters(),
            final(dentry_cache_miss).core.counters(),
            "dentry_cache_misses"@,
            old(dentry_cache_miss).core.dentry_cache_misses.value,
        ) && final(dentry_cache_miss).base == old(dentry_cache_miss).base,
        !old(dentry_cache_miss).enabled ==> *final(dentry_cache_miss) == *old(dentry_cache_miss),
{
}

/// Queued writes, reads of chunks and drains are counted, drains by what asked for them.
pub proof fn drains_are_counted_by_their_reason(
    chunk_read_query: &mut Telemetry,
    enqueue: &mut Telemetry,
    drain_timer: &mut Telemetry,
    drain_bytes: &mut Telemetry,
    drain_explicit: &mut Telemetry,
)
    requires
        old(chunk_read_query).named(),
        call_ensures(record_chunk_read_query, (chunk_read_query,), ()),
        old(enqueue).named(),
        call_ensures(record_agentfs_batcher_enqueue, (enqueue,), ()),
        old(drain_timer).named(),
        call_ensures(record_agentfs_batcher_drain_timer, (drain_timer,), ()),
        old(drain_bytes).named(),
        call_ensures(record_agentfs_batcher_drain_bytes, (drain_bytes,), ()),
        old(drain_explicit).named(),
        call_ensures(record_agentfs_batcher_drain_explicit, (drain_explicit,), ()),
    ensures
        old(chunk_read_query).enabled ==> one_more(
            old(chunk_read_query).core.counters(),
            final(chunk_read_query).core.counters(),
            "chunk_read_queries"@,
            old(chunk_read_query).core.chunk_read_queries.value,
        ) && final(chunk_read_query).base == old(chunk_read_query).base,
        !old(chunk_read_query).enabled ==> *final(chunk_read_query) == *old(chunk_read_query),
        old(enqueue).enabled ==> one_more(
            old(enqueue).core.counters(),
            final(enqueue).core.counters(),
            "agentfs_batcher_enqueues"@,
            old(enqueue).core.agentfs_batcher_enqueues.value,
        ) && final(enqueue).base == old(enqueue).base,
        !old(enqueue).enabled ==> *final(enqueue) == *old(enqueue),
        old(drain_timer).enabled ==> one_more(
            old(drain_timer).core.counters(),
            final(drain_timer).core.counters(),
            "agentfs_batcher_drains_timer"@,
            old(drain_timer).core.agentfs_batcher_drains_timer.value,
        ) && final(drain_timer).base == old(drain_timer).base,
        !old(drain_timer).enabled ==> *final(drain_timer) == *old(drain_timer),
        old(drain_bytes).enabled ==> one_more(
            old(drain_bytes).core.counters(),
            final(drain_bytes).core.counters(),
            "agentfs_batcher_drains_bytes"@,
            old(drain_bytes).core.agentfs_batcher_drains_bytes.value,
        ) && final(drain_bytes).base == old(drain_bytes).base,
        !old(drain_bytes).enabled ==> *final(drain_bytes) == *old(drain_bytes),
        old(drain_explicit).enabled ==> one_more(
            old(drain_explicit).core.counters(),
            final(drain_explicit).core.counters(),
            "agentfs_batcher_drains_explicit"@,
            old(drain_explicit).core.agentfs_batcher_drains_explicit.value,
        ) && final(drain_explicit).base == old(drain_explicit).base,
        !old(drain_explicit).enabled ==> *final(drain_explicit) == *old(drain_explicit),
{
}

/// Base files that are opened directly are counted, by how that went.
pub proof fn fast_opens_are_counted(
    eligible: &mut Telemetry,
    keep_cache: &mut Telemetry,
    passthrough_attempted: &mut Telemetry,
    passthrough_succeeded: &mut Telemetry,
)
    requires
        old(eligible).named(),
        call_ensures(record_base_fast_open_eligible, (eligible,), ()),
        old(keep_cache).named(),
        call_ensures(record_base_fast_open_keep_cache, (keep_cache,), ()),
        old(passthrough_attempted).named(),
        call_ensures(record_base_fast_open_passthrough_attempted, (passthrough_attempted,), ()),
        old(passthrough_succeeded).named(),
        call_ensures(record_base_fast_open_passthrough_succeeded, (passthrough_succeeded,), ()),
    ensures
        old(eligible).enabled ==> one_more(
            old(eligible).base.counters(),
            final(eligible).base.counters(),
            "base_fast_open_eligible"@,
            old(eligible).base.base_fast_open_eligible.value,
        ) && final(eligible).core == old(eligible).core,
        !old(eligible).enabled ==> *final(eligible) == *old(eligible),
        old(keep_cache).enabled ==> one_more(
            old(keep_cache).base.counters(),
            final(keep_cache).base.counters(),
            "base_fast_open_keep_cache"@,
            old(keep_cache).base.base_fast_open_keep_cache.value,
        ) && final(keep_cache).core == old(keep_cache).core,
        !old(keep_cache).enabled ==> *final(keep_cache) == *old(keep_cache),
        old(passthrough_attempted).enabled ==> one_more(
            old(passthrough_attempted).base.counters(),
            final(passthrough_attempted).base.counters(),
            "base_fast_open_passthrough_attempted"@,
            old(passthrough_attempted).base.base_fast_open_passthrough_attempted.value,
        ) && final(passthrough_attempted).core == old(passthrough_attempted).core,
        !old(passthrough_attempted).enabled ==> *final(passthrough_attempted) == *old(passthrough_attempted),
        old(passthrough_succeeded).enabled ==> one_more(
            old(passthrough_succeeded).base.counters(),
            final(passthrough_succeeded).base.counters(),
            "base_fast_open_passthrough_succeeded"@,
            old(passthrough_succeeded).base.base_fast_open_passthrough_succeeded.value,
        ) && final(passthrough_succeeded).core == old(passthrough_succeeded).core,
        !old(passthrough_succeeded).enabled ==> *final(passthrough_succeeded) == *old(passthrough_succeeded),
{
}

/// Base files that are not opened directly are counted, by why.
pub proof fn refused_fast_opens_are_counted(
    passthrough_fallback: &mut Telemetry,
    rejected: &mut Telemetry,
    inode_invalidation: &mut Telemetry,
    stale_rejection: &mut Telemetry,
)
    requires
        old(passthrough_fallback).named(),
        call_ensures(record_base_fast_open_passthrough_fallback, (passthrough_fallback,), ()),
        old(rejected).named(),
        call_ensures(record_base_fast_open_rejected, (rejected,), ()),
        old(inode_invalidation).named(),
        call_ensures(record_base_fast_inode_invalidation, (inode_invalidation,), ()),
        old(stale_rejection).named(),
        call_ensures(record_base_fast_stale_rejection, (stale_rejection,), ()),
    ensures
        old(passthrough_fallback).enabled ==> one_more(
            old(passthrough_fallback).base.counters(),
            final(passthrough_fallback).base.counters(),
            "base_fast_open_passthrough_fallback"@,
            old(passthrough_fallback).base.base_fast_open_passthrough_fallback.value,
        ) && final(passthrough_fallback).core == old(passthrough_fallback).core,
        !old(passthrough_fallback).enabled ==> *final(passthrough_fallback) == *old(passthrough_fallback),
        old(rejected).enabled ==> one_more(
            old(rejected).base.counters(),
            final(rejected).base.counters(),
            "base_fast_open_rejected"@,
            old(rejected).base.base_fast_open_rejected.value,
        ) && final(rejected).core == old(rejected).core,
        !old(rejected).enabled ==> *final(rejected) == *old(rejected),
        old(inode_invalidation).enabled ==> one_more(
            old(inode_invalidation).base.counters(),
            final(inode_invalidation).base.counters(),
            "base_fast_inode_invalidations"@,
            old(inode_invalidation).base.base_fast_inode_invalidations.value,
        ) && final(inode_invalidation).core == old(inode_invalidation).core,
        !old(inode_invalidation).enabled ==> *final(inode_invalidation) == *old(inode_invalidation),
        old(stale_rejection).enabled ==> one_more(
            old(stale_rejection).base.counters(),
            final(stale_rejection).base.counters(),
            "base_fast_stale_rejections"@,
            old(stale_rejection).base.base_fast_stale_rejections.value,
        ) && final(stale_rejection).core == old(stale_rejection).core,
        !old(stale_rejection).enabled ==> *final(stale_rejection) == *old(stale_rejection),
{
}

} // verus!
