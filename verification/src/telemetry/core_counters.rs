//! The counters of the core and of its use of base files.
use crate::telemetry::{Counter, Max, Sum, TelemetrySection, Timer};
use crate::text_map::TextMap;
use vstd::prelude::*;

verus! {

/// Counters of the core.
#[derive(Debug)]
pub struct CoreCounters {
    pub connection_wait: Timer,
    pub connection_create: Counter,
    pub connection_reuse: Counter,
    pub connection_drop_discards: Counter,
    pub connection_health_evictions: Counter,
    pub lookup_count: Counter,
    pub lookup_delta_count: Counter,
    pub lookup_base_count: Counter,
    pub lookup_whiteout_count: Counter,
    pub getattr_count: Counter,
    pub readdir_count: Counter,
    pub readdir_plus_count: Counter,
    pub path_resolution_count: Counter,
    pub path_component_count: Sum,
    pub path_cache_hits: Counter,
    pub path_cache_misses: Counter,
    pub negative_lookup_count: Counter,
    pub negative_cache_hits: Counter,
    pub negative_cache_misses: Counter,
    pub negative_cache_invalidations: Counter,
    pub attr_cache_hits: Counter,
    pub attr_cache_misses: Counter,
    pub dentry_cache_hits: Counter,
    pub dentry_cache_misses: Counter,
    pub chunk_read_queries: Counter,
    pub chunk_read_chunks: Sum,
    pub chunk_write_chunks: Sum,
    pub agentfs_batcher_enqueues: Counter,
    pub agentfs_batcher_drains_timer: Counter,
    pub agentfs_batcher_drains_bytes: Counter,
    pub agentfs_batcher_drains_explicit: Counter,
    pub agentfs_batcher_pending_max_bytes: Max,
    pub agentfs_batcher_coalesced_ranges: Sum,
    pub agentfs_batcher_commit_latency_ns_total: Sum,
    pub agentfs_batcher_commit_txns: Counter,
    pub agentfs_batcher_txn_inodes_total: Sum,
    pub agentfs_batcher_txn_inodes_max: Max,
    pub wal_checkpoint: Timer,
}

impl CoreCounters {
    /// Each counter has its own name.
    pub open spec fn named(self) -> bool {
        &&& self.connection_wait.name@ == "connection_wait"@
        &&& self.connection_create.name@ == "connection_create"@
        &&& self.connection_reuse.name@ == "connection_reuse"@
        &&& self.connection_drop_discards.name@ == "connection_drop_discards"@
        &&& self.connection_health_evictions.name@ == "connection_health_evictions"@
        &&& self.lookup_count.name@ == "lookup_count"@
        &&& self.lookup_delta_count.name@ == "lookup_delta_count"@
        &&& self.lookup_base_count.name@ == "lookup_base_count"@
        &&& self.lookup_whiteout_count.name@ == "lookup_whiteout_count"@
        &&& self.getattr_count.name@ == "getattr_count"@
        &&& self.readdir_count.name@ == "readdir_count"@
        &&& self.readdir_plus_count.name@ == "readdir_plus_count"@
        &&& self.path_resolution_count.name@ == "path_resolution_count"@
        &&& self.path_component_count.name@ == "path_component_count"@
        &&& self.path_cache_hits.name@ == "path_cache_hits"@
        &&& self.path_cache_misses.name@ == "path_cache_misses"@
        &&& self.negative_lookup_count.name@ == "negative_lookup_count"@
        &&& self.negative_cache_hits.name@ == "negative_cache_hits"@
        &&& self.negative_cache_misses.name@ == "negative_cache_misses"@
        &&& self.negative_cache_invalidations.name@ == "negative_cache_invalidations"@
        &&& self.attr_cache_hits.name@ == "attr_cache_hits"@
        &&& self.attr_cache_misses.name@ == "attr_cache_misses"@
        &&& self.dentry_cache_hits.name@ == "dentry_cache_hits"@
        &&& self.dentry_cache_misses.name@ == "dentry_cache_misses"@
        &&& self.chunk_read_queries.name@ == "chunk_read_queries"@
        &&& self.chunk_read_chunks.name@ == "chunk_read_chunks"@
        &&& self.chunk_write_chunks.name@ == "chunk_write_chunks"@
        &&& self.agentfs_batcher_enqueues.name@ == "agentfs_batcher_enqueues"@
        &&& self.agentfs_batcher_drains_timer.name@ == "agentfs_batcher_drains_timer"@
        &&& self.agentfs_batcher_drains_bytes.name@ == "agentfs_batcher_drains_bytes"@
        &&& self.agentfs_batcher_drains_explicit.name@ == "agentfs_batcher_drains_explicit"@
        &&& self.agentfs_batcher_pending_max_bytes.name@ == "agentfs_batcher_pending_max_bytes"@
        &&& self.agentfs_batcher_coalesced_ranges.name@ == "agentfs_batcher_coalesced_ranges"@
        &&& self.agentfs_batcher_commit_latency_ns_total.name@ == "agentfs_batcher_commit_latency_ns_total"@
        &&& self.agentfs_batcher_commit_txns.name@ == "agentfs_batcher_commit_txns"@
        &&& self.agentfs_batcher_txn_inodes_total.name@ == "agentfs_batcher_txn_inodes_total"@
        &&& self.agentfs_batcher_txn_inodes_max.name@ == "agentfs_batcher_txn_inodes_max"@
        &&& self.wal_checkpoint.name@ == "wal_checkpoint"@
    }

    /// All counters at zero, each under its own name.
    pub open spec fn zeroed(self) -> bool {
        &&& self.named()
        &&& self.connection_wait.count == 0 && self.connection_wait.nanos == 0
        &&& self.connection_create.value == 0
        &&& self.connection_reuse.value == 0
        &&& self.connection_drop_discards.value == 0
        &&& self.connection_health_evictions.value == 0
        &&& self.lookup_count.value == 0
        &&& self.lookup_delta_count.value == 0
        &&& self.lookup_base_count.value == 0
        &&& self.lookup_whiteout_count.value == 0
        &&& self.getattr_count.value == 0
        &&& self.readdir_count.value == 0
        &&& self.readdir_plus_count.value == 0
        &&& self.path_resolution_count.value == 0
        &&& self.path_component_count.value == 0
        &&& self.path_cache_hits.value == 0
        &&& self.path_cache_misses.value == 0
        &&& self.negative_lookup_count.value == 0
        &&& self.negative_cache_hits.value == 0
        &&& self.negative_cache_misses.value == 0
        &&& self.negative_cache_invalidations.value == 0
        &&& self.attr_cache_hits.value == 0
        &&& self.attr_cache_misses.value == 0
        &&& self.dentry_cache_hits.value == 0
        &&& self.dentry_cache_misses.value == 0
        &&& self.chunk_read_queries.value == 0
        &&& self.chunk_read_chunks.value == 0
        &&& self.chunk_write_chunks.value == 0
        &&& self.agentfs_batcher_enqueues.value == 0
        &&& self.agentfs_batcher_drains_timer.value == 0
        &&& self.agentfs_batcher_drains_bytes.value == 0
        &&& self.agentfs_batcher_drains_explicit.value == 0
        &&& self.agentfs_batcher_pending_max_bytes.value == 0
        &&& self.agentfs_batcher_coalesced_ranges.value == 0
        &&& self.agentfs_batcher_commit_latency_ns_total.value == 0
        &&& self.agentfs_batcher_commit_txns.value == 0
        &&& self.agentfs_batcher_txn_inodes_total.value == 0
        &&& self.agentfs_batcher_txn_inodes_max.value == 0
        &&& self.wal_checkpoint.count == 0 && self.wal_checkpoint.nanos == 0
    }

    pub fn new() -> (counters: CoreCounters)
        ensures
            counters.zeroed(),
    {
        CoreCounters {
            connection_wait: Timer::new("connection_wait"),
            connection_create: Counter::new("connection_create"),
            connection_reuse: Counter::new("connection_reuse"),
            connection_drop_discards: Counter::new("connection_drop_discards"),
            connection_health_evictions: Counter::new("connection_health_evictions"),
            lookup_count: Counter::new("lookup_count"),
            lookup_delta_count: Counter::new("lookup_delta_count"),
            lookup_base_count: Counter::new("lookup_base_count"),
            lookup_whiteout_count: Counter::new("lookup_whiteout_count"),
            getattr_count: Counter::new("getattr_count"),
            readdir_count: Counter::new("readdir_count"),
            readdir_plus_count: Counter::new("readdir_plus_count"),
            path_resolution_count: Counter::new("path_resolution_count"),
            path_component_count: Sum::new("path_component_count"),
            path_cache_hits: Counter::new("path_cache_hits"),
            path_cache_misses: Counter::new("path_cache_misses"),
            negative_lookup_count: Counter::new("negative_lookup_count"),
            negative_cache_hits: Counter::new("negative_cache_hits"),
            negative_cache_misses: Counter::new("negative_cache_misses"),
            negative_cache_invalidations: Counter::new("negative_cache_invalidations"),
            attr_cache_hits: Counter::new("attr_cache_hits"),
            attr_cache_misses: Counter::new("attr_cache_misses"),
            dentry_cache_hits: Counter::new("dentry_cache_hits"),
            dentry_cache_misses: Counter::new("dentry_cache_misses"),
            chunk_read_queries: Counter::new("chunk_read_queries"),
            chunk_read_chunks: Sum::new("chunk_read_chunks"),
            chunk_write_chunks: Sum::new("chunk_write_chunks"),
            agentfs_batcher_enqueues: Counter::new("agentfs_batcher_enqueues"),
            agentfs_batcher_drains_timer: Counter::new("agentfs_batcher_drains_timer"),
            agentfs_batcher_drains_bytes: Counter::new("agentfs_batcher_drains_bytes"),
            agentfs_batcher_drains_explicit: Counter::new("agentfs_batcher_drains_explicit"),
            agentfs_batcher_pending_max_bytes: Max::new("agentfs_batcher_pending_max_bytes"),
            agentfs_batcher_coalesced_ranges: Sum::new("agentfs_batcher_coalesced_ranges"),
            agentfs_batcher_commit_latency_ns_total: Sum::new("agentfs_batcher_commit_latency_ns_total"),
            agentfs_batcher_commit_txns: Counter::new("agentfs_batcher_commit_txns"),
            agentfs_batcher_txn_inodes_total: Sum::new("agentfs_batcher_txn_inodes_total"),
            agentfs_batcher_txn_inodes_max: Max::new("agentfs_batcher_txn_inodes_max"),
            wal_checkpoint: Timer::new("wal_checkpoint"),
        }
    }
}

impl CoreCounters {
    /// The counters by name.
    pub open spec fn counters(&self) -> Map<Seq<char>, u64> {
        Map::empty()
            .insert(self.connection_wait.name@ + "_count"@, self.connection_wait.count)
            .insert(self.connection_wait.name@ + "_nanos"@, self.connection_wait.nanos)
            .insert(self.connection_create.name@, self.connection_create.value)
            .insert(self.connection_reuse.name@, self.connection_reuse.value)
            .insert(self.connection_drop_discards.name@, self.connection_drop_discards.value)
            .insert(self.connection_health_evictions.name@, self.connection_health_evictions.value)
            .insert(self.lookup_count.name@, self.lookup_count.value)
            .insert(self.lookup_delta_count.name@, self.lookup_delta_count.value)
            .insert(self.lookup_base_count.name@, self.lookup_base_count.value)
            .insert(self.lookup_whiteout_count.name@, self.lookup_whiteout_count.value)
            .insert(self.getattr_count.name@, self.getattr_count.value)
            .insert(self.readdir_count.name@, self.readdir_count.value)
            .insert(self.readdir_plus_count.name@, self.readdir_plus_count.value)
            .insert(self.path_resolution_count.name@, self.path_resolution_count.value)
            .insert(self.path_component_count.name@, self.path_component_count.value)
            .insert(self.path_cache_hits.name@, self.path_cache_hits.value)
            .insert(self.path_cache_misses.name@, self.path_cache_misses.value)
            .insert(self.negative_lookup_count.name@, self.negative_lookup_count.value)
            .insert(self.negative_cache_hits.name@, self.negative_cache_hits.value)
            .insert(self.negative_cache_misses.name@, self.negative_cache_misses.value)
            .insert(self.negative_cache_invalidations.name@, self.negative_cache_invalidations.value)
            .insert(self.attr_cache_hits.name@, self.attr_cache_hits.value)
            .insert(self.attr_cache_misses.name@, self.attr_cache_misses.value)
            .insert(self.dentry_cache_hits.name@, self.dentry_cache_hits.value)
            .insert(self.dentry_cache_misses.name@, self.dentry_cache_misses.value)
            .insert(self.chunk_read_queries.name@, self.chunk_read_queries.value)
            .insert(self.chunk_read_chunks.name@, self.chunk_read_chunks.value)
            .insert(self.chunk_write_chunks.name@, self.chunk_write_chunks.value)
            .insert(self.agentfs_batcher_enqueues.name@, self.agentfs_batcher_enqueues.value)
            .insert(self.agentfs_batcher_drains_timer.name@, self.agentfs_batcher_drains_timer.value)
            .insert(self.agentfs_batcher_drains_bytes.name@, self.agentfs_batcher_drains_bytes.value)
            .insert(self.agentfs_batcher_drains_explicit.name@, self.agentfs_batcher_drains_explicit.value)
            .insert(self.agentfs_batcher_pending_max_bytes.name@, self.agentfs_batcher_pending_max_bytes.value)
            .insert(self.agentfs_batcher_coalesced_ranges.name@, self.agentfs_batcher_coalesced_ranges.value)
            .insert(self.agentfs_batcher_commit_latency_ns_total.name@, self.agentfs_batcher_commit_latency_ns_total.value)
            .insert(self.agentfs_batcher_commit_txns.name@, self.agentfs_batcher_commit_txns.value)
            .insert(self.agentfs_batcher_txn_inodes_total.name@, self.agentfs_batcher_txn_inodes_total.value)
            .insert(self.agentfs_batcher_txn_inodes_max.name@, self.agentfs_batcher_txn_inodes_max.value)
            .insert(self.wal_checkpoint.name@ + "_count"@, self.wal_checkpoint.count)
            .insert(self.wal_checkpoint.name@ + "_nanos"@, self.wal_checkpoint.nanos)
    }
}

/// A number that tells the names of counters apart: from the length, the first character and
/// the fifth from the end.
pub open spec fn name_code(name: Seq<char>) -> int {
    name.len() * 1000000 + name[0] as int * 1000 + name[name.len() - 5] as int
}

proof fn lemma_core_codes_1(counters: CoreCounters)
    requires
        counters.named(),
    ensures
        name_code(counters.connection_wait.name@ + "_count"@) == 21099099,
        name_code(counters.connection_wait.name@ + "_nanos"@) == 21099110,
        name_code(counters.connection_create.name@) == 17099114,
        name_code(counters.connection_reuse.name@) == 16099114,
        name_code(counters.connection_drop_discards.name@) == 24099099,
        name_code(counters.connection_health_evictions.name@) == 27099116,
        name_code(counters.lookup_count.name@) == 12108099,
        name_code(counters.lookup_delta_count.name@) == 18108099,
        name_code(counters.lookup_base_count.name@) == 17108099,
        name_code(counters.lookup_whiteout_count.name@) == 21108099,
{
    reveal_strlit("connection_wait");
    reveal_strlit("_count");
    reveal_strlit("_nanos");
    reveal_strlit("connection_create");
    reveal_strlit("connection_reuse");
    reveal_strlit("connection_drop_discards");
    reveal_strlit("connection_health_evictions");
    reveal_strlit("lookup_count");
    reveal_strlit("lookup_delta_count");
    reveal_strlit("lookup_base_count");
    reveal_strlit("lookup_whiteout_count");
}

proof fn lemma_core_codes_2(counters: CoreCounters)
    requires
        counters.named(),
    ensures
        name_code(counters.getattr_count.name@) == 13103099,
        name_code(counters.readdir_count.name@) == 13114099,
        name_code(counters.readdir_plus_count.name@) == 18114099,
        name_code(counters.path_resolution_count.name@) == 21112099,
        name_code(counters.path_component_count.name@) == 20112099,
        name_code(counters.path_cache_hits.name@) == 15112095,
        name_code(counters.path_cache_misses.name@) == 17112105,
        name_code(counters.negative_lookup_count.name@) == 21110099,
        name_code(counters.negative_cache_hits.name@) == 19110095,
        name_code(counters.negative_cache_misses.name@) == 21110105,
{
    reveal_strlit("getattr_count");
    reveal_strlit("readdir_count");
    reveal_strlit("readdir_plus_count");
    reveal_strlit("path_resolution_count");
    reveal_strlit("path_component_count");
    reveal_strlit("path_cache_hits");
    reveal_strlit("path_cache_misses");
    reveal_strlit("negative_lookup_count");
    reveal_strlit("negative_cache_hits");
    reveal_strlit("negative_cache_misses");
}

proof fn lemma_core_codes_3(counters: CoreCounters)
    requires
        counters.named(),
    ensures
        name_code(counters.negative_cache_invalidations.name@) == 28110116,
        name_code(counters.attr_cache_hits.name@) == 15097095,
        name_code(counters.attr_cache_misses.name@) == 17097105,
        name_code(counters.dentry_cache_hits.name@) == 17100095,
        name_code(counters.dentry_cache_misses.name@) == 19100105,
        name_code(counters.chunk_read_queries.name@) == 18099101,
        name_code(counters.chunk_read_chunks.name@) == 17099104,
        name_code(counters.chunk_write_chunks.name@) == 18099104,
        name_code(counters.agentfs_batcher_enqueues.name@) == 24097117,
        name_code(counters.agentfs_batcher_drains_timer.name@) == 28097116,
{
    reveal_strlit("negative_cache_invalidations");
    reveal_strlit("attr_cache_hits");
    reveal_strlit("attr_cache_misses");
    reveal_strlit("dentry_cache_hits");
    reveal_strlit("dentry_cache_misses");
    reveal_strlit("chunk_read_queries");
    reveal_strlit("chunk_read_chunks");
    reveal_strlit("chunk_write_chunks");
    reveal_strlit("agentfs_batcher_enqueues");
    reveal_strlit("agentfs_batcher_drains_timer");
}

proof fn lemma_core_codes_4(counters: CoreCounters)
    requires
        counters.named(),
    ensures
        name_code(counters.agentfs_batcher_drains_bytes.name@) == 28097098,
        name_code(counters.agentfs_batcher_drains_explicit.name@) == 31097108,
        name_code(counters.agentfs_batcher_pending_max_bytes.name@) == 33097098,
        name_code(counters.agentfs_batcher_coalesced_ranges.name@) == 32097097,
        name_code(counters.agentfs_batcher_commit_latency_ns_total.name@) == 39097116,
        name_code(counters.agentfs_batcher_commit_txns.name@) == 27097095,
        name_code(counters.agentfs_batcher_txn_inodes_total.name@) == 32097116,
        name_code(counters.agentfs_batcher_txn_inodes_max.name@) == 30097115,
        name_code(counters.wal_checkpoint.name@ + "_count"@) == 20119099,
        name_code(counters.wal_checkpoint.name@ + "_nanos"@) == 20119110,
{
    reveal_strlit("agentfs_batcher_drains_bytes");
    reveal_strlit("agentfs_batcher_drains_explicit");
    reveal_strlit("agentfs_batcher_pending_max_bytes");
    reveal_strlit("agentfs_batcher_coalesced_ranges");
    reveal_strlit("agentfs_batcher_commit_latency_ns_total");
    reveal_strlit("agentfs_batcher_commit_txns");
    reveal_strlit("agentfs_batcher_txn_inodes_total");
    reveal_strlit("agentfs_batcher_txn_inodes_max");
    reveal_strlit("wal_checkpoint");
    reveal_strlit("_count");
    reveal_strlit("_nanos");
}

/// Counters have different names.
pub proof fn lemma_core_codes(counters: CoreCounters)
    requires
        counters.named(),
    ensures
        name_code(counters.connection_wait.name@ + "_count"@) == 21099099,
        name_code(counters.connection_wait.name@ + "_nanos"@) == 21099110,
        name_code(counters.connection_create.name@) == 17099114,
        name_code(counters.connection_reuse.name@) == 16099114,
        name_code(counters.connection_drop_discards.name@) == 24099099,
        name_code(counters.connection_health_evictions.name@) == 27099116,
        name_code(counters.lookup_count.name@) == 12108099,
        name_code(counters.lookup_delta_count.name@) == 18108099,
        name_code(counters.lookup_base_count.name@) == 17108099,
        name_code(counters.lookup_whiteout_count.name@) == 21108099,
        name_code(counters.getattr_count.name@) == 13103099,
        name_code(counters.readdir_count.name@) == 13114099,
        name_code(counters.readdir_plus_count.name@) == 18114099,
        name_code(counters.path_resolution_count.name@) == 21112099,
        name_code(counters.path_component_count.name@) == 20112099,
        name_code(counters.path_cache_hits.name@) == 15112095,
        name_code(counters.path_cache_misses.name@) == 17112105,
        name_code(counters.negative_lookup_count.name@) == 21110099,
        name_code(counters.negative_cache_hits.name@) == 19110095,
        name_code(counters.negative_cache_misses.name@) == 21110105,
        name_code(counters.negative_cache_invalidations.name@) == 28110116,
        name_code(counters.attr_cache_hits.name@) == 15097095,
        name_code(counters.attr_cache_misses.name@) == 17097105,
        name_code(counters.dentry_cache_hits.name@) == 17100095,
        name_code(counters.dentry_cache_misses.name@) == 19100105,
        name_code(counters.chunk_read_queries.name@) == 18099101,
        name_code(counters.chunk_read_chunks.name@) == 17099104,
        name_code(counters.chunk_write_chunks.name@) == 18099104,
        name_code(counters.agentfs_batcher_enqueues.name@) == 24097117,
        name_code(counters.agentfs_batcher_drains_timer.name@) == 28097116,
        name_code(counters.agentfs_batcher_drains_bytes.name@) == 28097098,
        name_code(counters.agentfs_batcher_drains_explicit.name@) == 31097108,
        name_code(counters.agentfs_batcher_pending_max_bytes.name@) == 33097098,
        name_code(counters.agentfs_batcher_coalesced_ranges.name@) == 32097097,
        name_code(counters.agentfs_batcher_commit_latency_ns_total.name@) == 39097116,
        name_code(counters.agentfs_batcher_commit_txns.name@) == 27097095,
        name_code(counters.agentfs_batcher_txn_inodes_total.name@) == 32097116,
        name_code(counters.agentfs_batcher_txn_inodes_max.name@) == 30097115,
        name_code(counters.wal_checkpoint.name@ + "_count"@) == 20119099,
        name_code(counters.wal_checkpoint.name@ + "_nanos"@) == 20119110,
{
    lemma_core_codes_1(counters);
    lemma_core_codes_2(counters);
    lemma_core_codes_3(counters);
    lemma_core_codes_4(counters);
}

/// Counters have different names.
pub proof fn lemma_base_codes(counters: BaseCounters)
    requires
        counters.named(),
    ensures
        name_code(counters.base_fast_open_eligible.name@) == 23098103,
        name_code(counters.base_fast_open_keep_cache.name@) == 25098099,
        name_code(counters.base_fast_open_passthrough_attempted.name@) == 36098109,
        name_code(counters.base_fast_open_passthrough_succeeded.name@) == 36098101,
        name_code(counters.base_fast_open_passthrough_fallback.name@) == 35098108,
        name_code(counters.base_fast_open_rejected.name@) == 23098101,
        name_code(counters.base_fast_inode_invalidations.name@) == 29098116,
        name_code(counters.base_fast_stale_rejections.name@) == 26098116,
{
    reveal_strlit("base_fast_open_eligible");
    reveal_strlit("base_fast_open_keep_cache");
    reveal_strlit("base_fast_open_passthrough_attempted");
    reveal_strlit("base_fast_open_passthrough_succeeded");
    reveal_strlit("base_fast_open_passthrough_fallback");
    reveal_strlit("base_fast_open_rejected");
    reveal_strlit("base_fast_inode_invalidations");
    reveal_strlit("base_fast_stale_rejections");
}

impl TelemetrySection for CoreCounters {
    fn name(&self) -> (name: &'static str)
        ensures
            name@ == "core"@,
    {
        "core"
    }

    fn snapshot(&self) -> (counters: TextMap<u64>)
        ensures
            counters@ == self.counters(),
    {
        let mut counters: TextMap<u64> = TextMap::new();
        self.connection_wait.snapshot_into(&mut counters);
        self.connection_create.snapshot_into(&mut counters);
        self.connection_reuse.snapshot_into(&mut counters);
        self.connection_drop_discards.snapshot_into(&mut counters);
        self.connection_health_evictions.snapshot_into(&mut counters);
        self.lookup_count.snapshot_into(&mut counters);
        self.lookup_delta_count.snapshot_into(&mut counters);
        self.lookup_base_count.snapshot_into(&mut counters);
        self.lookup_whiteout_count.snapshot_into(&mut counters);
        self.getattr_count.snapshot_into(&mut counters);
        self.readdir_count.snapshot_into(&mut counters);
        self.readdir_plus_count.snapshot_into(&mut counters);
        self.path_resolution_count.snapshot_into(&mut counters);
        self.path_component_count.snapshot_into(&mut counters);
        self.path_cache_hits.snapshot_into(&mut counters);
        self.path_cache_misses.snapshot_into(&mut counters);
        self.negative_lookup_count.snapshot_into(&mut counters);
        self.negative_cache_hits.snapshot_into(&mut counters);
        self.negative_cache_misses.snapshot_into(&mut counters);
        self.negative_cache_invalidations.snapshot_into(&mut counters);
        self.attr_cache_hits.snapshot_into(&mut counters);
        self.attr_cache_misses.snapshot_into(&mut counters);
        self.dentry_cache_hits.snapshot_into(&mut counters);
        self.dentry_cache_misses.snapshot_into(&mut counters);
        self.chunk_read_queries.snapshot_into(&mut counters);
        self.chunk_read_chunks.snapshot_into(&mut counters);
        self.chunk_write_chunks.snapshot_into(&mut counters);
        self.agentfs_batcher_enqueues.snapshot_into(&mut counters);
        self.agentfs_batcher_drains_timer.snapshot_into(&mut counters);
        self.agentfs_batcher_drains_bytes.snapshot_into(&mut counters);
        self.agentfs_batcher_drains_explicit.snapshot_into(&mut counters);
        self.agentfs_batcher_pending_max_bytes.snapshot_into(&mut counters);
        self.agentfs_batcher_coalesced_ranges.snapshot_into(&mut counters);
        self.agentfs_batcher_commit_latency_ns_total.snapshot_into(&mut counters);
        self.agentfs_batcher_commit_txns.snapshot_into(&mut counters);
        self.agentfs_batcher_txn_inodes_total.snapshot_into(&mut counters);
        self.agentfs_batcher_txn_inodes_max.snapshot_into(&mut counters);
        self.wal_checkpoint.snapshot_into(&mut counters);
        counters
    }
}

/// Counters of the fast path of base files.
#[derive(Debug)]
pub struct BaseCounters {
    pub base_fast_open_eligible: Counter,
    pub base_fast_open_keep_cache: Counter,
    pub base_fast_open_passthrough_attempted: Counter,
    pub base_fast_open_passthrough_succeeded: Counter,
    pub base_fast_open_passthrough_fallback: Counter,
    pub base_fast_open_rejected: Counter,
    pub base_fast_inode_invalidations: Counter,
    pub base_fast_stale_rejections: Counter,
}

impl BaseCounters {
    /// Each counter has its own name.
    pub open spec fn named(self) -> bool {
        &&& self.base_fast_open_eligible.name@ == "base_fast_open_eligible"@
        &&& self.base_fast_open_keep_cache.name@ == "base_fast_open_keep_cache"@
        &&& self.base_fast_open_passthrough_attempted.name@ == "base_fast_open_passthrough_attempted"@
        &&& self.base_fast_open_passthrough_succeeded.name@ == "base_fast_open_passthrough_succeeded"@
        &&& self.base_fast_open_passthrough_fallback.name@ == "base_fast_open_passthrough_fallback"@
        &&& self.base_fast_open_rejected.name@ == "base_fast_open_rejected"@
        &&& self.base_fast_inode_invalidations.name@ == "base_fast_inode_invalidations"@
        &&& self.base_fast_stale_rejections.name@ == "base_fast_stale_rejections"@
    }

    /// All counters at zero, each under its own name.
    pub open spec fn zeroed(self) -> bool {
        &&& self.named()
        &&& self.base_fast_open_eligible.value == 0
        &&& self.base_fast_open_keep_cache.value == 0
        &&& self.base_fast_open_passthrough_attempted.value == 0
        &&& self.base_fast_open_passthrough_succeeded.value == 0
        &&& self.base_fast_open_passthrough_fallback.value == 0
        &&& self.base_fast_open_rejected.value == 0
        &&& self.base_fast_inode_invalidations.value == 0
        &&& self.base_fast_stale_rejections.value == 0
    }

    pub fn new() -> (counters: BaseCounters)
        ensures
            counters.zeroed(),
    {
        BaseCounters {
            base_fast_open_eligible: Counter::new("base_fast_open_eligible"),
            base_fast_open_keep_cache: Counter::new("base_fast_open_keep_cache"),
            base_fast_open_passthrough_attempted: Counter::new("base_fast_open_passthrough_attempted"),
            base_fast_open_passthrough_succeeded: Counter::new("base_fast_open_passthrough_succeeded"),
            base_fast_open_passthrough_fallback: Counter::new("base_fast_open_passthrough_fallback"),
            base_fast_open_rejected: Counter::new("base_fast_open_rejected"),
            base_fast_inode_invalidations: Counter::new("base_fast_inode_invalidations"),
            base_fast_stale_rejections: Counter::new("base_fast_stale_rejections"),
        }
    }
}

impl BaseCounters {
    /// The counters by name.
    pub open spec fn counters(&self) -> Map<Seq<char>, u64> {
        Map::empty()
            .insert(self.base_fast_open_eligible.name@, self.base_fast_open_eligible.value)
            .insert(self.base_fast_open_keep_cache.name@, self.base_fast_open_keep_cache.value)
            .insert(self.base_fast_open_passthrough_attempted.name@, self.base_fast_open_passthrough_attempted.value)
            .insert(self.base_fast_open_passthrough_succeeded.name@, self.base_fast_open_passthrough_succeeded.value)
            .insert(self.base_fast_open_passthrough_fallback.name@, self.base_fast_open_passthrough_fallback.value)
            .insert(self.base_fast_open_rejected.name@, self.base_fast_open_rejected.value)
            .insert(self.base_fast_inode_invalidations.name@, self.base_fast_inode_invalidations.value)
            .insert(self.base_fast_stale_rejections.name@, self.base_fast_stale_rejections.value)
    }
}

impl TelemetrySection for BaseCounters {
    fn name(&self) -> (name: &'static str)
        ensures
            name@ == "base"@,
    {
        "base"
    }

    fn snapshot(&self) -> (counters: TextMap<u64>)
        ensures
            counters@ == self.counters(),
    {
        let mut counters: TextMap<u64> = TextMap::new();
        self.base_fast_open_eligible.snapshot_into(&mut counters);
        self.base_fast_open_keep_cache.snapshot_into(&mut counters);
        self.base_fast_open_passthrough_attempted.snapshot_into(&mut counters);
        self.base_fast_open_passthrough_succeeded.snapshot_into(&mut counters);
        self.base_fast_open_passthrough_fallback.snapshot_into(&mut counters);
        self.base_fast_open_rejected.snapshot_into(&mut counters);
        self.base_fast_inode_invalidations.snapshot_into(&mut counters);
        self.base_fast_stale_rejections.snapshot_into(&mut counters);
        counters
    }
}

} // verus!
