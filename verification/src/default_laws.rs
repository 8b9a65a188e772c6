//! What holds where nothing else is said.
use crate::batcher::AgentFSWriteBatcher;
use crate::config::BatcherConfig;
use crate::overlay::{PartialOriginMode, PartialOriginPolicy};
use crate::pool::PoolOptions;
use crate::stats::Stats;
use vstd::prelude::*;

verus! {

/// Files of a megabyte and more are copied in parts where that is left to their size, unless
/// another threshold is set.
pub proof fn large_files_are_copied_in_parts(
    stats: Stats,
    policy: PartialOriginPolicy,
    other: PartialOriginPolicy,
    threshold: u64,
    yes: bool,
    other_yes: bool,
)
    requires
        call_ensures(PartialOriginPolicy::new, (PartialOriginMode::Auto,), policy),
        call_ensures(PartialOriginPolicy::with_threshold_bytes, (policy, threshold), other),
        call_ensures(PartialOriginPolicy::permits, (&policy, &stats), yes),
        call_ensures(PartialOriginPolicy::permits, (&other, &stats), other_yes),
    ensures
        yes <==> stats.mode & 0o170000 == 0o100000 && stats.size >= 1024 * 1024,
        other_yes <==> stats.mode & 0o170000 == 0o100000 && 0 <= stats.size && threshold
            <= stats.size,
{
}

/// A single connection is one, setups and timeouts are set one by one, and the rest stays.
pub proof fn pool_options_are_set_one_by_one(
    single: PoolOptions,
    timeout: u64,
    timed: PoolOptions,
    setup: Vec<String>,
    prepared: PoolOptions,
)
    requires
        call_ensures(PoolOptions::single_connection, (), single),
        call_ensures(PoolOptions::with_timeout, (single, timeout), timed),
        call_ensures(PoolOptions::with_setup_sql, (timed, setup), prepared),
    ensures
        single.max_connections == 1,
        single.timeout_millis == 30_000,
        single.setup_sql@.len() == 0,
        prepared.max_connections == 1,
        prepared.timeout_millis == timeout,
        prepared.setup_sql == setup,
{
}

/// A new queue is empty and has the limits that it was made with; a commit takes one inode
/// and one byte along at least.
pub proof fn a_queue_has_the_limits_it_was_made_with(
    config: BatcherConfig,
    batcher: AgentFSWriteBatcher,
    ino: i64,
)
    requires
        call_ensures(AgentFSWriteBatcher::from_config, (&config,), batcher),
    ensures
        !batcher@.pending.contains_key(ino),
        batcher@.total == 0,
        !batcher@.drain_scheduled,
        batcher.batch_bytes == config.inode_bytes,
        batcher.batch_global_bytes == config.global_bytes,
        config.txn_max_inodes >= 1 ==> batcher.txn_max_inodes == config.txn_max_inodes,
        config.txn_max_inodes == 0 ==> batcher.txn_max_inodes == 1,
        config.txn_max_bytes >= 1 ==> batcher.txn_max_bytes == config.txn_max_bytes,
        config.txn_max_bytes == 0 ==> batcher.txn_max_bytes == 1,
{
}

} // verus!
