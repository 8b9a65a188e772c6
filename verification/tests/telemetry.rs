use agentfs_core::telemetry::record::{
    record_agentfs_batcher_coalesced_ranges, record_agentfs_batcher_commit_latency,
    record_agentfs_batcher_commit_txn, record_base_fast_open_eligible, record_connection_create,
    record_negative_cache_hit, record_negative_cache_miss, record_path_resolution,
};
use agentfs_core::telemetry::{
    checkpoint_payload, is_enabled, snapshot, summary_payload, take_summary_payload, timer, Counter,
    Gauge, Max, ProfileSnapshot, Registry, Sum, Telemetry, TelemetrySection, Timer,
};
use agentfs_core::text_map::TextMap;
use serde_json::Value;

struct TestCounters {
    hits: Counter,
    bytes: Sum,
    latency: Timer,
    peak: Max,
    current: Gauge,
}

impl TestCounters {
    fn new() -> Self {
        TestCounters {
            hits: Counter::new("hits"),
            bytes: Sum::new("bytes"),
            latency: Timer::new("latency"),
            peak: Max::new("peak"),
            current: Gauge::new("current"),
        }
    }
}

impl TelemetrySection for TestCounters {
    fn name(&self) -> &'static str {
        "test"
    }

    fn snapshot(&self) -> TextMap<u64> {
        let mut out = TextMap::new();
        self.hits.snapshot_into(&mut out);
        self.bytes.snapshot_into(&mut out);
        self.latency.snapshot_into(&mut out);
        self.peak.snapshot_into(&mut out);
        self.current.snapshot_into(&mut out);
        out
    }
}

#[test]
fn macro_counters_accumulate_expected_values() {
    let mut counters = TestCounters::new();
    counters.hits.increment();
    counters.bytes.add(5);
    counters.bytes.add(7);
    counters.latency.record(11);
    counters.latency.record(13);
    counters.peak.update(4);
    counters.peak.update(3);
    counters.current.set(9);

    let section = counters.snapshot();
    assert_eq!(section.get("hits"), Some(&1));
    assert_eq!(section.get("bytes"), Some(&12));
    assert_eq!(section.get("latency_count"), Some(&2));
    assert_eq!(section.get("latency_nanos"), Some(&24));
    assert_eq!(section.get("peak"), Some(&4));
    assert_eq!(section.get("current"), Some(&9));
    assert_eq!(
        *section.keys(),
        vec!["bytes", "current", "hits", "latency_count", "latency_nanos", "peak"]
    );
}

fn registry() -> Registry<TestCounters> {
    Registry::new()
}

#[test]
fn snapshot_has_core_and_base_sections() {
    let mut telemetry = Telemetry::new(true);
    telemetry.core.connection_wait.record(7);
    record_connection_create(&mut telemetry);
    record_base_fast_open_eligible(&mut telemetry);

    let snapshot = snapshot(&telemetry, &registry());
    assert!(snapshot.sections.get("core").is_some());
    assert!(snapshot.sections.get("base").is_some());
    assert!(snapshot.counter("connection_wait_count") >= 1);
    assert!(snapshot.counter("connection_wait_nanos") >= 7);
    assert!(snapshot.counter("connection_create") >= 1);
    assert!(snapshot.counter("base_fast_open_eligible") >= 1);
    assert_eq!(snapshot.counter("no such counter"), 0);
}

#[test]
fn summary_json_is_structured_with_sections_and_flat_counters() {
    let mut core = TextMap::new();
    core.insert("connection_create", 1);
    let mut sections = TextMap::new();
    sections.insert("core", core);
    let snapshot = ProfileSnapshot { sections };
    let value: Value = serde_json::from_str(&summary_payload(
        "unit_profile_summary",
        "unit-test",
        &snapshot,
    ))
    .expect("summary json should parse");

    assert_eq!(value["event"], "unit_profile_summary");
    assert_eq!(value["source"], "unit-test");
    assert_eq!(value["sections"]["core"]["connection_create"], 1);
    assert_eq!(value["counters"]["connection_create"], 1);
    assert_eq!(value["passthrough_supported"], false);
    assert_eq!(value["fallback_read_path"], "hostfs");
}

#[test]
fn sdk_only_usage_does_not_emit_report() {
    let mut telemetry = Telemetry::new(true);
    record_connection_create(&mut telemetry);
    let snapshot = snapshot(&telemetry, &registry());
    assert!(snapshot.counter("connection_create") >= 1);
    assert!(!telemetry.summary_emitted);
}

#[test]
fn nothing_is_counted_while_disabled() {
    let mut telemetry = Telemetry::new(false);
    assert!(!is_enabled(&telemetry));
    record_connection_create(&mut telemetry);
    record_negative_cache_hit(&mut telemetry);
    record_path_resolution(&mut telemetry, 4);
    let guard = timer(&telemetry, 100);
    guard.stop(&mut telemetry.core.connection_wait, 400);
    let snapshot = snapshot(&telemetry, &registry());
    assert_eq!(snapshot.counter("connection_create"), 0);
    assert_eq!(snapshot.counter("negative_cache_hits"), 0);
    assert_eq!(snapshot.counter("path_component_count"), 0);
    assert_eq!(snapshot.counter("connection_wait_count"), 0);
    assert!(take_summary_payload(&mut telemetry, &registry(), "e", "s").is_none());
    assert!(checkpoint_payload(&mut telemetry, &registry(), "e").is_none());
}

#[test]
fn a_running_timer_counts_its_duration() {
    let mut telemetry = Telemetry::new(true);
    let guard = timer(&telemetry, 100);
    guard.stop(&mut telemetry.core.wal_checkpoint, 350);
    let snapshot = snapshot(&telemetry, &registry());
    assert_eq!(snapshot.counter("wal_checkpoint_count"), 1);
    assert_eq!(snapshot.counter("wal_checkpoint_nanos"), 250);
}

#[test]
fn long_durations_wrap() {
    let mut latency = Timer::new("latency");
    latency.record((1u128 << 64) + 5);
    latency.record(u128::from(u64::MAX));
    assert_eq!(latency.count, 2);
    assert_eq!(latency.nanos, 4);
    let mut telemetry = Telemetry::new(true);
    record_agentfs_batcher_commit_latency(&mut telemetry, (1u128 << 64) + 9);
    assert_eq!(telemetry.core.agentfs_batcher_commit_latency_ns_total.value, 9);
}

#[test]
fn one_commit_updates_three_counters() {
    let mut telemetry = Telemetry::new(true);
    record_agentfs_batcher_commit_txn(&mut telemetry, 5);
    record_agentfs_batcher_commit_txn(&mut telemetry, 2);
    record_agentfs_batcher_coalesced_ranges(&mut telemetry, 0);
    record_agentfs_batcher_coalesced_ranges(&mut telemetry, 6);
    let snapshot = snapshot(&telemetry, &registry());
    assert_eq!(snapshot.counter("agentfs_batcher_commit_txns"), 2);
    assert_eq!(snapshot.counter("agentfs_batcher_txn_inodes_total"), 7);
    assert_eq!(snapshot.counter("agentfs_batcher_txn_inodes_max"), 5);
    assert_eq!(snapshot.counter("agentfs_batcher_coalesced_ranges"), 6);
}

#[test]
fn the_summary_is_taken_once() {
    let mut telemetry = Telemetry::new(true);
    let first = take_summary_payload(&mut telemetry, &registry(), "done", "test");
    assert!(first.is_some());
    assert!(take_summary_payload(&mut telemetry, &registry(), "done", "test").is_none());
}

#[test]
fn checkpoints_are_numbered() {
    let mut telemetry = Telemetry::new(true);
    for expected in ["phase-checkpoint-1", "phase-checkpoint-2"] {
        let text = checkpoint_payload(&mut telemetry, &registry(), "phase").unwrap();
        let value: Value = serde_json::from_str(&text).unwrap();
        assert_eq!(value["source"], expected);
        assert_eq!(value["event"], "phase");
    }
}

#[test]
fn the_first_section_of_a_name_stays() {
    let telemetry = Telemetry::new(true);
    let mut registry = registry();
    let mut first = TestCounters::new();
    first.bytes.add(3);
    let mut second = TestCounters::new();
    second.bytes.add(4);
    registry.register(first);
    registry.register(second);
    assert_eq!(registry.sections.len(), 1);
    assert_eq!(registry.names, vec!["test"]);
    let snapshot = registry.snapshot(&telemetry);
    assert_eq!(*snapshot.sections.keys(), vec!["base", "core", "test"]);
    assert_eq!(snapshot.counter("bytes"), 3);
}

#[test]
fn later_sections_prevail_in_the_flat_view() {
    let mut a = TextMap::new();
    a.insert("x", 1);
    a.insert("y", 2);
    let mut b = TextMap::new();
    b.insert("y", 9);
    let mut sections = TextMap::new();
    sections.insert("beta", b);
    sections.insert("alpha", a);
    let flat = ProfileSnapshot { sections }.flat();
    assert_eq!(*flat.keys(), vec!["x", "y"]);
    assert_eq!(*flat.values(), vec![1, 9]);
}

#[test]
fn a_record_shows_in_one_entry() {
    for enabled in [true, false] {
        let mut telemetry = Telemetry::new(enabled);
        record_negative_cache_miss(&mut telemetry);
        let before = snapshot(&telemetry, &registry());
        record_base_fast_open_eligible(&mut telemetry);
        record_negative_cache_hit(&mut telemetry);
        let after = snapshot(&telemetry, &registry());
        let mut expected = before.clone();
        if enabled {
            for (section, key) in
                [("base", "base_fast_open_eligible"), ("core", "negative_cache_hits")]
            {
                let mut counters = expected.sections.get(section).unwrap().clone();
                counters.insert(key, counters.get(key).unwrap() + 1);
                expected.sections.insert(section, counters);
            }
            assert_ne!(after, before);
        }
        assert_eq!(after, expected);
    }
}
