use spark_dashboard::collector::engine::{
    compute_guard, config_response, due_streams, prune_after, sample_response, sample_stream,
    thermal_guard, RuntimeConfig, SampleStream, COMPUTE_SAMPLE_GUARD_SECS, POWER_SOURCE,
};
use spark_dashboard::config::{
    CollectorConfig, ComputeConfig, Config, DatabaseConfig, HistoryConfig, MemoryConfig,
    PowerConfig, ServerConfig, ThermalConfig,
};
use spark_dashboard::ipc::ConfigChanges;

fn test_collector_config() -> Config {
    Config {
        server: ServerConfig { host: "127.0.0.1".to_string(), port: 8090 },
        collector: CollectorConfig { ipc_socket: "/tmp/spark-ipc-test-engine.sock".to_string() },
        database: DatabaseConfig { path: ":memory:".to_string(), wal_mode: false },
        history: HistoryConfig { retention_days: 7 },
        thermal: ThermalConfig { collection_interval_secs: 5 },
        memory: MemoryConfig { collection_interval_secs: 10 },
        compute: ComputeConfig { collection_interval_secs: 5 },
        power: PowerConfig { collection_interval_secs: 5 },
    }
}

#[test]
fn test_runtime_config_apply_valid() {
    let mut rt = RuntimeConfig::from_config(&test_collector_config());
    let changes = ConfigChanges {
        retention_days: Some(3),
        memory_interval_secs: Some(2),
        thermal_interval_secs: Some(4),
        compute_interval_secs: Some(8),
        power_interval_secs: Some(16),
    };
    assert!(rt.apply(&changes).is_ok());
    assert_eq!(rt.retention_days, 3);
    assert_eq!(rt.memory_interval_secs, 2);
    assert_eq!(rt.thermal_interval_secs, 4);
    assert_eq!(rt.compute_interval_secs, 8);
    assert_eq!(rt.power_interval_secs, 16);
}

#[test]
fn test_runtime_config_apply_partial() {
    let mut rt = RuntimeConfig::from_config(&test_collector_config());
    let changes = ConfigChanges { retention_days: Some(14), ..Default::default() };
    let memory_before = rt.memory_interval_secs;
    assert!(rt.apply(&changes).is_ok());
    assert_eq!(rt.retention_days, 14);
    assert_eq!(rt.memory_interval_secs, memory_before);
}

#[test]
fn test_runtime_config_rejects_invalid_without_applying() {
    let mut rt = RuntimeConfig::from_config(&test_collector_config());
    let changes = ConfigChanges {
        retention_days: Some(14),
        memory_interval_secs: Some(7),
        thermal_interval_secs: Some(90_000),
        ..Default::default()
    };
    let err = rt.apply(&changes).unwrap_err();
    assert!(err.contains("thermal_interval_secs"));
    assert_eq!(rt.retention_days, test_collector_config().history.retention_days);
    assert_eq!(rt.memory_interval_secs, test_collector_config().memory.collection_interval_secs);
}

#[test]
fn test_ipc_request_unknown_stream() {
    let resp = sample_stream("bogus").unwrap_err();
    assert!(!resp.ok);
    assert!(resp.error.unwrap().contains("unknown stream"));
}

#[test]
fn test_ipc_request_unknown_stream_includes_power() {
    assert_eq!(sample_stream("power").unwrap(), SampleStream::Power);
    assert_eq!(sample_stream("memory").unwrap(), SampleStream::Memory);
    assert_eq!(sample_stream("thermal").unwrap(), SampleStream::Thermal);
    assert_eq!(sample_stream("compute").unwrap(), SampleStream::Compute);
    let resp = sample_stream("Power").unwrap_err();
    assert_eq!(resp.error.as_deref(), Some("unknown stream 'Power'"));
}

#[test]
fn test_ipc_request_config_roundtrip() {
    let mut rt = RuntimeConfig::from_config(&test_collector_config());
    let changes = ConfigChanges { memory_interval_secs: Some(3), ..Default::default() };
    let resp = config_response(&mut rt, &changes);
    assert!(resp.ok, "{:?}", resp);
    assert!(resp.timestamp.is_none());
    assert_eq!(rt.memory_interval_secs, 3);
}

#[test]
fn test_ipc_request_config_invalid_no_side_effects() {
    let mut rt = RuntimeConfig::from_config(&test_collector_config());
    let before = rt.memory_interval_secs;
    let changes = ConfigChanges {
        memory_interval_secs: Some(1),
        retention_days: Some(0),
        ..Default::default()
    };
    let resp = config_response(&mut rt, &changes);
    assert!(!resp.ok);
    assert!(resp.error.unwrap().contains("retention_days"));
    assert_eq!(rt.memory_interval_secs, before);
}

#[test]
fn test_thermal_guard_same_second_skips() {
    assert_eq!(thermal_guard(Some("1700000000"), 1_700_000_000), Some(1_700_000_000));
    assert_eq!(thermal_guard(Some("1700000000"), 1_700_000_001), None);
    assert_eq!(thermal_guard(None, 1_700_000_000), None);
}

#[test]
fn test_ipc_request_compute_guard() {
    let now = 1_700_000_010;
    assert_eq!(compute_guard(Some("1700000010"), now), Some(1_700_000_010));
    assert_eq!(compute_guard(Some("1700000008"), now), Some(1_700_000_008));
    assert_eq!(compute_guard(Some("1700000007"), now), None);
    assert_eq!(compute_guard(None, now), None);
    assert_eq!(COMPUTE_SAMPLE_GUARD_SECS, 2);
}

#[test]
fn compute_guard_compares_texts() {
    // The guard orders stored texts as strings: a shorter text can sort after.
    assert_eq!(compute_guard(Some("9"), 12), Some(9));
    // A stored text that is not a number is reported as `now`.
    assert_eq!(compute_guard(Some("zzz"), 12), Some(12));
}

#[test]
fn sample_responses() {
    let r = sample_response(Ok((true, 5)));
    assert!(r.ok && r.skipped && r.timestamp == Some(5));
    let r = sample_response(Ok((false, 6)));
    assert!(r.ok && !r.skipped && r.timestamp == Some(6));
    let r = sample_response(Err("memory: boom".to_string()));
    assert!(!r.ok && r.error.as_deref() == Some("memory: boom"));
}

#[test]
fn due_and_prune() {
    let mut rt = RuntimeConfig::from_config(&test_collector_config());
    let d = due_streams(&rt, 10, 4, 5, 100);
    assert!(d.memory && !d.thermal && d.compute && d.power);
    // Just started: the six-hour prune window is closed.
    assert_eq!(prune_after(&mut rt, 0, std::time::Instant::now()), None);
    assert_eq!(POWER_SOURCE, "nvidia-smi power.draw");
}

#[test]
fn prune_every_six_hours() {
    let mut rt = RuntimeConfig::from_config(&test_collector_config());
    let now = std::time::Instant::now();
    assert_eq!(prune_after(&mut rt, 21_599, now), None);
    assert_eq!(prune_after(&mut rt, 21_600, now), Some(7));
    assert_eq!(rt.last_prune, now);
    rt.retention_days = 0;
    assert_eq!(prune_after(&mut rt, 30_000, now), Some(1));
}
