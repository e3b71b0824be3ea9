use spark_dashboard::collector::engine::{
    prune_after, sample_response, sample_stream, RuntimeConfig, SampleStream,
};
use spark_dashboard::collector::reader::parse_proc_meminfo;
use spark_dashboard::config::parse_config;
use spark_dashboard::db::{prune_cutoff, timestamp_text};
use spark_dashboard::server::handler::{
    current_reply, history_params, history_reply, memory_history_response, parse_query_params,
    ApiReply,
};

/// The paging of a history request URL, as the server reads it.
fn paging(url: &str) -> Result<(i32, i32), ApiReply> {
    let p = parse_query_params(url);
    let limit = p.get_str("limit");
    let offset = p.get_str("offset");
    history_params(limit.as_deref(), offset.as_deref())
}

#[test]
fn test_handle_memory_history_defaults() {
    assert_eq!(paging("/api/memory/history").unwrap(), (100, 0));
    let stat = parse_proc_meminfo("MemTotal: 1 kB\n", 1_700_000_000);
    let page = memory_history_response(vec![stat], 1);
    assert_eq!(page.count, 1);
    assert_eq!(history_reply(Ok("{}".to_string())).status, 200);
}

#[test]
fn test_handle_memory_history_custom_params() {
    assert_eq!(paging("/api/memory/history?limit=50&offset=10").unwrap(), (50, 10));
}

#[test]
fn test_handle_memory_history_limit_exceeds_max() {
    assert_eq!(paging("/api/memory/history?limit=5000").unwrap_err().status, 400);
}

#[test]
fn test_handle_memory_history_invalid_limit() {
    assert_eq!(paging("/api/memory/history?limit=-1").unwrap_err().status, 400);
}

#[test]
fn history_params_that_do_not_parse_are_refused() {
    assert_eq!(paging("/api/memory/history?limit=abc").unwrap_err().status, 400);
    assert_eq!(paging("/api/memory/history?offset=abc").unwrap_err().status, 400);
}

#[test]
fn test_handle_memory_history_invalid_offset() {
    assert_eq!(paging("/api/memory/history?offset=-1").unwrap_err().status, 400);
}

#[test]
fn test_handle_thermal_history_defaults() {
    assert_eq!(paging("/api/thermal/history").unwrap(), (100, 0));
}

#[test]
fn test_handle_thermal_history_custom_params() {
    assert_eq!(paging("/api/thermal/history?limit=50&offset=10").unwrap(), (50, 10));
}

#[test]
fn test_handle_thermal_history_invalid_limit() {
    assert_eq!(paging("/api/thermal/history?limit=-1").unwrap_err().status, 400);
}

#[test]
fn test_handle_compute_history_defaults() {
    assert_eq!(paging("/api/compute/history").unwrap(), (100, 0));
}

#[test]
fn test_handle_compute_history_invalid_limit() {
    assert_eq!(paging("/api/compute/history?limit=-1").unwrap_err().status, 400);
}

#[test]
fn test_handle_power_history_defaults() {
    assert_eq!(paging("/api/power/history").unwrap(), (100, 0));
}

#[test]
fn test_handle_power_history_invalid_limit() {
    assert_eq!(paging("/api/power/history?limit=-1").unwrap_err().status, 400);
}

#[test]
fn test_handle_memory_current_empty_db() {
    assert_eq!(current_reply(Ok(None)).status, 503);
}

#[test]
fn test_handle_thermal_current_empty_db() {
    assert_eq!(current_reply(Ok(None)).status, 503);
}

#[test]
fn test_handle_compute_current_empty_db() {
    assert_eq!(current_reply(Ok(None)).status, 503);
}

#[test]
fn test_handle_power_current_empty_db() {
    let r = current_reply(Ok(None));
    assert_eq!((r.status, r.body.as_str()), (503, "No data available"));
}

#[test]
fn test_handle_memory_current() {
    let r = current_reply(Ok(Some(r#"{"timestamp":1}"#.to_string())));
    assert_eq!((r.status, r.content_type.as_str()), (200, "application/json"));
}

#[test]
fn test_ipc_request_memory_sample() {
    assert_eq!(sample_stream("memory").unwrap(), SampleStream::Memory);
    let stat = parse_proc_meminfo("MemTotal: 16384000 kB\n", 1_700_000_000);
    let resp = sample_response(Ok((false, stat.timestamp)));
    assert!(resp.ok, "resp was: {:?}", resp);
    assert!(!resp.skipped);
    assert!(resp.timestamp.unwrap() > 0);
}

#[test]
fn test_ipc_request_power_dispatch() {
    assert_eq!(sample_stream("power").unwrap(), SampleStream::Power);
    // No GPU power reading: the dispatch answers with the error, no timestamp.
    let resp = sample_response(Err("power: no GPU power reading available (nvidia-smi)".to_string()));
    assert!(!resp.ok);
    assert!(resp.timestamp.is_none());
}

#[test]
fn test_prune_removes_old_rows() {
    let mut rt = RuntimeConfig::from_config(&parse_config("[history]\nretention_days = 7\n", None));
    let now = 1_700_000_000;
    // Seven hours since the last prune: the window is open.
    let days = prune_after(&mut rt, 7 * 3600, std::time::Instant::now()).unwrap();
    assert_eq!(days, 7);
    let cutoff = timestamp_text(prune_cutoff(now, days));
    let fresh = timestamp_text(now);
    let old = timestamp_text(now - 30 * 86_400);
    // `DELETE ... WHERE timestamp < cutoff` removes the old row only.
    assert!(old < cutoff);
    assert!(!(fresh < cutoff));
}
