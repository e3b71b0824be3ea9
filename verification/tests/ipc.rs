use spark_dashboard::ipc::{
    invalid_request_response, oversized_request_response, response_line_check, ConfigChanges,
    IpcRequest, IpcResponse, MAX_REQUEST_BYTES, MAX_RESPONSE_BYTES,
};

#[test]
fn test_config_changes_validate_valid() {
    let c = ConfigChanges {
        retention_days: Some(30),
        memory_interval_secs: Some(5),
        thermal_interval_secs: Some(60),
        compute_interval_secs: Some(300),
        power_interval_secs: Some(10),
    };
    assert!(c.validate().is_ok());
}

#[test]
fn test_config_changes_validate_bounds() {
    let zero_interval = ConfigChanges { memory_interval_secs: Some(0), ..Default::default() };
    assert!(zero_interval.validate().err().unwrap().contains("memory_interval_secs"));

    let huge_interval = ConfigChanges { thermal_interval_secs: Some(999_999), ..Default::default() };
    assert!(huge_interval.validate().err().unwrap().contains("thermal_interval_secs"));

    let zero_retention = ConfigChanges { retention_days: Some(0), ..Default::default() };
    assert!(zero_retention.validate().err().unwrap().contains("retention_days"));
}

#[test]
fn validate_messages_and_order() {
    let c = ConfigChanges {
        retention_days: Some(0),
        compute_interval_secs: Some(0),
        ..Default::default()
    };
    assert_eq!(c.validate().unwrap_err(), "compute_interval_secs must be between 1 and 86400 seconds");
    let r = ConfigChanges { retention_days: Some(3_651), ..Default::default() };
    assert_eq!(r.validate().unwrap_err(), "retention_days must be between 1 and 3650");
    let edge = ConfigChanges {
        retention_days: Some(3_650),
        memory_interval_secs: Some(1),
        power_interval_secs: Some(86_400),
        ..Default::default()
    };
    assert!(edge.validate().is_ok());
    assert!(ConfigChanges::default().validate().is_ok());
}

#[test]
fn response_constructors() {
    let ok = IpcResponse::ok(5);
    assert!(ok.ok && !ok.skipped && ok.timestamp == Some(5) && ok.error.is_none());
    let sk = IpcResponse::skipped(6);
    assert!(sk.ok && sk.skipped && sk.timestamp == Some(6));
    let ack = IpcResponse::ack();
    assert!(ack.ok && !ack.skipped && ack.timestamp.is_none());
    let e = IpcResponse::err("boom".to_string());
    assert!(!e.ok && e.error.as_deref() == Some("boom") && e.timestamp.is_none());
}

#[test]
fn request_values() {
    let r = IpcRequest::Sample { stream: "memory".to_string() };
    match r {
        IpcRequest::Sample { stream } => assert_eq!(stream, "memory"),
        IpcRequest::Config { .. } => panic!("wrong variant"),
    }
}

#[test]
fn line_protocol_limits() {
    assert!(oversized_request_response(MAX_REQUEST_BYTES).is_none());
    let r = oversized_request_response(MAX_REQUEST_BYTES + 1).unwrap();
    assert_eq!(r.error.as_deref(), Some("request too large"));
    let r = invalid_request_response("expected value at line 1 column 1");
    assert_eq!(r.error.as_deref(), Some("invalid json request: expected value at line 1 column 1"));
    assert_eq!(response_line_check(0).unwrap_err(), "collector closed the connection without responding");
    assert!(response_line_check(1).is_ok());
    assert!(response_line_check(MAX_RESPONSE_BYTES).is_ok());
    assert_eq!(response_line_check(MAX_RESPONSE_BYTES + 1).unwrap_err(), "collector response too large");
}
