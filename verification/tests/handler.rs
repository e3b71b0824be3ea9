use spark_dashboard::collector::engine::SampleStream;
use spark_dashboard::collector::MemoryStat;
use spark_dashboard::ipc::IpcResponse;
use spark_dashboard::server::handler::{
    api_route, config_changes_from_body, config_changes_from_members, config_post_reply, content_type, current_reply,
    database_open_error_reply, endpoint_not_found_reply, history_params, history_reply,
    index_reply, memory_history_response, mime_for_ext, not_found_reply, parse_query_params, route_url,
    static_file_reply, urldecode, ApiRoute, Route,
};

#[test]
fn test_content_type_detection() {
    assert_eq!(content_type("page.html"), "text/html; charset=utf-8");
    assert_eq!(content_type("style.css"), "text/css; charset=utf-8");
    assert_eq!(content_type("app.js"), "application/javascript; charset=utf-8");
    assert_eq!(content_type("data.json"), "application/json");
    assert_eq!(content_type("image.png"), "image/png");
    assert_eq!(content_type("unknown.xyz"), "application/octet-stream");
}

#[test]
fn content_type_by_extension_only() {
    assert_eq!(content_type("dir.v2/README"), "application/octet-stream");
    assert_eq!(content_type("/srv/static/assets/index-abc.js"), "application/javascript; charset=utf-8");
    assert_eq!(content_type(".hidden"), "application/octet-stream");
}

#[test]
fn routes_of_paths() {
    assert!(matches!(route_url("/api/memory/current"), Route::Api));
    match route_url("/static/app.js") {
        Route::StaticFile(rel) => assert_eq!(rel, "app.js"),
        other => panic!("unexpected {:?}", other),
    }
    match route_url("/assets/a.css") {
        Route::StaticFile(rel) => assert_eq!(rel, "assets/a.css"),
        other => panic!("unexpected {:?}", other),
    }
    assert!(matches!(route_url("/"), Route::Index));
    assert!(matches!(route_url("/favicon.ico"), Route::NotFound));
}

#[test]
fn api_endpoints() {
    assert!(matches!(api_route("/api/config", "POST"), ApiRoute::ConfigPost));
    assert!(matches!(api_route("/api/config", "GET"), ApiRoute::NotFound));
    assert!(matches!(api_route("/api/config?x=1", "POST"), ApiRoute::ConfigPost));
    assert!(matches!(api_route("/api/memory/current", "GET"), ApiRoute::Current(SampleStream::Memory)));
    assert!(matches!(
        api_route("/api/thermal/history?limit=5", "GET"),
        ApiRoute::History(SampleStream::Thermal)
    ));
    assert!(matches!(api_route("/api/compute/currentish", "GET"), ApiRoute::Current(SampleStream::Compute)));
    assert!(matches!(api_route("/api/power/history", "GET"), ApiRoute::History(SampleStream::Power)));
    assert!(matches!(api_route("/api/nothing", "GET"), ApiRoute::NotFound));
    assert!(matches!(api_route("/api/host", "GET"), ApiRoute::Host));
    assert!(matches!(api_route("/api/hostname", "GET"), ApiRoute::NotFound));
}

#[test]
fn query_parameters() {
    let p = parse_query_params("/api/memory/history?limit=5&offset=10&x&limit=7&name=a+b%20c");
    assert_eq!(p.get_str("limit").as_deref(), Some("7"));
    assert_eq!(p.get_str("offset").as_deref(), Some("10"));
    assert_eq!(p.get_str("x"), None);
    assert_eq!(p.get_str("name").as_deref(), Some("a b c"));
    let none = parse_query_params("/api/memory/history");
    assert_eq!(none.get_str("limit"), None);
}

#[test]
fn url_decoding() {
    assert_eq!(urldecode("a+b"), "a b");
    assert_eq!(urldecode("a%20b"), "a b");
    assert_eq!(urldecode("a%2Fb"), "a%2Fb");
}

#[test]
fn history_paging() {
    assert_eq!(history_params(None, None).unwrap(), (100, 0));
    assert_eq!(history_params(Some("50"), Some("10")).unwrap(), (50, 10));
    assert_eq!(history_params(Some("abc"), None).unwrap_err().status, 400);
    assert_eq!(history_params(None, Some("abc")).unwrap_err().status, 400);
    assert_eq!(history_params(Some("1000"), Some("0")).unwrap(), (1000, 0));
    let e = history_params(Some("1001"), None).unwrap_err();
    assert_eq!(e.status, 400);
    assert_eq!(e.body, r#"{"error":"invalid parameters"}"#);
    assert_eq!(history_params(Some("0"), None).unwrap_err().status, 400);
    assert_eq!(history_params(None, Some("-1")).unwrap_err().status, 400);
}

#[test]
fn replies() {
    let r = current_reply(Ok(Some("{}".to_string())));
    assert_eq!((r.status, r.body.as_str(), r.content_type.as_str()), (200, "{}", "application/json"));
    let r = current_reply(Ok(None));
    assert_eq!((r.status, r.body.as_str(), r.content_type.as_str()), (503, "No data available", "text/plain"));
    let r = current_reply(Err(()));
    assert_eq!((r.status, r.body.as_str()), (500, r#"{"error":"database error"}"#));
    assert_eq!(history_reply(Ok("[]".to_string())).status, 200);
    assert_eq!(history_reply(Err(())).status, 500);
    let r = static_file_reply(Some("body".to_string()), "/srv/x/app.css");
    assert_eq!((r.status, r.content_type.as_str()), (200, "text/css; charset=utf-8"));
    assert_eq!(static_file_reply(None, "x.css").status, 404);
    assert_eq!(index_reply(None).status, 503);
    assert_eq!(index_reply(Some("<html>".to_string())).content_type, "text/html; charset=utf-8");
    assert_eq!(not_found_reply().body, "Not Found");
    assert_eq!(endpoint_not_found_reply().status, 404);
    let r = database_open_error_reply("no such file");
    assert_eq!(r.body, r#"{"error":"database read error: no such file"}"#);
}

#[test]
fn memory_history_page() {
    let row = MemoryStat {
        id: Some(1),
        timestamp: 10,
        mem_total_bytes: Some(1),
        mem_free_bytes: None,
        mem_available_bytes: None,
        buffers_bytes: None,
        cached_bytes: None,
        swap_total_bytes: None,
        swap_free_bytes: None,
    };
    let page = memory_history_response(vec![row.clone(), row], 42);
    assert_eq!((page.count, page.total, page.data.len()), (2, 42, 2));
}

#[test]
fn config_body_accepted() {
    let c = config_changes_from_body(r#"{"memory_interval_secs": 60, "retention_days": 30}"#).unwrap();
    assert_eq!(c.memory_interval_secs, Some(60));
    assert_eq!(c.retention_days, Some(30));
    assert_eq!(c.thermal_interval_secs, None);
}

#[test]
fn config_body_refusals() {
    let e = config_changes_from_body(r#"{"retention_dayz": 3}"#).unwrap_err();
    assert_eq!((e.status, e.body.as_str()), (400, r#"{"error":"unknown config key 'retention_dayz'"}"#));
    let e = config_changes_from_body("{}").unwrap_err();
    assert_eq!(e.body, r#"{"error":"no config changes provided"}"#);
    let e = config_changes_from_body("[1,2]").unwrap_err();
    assert_eq!(e.body, r#"{"error":"expected a JSON object of config changes"}"#);
    let e = config_changes_from_body("{not json").unwrap_err();
    assert_eq!(e.status, 400);
    assert!(e.body.starts_with(r#"{"error":"invalid JSON body: "#));
    let e = config_changes_from_body(r#"{"thermal_interval_secs": 0}"#).unwrap_err();
    assert_eq!(e.body, r#"{"error":"thermal_interval_secs must be between 1 and 86400 seconds"}"#);
}

#[test]
fn config_body_values_must_be_integers_in_range() {
    let e = config_changes_from_body(r#"{"memory_interval_secs": "60"}"#).unwrap_err();
    assert_eq!((e.status, e.body.as_str()), (400, r#"{"error":"memory_interval_secs must be a non-negative integer"}"#));
    let e = config_changes_from_body(r#"{"retention_days": -5}"#).unwrap_err();
    assert_eq!(e.body, r#"{"error":"retention_days must be a non-negative integer"}"#);
    let e = config_changes_from_body(r#"{"retention_days": 4294967297}"#).unwrap_err();
    assert_eq!(e.body, r#"{"error":"retention_days must be between 1 and 3650"}"#);
    let e = config_changes_from_body(r#"{"power_interval_secs": 1.5}"#).unwrap_err();
    assert_eq!(e.status, 400);
}

#[test]
fn config_members_outcomes() {
    let ok = config_changes_from_members(Ok(Some(vec![("thermal_interval_secs".to_string(), Some(30))]))).unwrap();
    assert_eq!(ok.thermal_interval_secs, Some(30));
    let e = config_changes_from_members(Err("EOF while parsing".to_string())).unwrap_err();
    assert_eq!(e.body, r#"{"error":"invalid JSON body: EOF while parsing"}"#);
    let e = config_changes_from_members(Ok(None)).unwrap_err();
    assert_eq!(e.body, r#"{"error":"expected a JSON object of config changes"}"#);
}

#[test]
fn mime_types_by_extension() {
    assert_eq!(mime_for_ext("svg"), "image/svg+xml");
    assert_eq!(mime_for_ext("jpeg"), "image/jpeg");
    assert_eq!(mime_for_ext(""), "application/octet-stream");
}

#[test]
fn config_post_outcomes() {
    let r = config_post_reply(Ok(IpcResponse::ack()));
    assert_eq!((r.status, r.body.as_str()), (200, r#"{"ok":true}"#));
    let r = config_post_reply(Ok(IpcResponse::err("bad \"value\"".to_string())));
    assert_eq!((r.status, r.body.as_str()), (502, r#"{"error":"bad \"value\""}"#));
    let r = config_post_reply(Ok(IpcResponse { ok: false, error: None, skipped: false, timestamp: None }));
    assert_eq!(r.body, r#"{"error":"collector rejected config change"}"#);
    let r = config_post_reply(Err("connection refused".to_string()));
    assert_eq!((r.status, r.body.as_str()), (503, r#"{"error":"collector unreachable: connection refused"}"#));
}
