use spark_dashboard::server::host::{choose_hostname, hostname_response};

#[test]
fn hostname_returns_a_string() {
    let name = choose_hostname(None, None, None);
    assert_eq!(hostname_response(&name).contains(r#""hostname":""#), true);
}

#[test]
fn hostname_shape_is_json_object() {
    let v: serde_json::Value = serde_json::from_str(&hostname_response("pgx1")).unwrap();
    assert!(v.get("hostname").unwrap().is_string());
    assert_eq!(hostname_response("pgx1"), r#"{"hostname":"pgx1"}"#);
}

#[test]
fn hostname_sources_in_order() {
    assert_eq!(choose_hostname(Some("pgx1\n".to_string()), Some("other".to_string()), None), "pgx1");
    assert_eq!(choose_hostname(Some("  \n".to_string()), Some("pgx1.tailnet.ts.net".to_string()), None), "pgx1");
    assert_eq!(choose_hostname(None, Some(".x".to_string()), Some("box.lan".to_string())), "box");
    assert_eq!(choose_hostname(None, None, None), "");
}

#[test]
fn hostname_json_escapes() {
    assert_eq!(hostname_response("a\"b\\c\n"), r#"{"hostname":"a\"b\\c\n"}"#);
    assert_eq!(hostname_response("\u{1}"), r#"{"hostname":"\u0001"}"#);
}
