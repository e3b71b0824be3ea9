use spark_dashboard::config::{expand_tilde, parse_config};

#[test]
fn test_load_default_config() {
    let config = parse_config("", None);
    assert_eq!(config.server.host, "127.0.0.1");
    assert_eq!(config.server.port, 8090);
    assert_eq!(config.memory.collection_interval_secs, 60);
}

#[test]
fn test_config_missing_field() {
    let config = parse_config("", None);
    assert_eq!(config.thermal.collection_interval_secs, 30);
}

#[test]
fn test_parse_config_with_values() {
    let content = r#"
[server]
host = "0.0.0.0"
port = 9090

[database]
path = "/tmp/test.db"
wal_mode = false
"#;
    let config = parse_config(content, None);
    assert_eq!(config.server.host, "0.0.0.0");
    assert_eq!(config.server.port, 9090);
    assert_eq!(config.database.path, "/tmp/test.db");
    assert!(!config.database.wal_mode);
}

#[test]
fn test_expand_tilde() {
    let path = expand_tilde("~/test.db", Some("/home/tester"));
    assert!(path.starts_with("/home/"));
    assert!(path.ends_with("/test.db"));
    assert_eq!(path, "/home/tester/test.db");
}

#[test]
fn test_expand_tilde_no_tilde() {
    let path = expand_tilde("/tmp/test.db", Some("/home/tester"));
    assert_eq!(path, "/tmp/test.db");
}

#[test]
fn expand_tilde_edge_cases() {
    assert_eq!(expand_tilde("~/x", None), "~/x");
    assert_eq!(expand_tilde("~/x", Some("/home/u/")), "/home/u/x");
    assert_eq!(expand_tilde("~x", Some("/home/u")), "~x");
    assert_eq!(expand_tilde("~//etc/x", Some("/home/u")), "/etc/x");
}

#[test]
fn default_config_everywhere() {
    let c = parse_config("", Some("/home/u"));
    assert_eq!(c.collector.ipc_socket, "/tmp/spark-collect.sock");
    assert_eq!(c.database.path, "/home/u/.local/share/spark-dashboard/spark.db");
    assert!(c.database.wal_mode);
    assert_eq!(c.history.retention_days, 7);
    assert_eq!(c.thermal.collection_interval_secs, 30);
    assert_eq!(c.memory.collection_interval_secs, 60);
    assert_eq!(c.compute.collection_interval_secs, 10);
    assert_eq!(c.power.collection_interval_secs, 10);
}

#[test]
fn config_sections_keys_and_fallbacks() {
    let content = "# comment\n[ History ]\nretention_days = 30\n[memory]\ncollection_interval_secs = abc\n\
                   [thermal]\ncollection_interval_secs = 15\nport = 1\n[server]\nport = 70000\nhost=\"h\"\n\
                   [collector]\nipc_socket = \"/run/x.sock\"\n[database]\nwal_mode = maybe\n";
    let c = parse_config(content, None);
    assert_eq!(c.history.retention_days, 30);
    assert_eq!(c.memory.collection_interval_secs, 60);
    assert_eq!(c.thermal.collection_interval_secs, 15);
    assert_eq!(c.server.port, 8090);
    assert_eq!(c.server.host, "h");
    assert_eq!(c.collector.ipc_socket, "/run/x.sock");
    assert!(c.database.wal_mode);
}

#[test]
fn config_later_setting_wins() {
    let c = parse_config("[compute]\ncollection_interval_secs = 5\ncollection_interval_secs = 7\n", None);
    assert_eq!(c.compute.collection_interval_secs, 7);
    let c = parse_config("[power]\ncollection_interval_secs = 3\n", None);
    assert_eq!(c.power.collection_interval_secs, 3);
}
