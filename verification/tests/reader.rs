use spark_dashboard::collector::reader::parse_proc_meminfo;

fn sample_meminfo() -> String {
    "MemTotal:       16384000 kB\n\
     MemFree:         2048000 kB\n\
     MemAvailable:    8192000 kB\n\
     Buffers:          512000 kB\n\
     Cached:           4096000 kB\n\
     SwapTotal:             0 kB\n\
     SwapFree:              0 kB"
        .to_string()
}

#[test]
fn test_parse_proc_meminfo_happy_path() {
    let stat = parse_proc_meminfo(&sample_meminfo(), 0);
    assert_eq!(stat.mem_total_bytes, Some(16384000 * 1024));
    assert_eq!(stat.mem_free_bytes, Some(2048000 * 1024));
    assert_eq!(stat.mem_available_bytes, Some(8192000 * 1024));
    assert_eq!(stat.buffers_bytes, Some(512000 * 1024));
    assert_eq!(stat.cached_bytes, Some(4096000 * 1024));
    assert_eq!(stat.swap_total_bytes, Some(0));
    assert_eq!(stat.swap_free_bytes, Some(0));
}

#[test]
fn test_parse_proc_meminfo_missing_field() {
    let content = "MemTotal:       16384000 kB\nMemFree:         2048000 kB".to_string();
    let stat = parse_proc_meminfo(&content, 0);
    assert_eq!(stat.mem_total_bytes, Some(16384000 * 1024));
    assert_eq!(stat.mem_free_bytes, Some(2048000 * 1024));
    assert_eq!(stat.mem_available_bytes, None);
    assert_eq!(stat.buffers_bytes, None);
    assert_eq!(stat.cached_bytes, None);
}

#[test]
fn test_parse_proc_meminfo_malformed_value() {
    let content = "MemTotal:       abc kB\nMemFree:         2048000 kB".to_string();
    let stat = parse_proc_meminfo(&content, 0);
    assert_eq!(stat.mem_total_bytes, None);
    assert_eq!(stat.mem_free_bytes, Some(2048000 * 1024));
}

#[test]
fn test_parse_proc_meminfo_empty_input() {
    let stat = parse_proc_meminfo("", 0);
    assert_eq!(stat.mem_total_bytes, None);
    assert_eq!(stat.mem_free_bytes, None);
    assert_eq!(stat.mem_available_bytes, None);
    assert_eq!(stat.buffers_bytes, None);
    assert_eq!(stat.cached_bytes, None);
    assert_eq!(stat.swap_total_bytes, None);
    assert_eq!(stat.swap_free_bytes, None);
}

#[test]
fn test_parse_proc_meminfo_extra_fields() {
    let content = "MemTotal:       16384000 kB\n\
     SomeUnknownField:  999999 kB\n\
     MemFree:         2048000 kB"
        .to_string();
    let stat = parse_proc_meminfo(&content, 0);
    assert_eq!(stat.mem_total_bytes, Some(16384000 * 1024));
    assert_eq!(stat.mem_free_bytes, Some(2048000 * 1024));
}

#[test]
fn meminfo_stamp_and_id() {
    let stat = parse_proc_meminfo(&sample_meminfo(), 1_700_000_000);
    assert_eq!(stat.timestamp, 1_700_000_000);
    assert_eq!(stat.id, None);
    assert_eq!(stat.mem_total_bytes, Some(16384000 * 1024));
}

#[test]
fn meminfo_out_of_range_reads_as_absent() {
    // 2^53 kB is 2^63 bytes, one past i64::MAX: no byte count.
    let stat = parse_proc_meminfo("MemTotal: 9007199254740992 kB\nMemFree: 1 kB\n", 0);
    assert_eq!(stat.mem_total_bytes, None);
    assert_eq!(stat.mem_free_bytes, Some(1024));
    let stat = parse_proc_meminfo("MemTotal: 9007199254740991 kB\n", 0);
    assert_eq!(stat.mem_total_bytes, Some(9007199254740991 * 1024));
    let stat = parse_proc_meminfo("MemTotal: 18014398509481984 kB\n", 0);
    assert_eq!(stat.mem_total_bytes, None);
    // An unknown key with a huge value does not matter.
    let stat = parse_proc_meminfo("Huge: 18446744073709551615 kB\nCached: 2 kB\n", 0);
    assert_eq!(stat.cached_bytes, Some(2048));
}

#[test]
fn meminfo_later_line_wins() {
    let stat = parse_proc_meminfo("MemFree: 1 kB\nMemFree: 2 kB\n", 0);
    assert_eq!(stat.mem_free_bytes, Some(2048));
}
