use spark_dashboard::collector::compute::{
    core_count, core_deltas, csv_fields, parse_proc_stat, raw_is_ok, utilization_ticks, CpuRaw,
};

const STAT_A: &str = "cpu  10 0 0 0 0 0 0 0\n\
    cpu0 10 0 0 0 0 0 0 0\n\
    cpu1 10 0 0 0 0 0 0 0\n";

const STAT_B: &str = "cpu  70 0 0 40 0 0 0 0\n\
    cpu0 40 0 0 0 0 0 0 0\n\
    cpu1 10 0 0 50 0 0 0 0\n";

/// The utilization percentage, computed from the verified tick counts.
fn utilization(prev: &[u64], cur: &[u64]) -> Option<f64> {
    utilization_ticks(prev, cur)
        .map(|(busy, total)| ((busy as f64 / total as f64) * 100.0).clamp(0.0, 100.0))
}

#[test]
fn test_parse_proc_stat() {
    let raw = parse_proc_stat(STAT_A).unwrap();
    assert_eq!(raw.total.len(), 8);
    assert_eq!(raw.cores.len(), 2);
    assert_eq!(raw.cores[0].len(), 8);
}

#[test]
fn test_parse_proc_stat_empty() {
    assert!(parse_proc_stat("").is_none());
}

#[test]
fn test_utilization() {
    let a = parse_proc_stat(STAT_A).unwrap();
    let b = parse_proc_stat(STAT_B).unwrap();
    let u = utilization(&a.total, &b.total).unwrap();
    assert!((u - 60.0).abs() < 1e-6, "got {u}");
}

#[test]
fn test_utilization_no_progress() {
    let a = parse_proc_stat(STAT_A).unwrap();
    assert!(utilization(&a.total, &a.total).is_none());
}

#[test]
fn test_per_core_utilization() {
    let a = parse_proc_stat(STAT_A).unwrap();
    let b = parse_proc_stat(STAT_B).unwrap();
    let c0 = utilization(&a.cores[0], &b.cores[0]).unwrap();
    assert!((c0 - 100.0).abs() < 1e-6, "got {c0}");
    let c1 = utilization(&a.cores[1], &b.cores[1]).unwrap();
    assert_eq!(c1, 0.0);
}

#[test]
fn test_utilization_idle_only() {
    let u = utilization(&[0, 0, 0, 0, 0, 0, 0, 0], &[0, 0, 0, 1000, 0, 0, 0, 0]).unwrap();
    assert_eq!(u, 0.0);
}

#[test]
fn test_utilization_busy_only() {
    let u = utilization(&[0, 0, 0, 0, 0, 0, 0, 0], &[100, 0, 0, 0, 0, 0, 0, 0]).unwrap();
    assert_eq!(u, 100.0);
}

#[test]
fn utilization_ticks_exact_counts() {
    let a = parse_proc_stat(STAT_A).unwrap();
    let b = parse_proc_stat(STAT_B).unwrap();
    // total ticks 10 -> 110: 100 more, 40 of them idle.
    assert_eq!(utilization_ticks(&a.total, &b.total), Some((60, 100)));
    // core 1: 50 more ticks, all idle.
    assert_eq!(utilization_ticks(&a.cores[1], &b.cores[1]), Some((0, 50)));
}

#[test]
fn utilization_ticks_idle_going_backwards_is_not_negative() {
    // Idle fell by 10 while the total grew by 5: the drop counts as busy time.
    let r = utilization_ticks(&[0, 0, 0, 10, 0, 0, 0, 0], &[15, 0, 0, 0, 0, 0, 0, 0]);
    assert_eq!(r, Some((15, 5)));
}

#[test]
fn parse_proc_stat_takes_first_eight_fields_and_skips_short_rows() {
    let content = "cpu  1 2 3 4 5 6 7 8 9 10\ncpu0 1 2 3\ncpu1 1 2 3 4 5 6 7 8\nintr 1 2\n";
    let raw = parse_proc_stat(content).unwrap();
    assert_eq!(raw.total, vec![1, 2, 3, 4, 5, 6, 7, 8]);
    assert_eq!(raw.cores, vec![vec![1, 2, 3, 4, 5, 6, 7, 8]]);
}

#[test]
fn parse_proc_stat_without_aggregate_is_none() {
    assert!(parse_proc_stat("cpu0 1 2 3 4 5 6 7 8\n").is_none());
}

#[test]
fn only_cpu_n_lines_are_cores() {
    let content = "cpu  1 1 1 1 1 1 1 1\nabc1 2 2 2 2 2 2 2 2\ncpu0 3 3 3 3 3 3 3 3\ncpux 4 4 4 4 4 4 4 4\n";
    let raw = parse_proc_stat(content).unwrap();
    assert_eq!(raw.total, vec![1u64; 8]);
    assert_eq!(raw.cores, vec![vec![3u64; 8]]);
    // Lines of any text are read without failing.
    assert!(parse_proc_stat("éé 1 2 3 4 5 6 7 8\n").is_none());
}

#[test]
fn core_deltas_per_core() {
    let a = parse_proc_stat(STAT_A).unwrap();
    let b = parse_proc_stat(STAT_B).unwrap();
    assert!(raw_is_ok(&a) && raw_is_ok(&b));
    let d = core_deltas(&a, &b);
    assert_eq!(d.len(), 2);
    assert_eq!((d[0].index, d[0].busy, d[0].total), (0, 30, 30));
    assert_eq!((d[1].index, d[1].busy, d[1].total), (1, 0, 50));
}

#[test]
fn cpu_raw_is_plain_data() {
    let r = CpuRaw { total: vec![0; 8], cores: vec![] };
    assert!(raw_is_ok(&r));
}

#[test]
fn csv_first_line_fields() {
    let v = csv_fields("NVIDIA GB10, 37, 4\nsecond, 1, 2\n", 3).unwrap();
    assert_eq!(v, vec!["NVIDIA GB10".to_string(), "37".to_string(), "4".to_string()]);
    assert_eq!(csv_fields("a, b\n", 3), None);
    assert_eq!(csv_fields("", 1), None);
}

#[test]
fn core_count_prefers_measured_cores() {
    assert_eq!(core_count(0, Some(20)), Some(20));
    assert_eq!(core_count(0, None), None);
    assert_eq!(core_count(2, Some(20)), Some(2));
}
