use spark_dashboard::collector::thermal::{
    annotate_zones, first_line_trimmed, gpu_sensor_stat, hwmon_device_name, hwmon_sensor_num,
    hwmon_stat, parse_milli, parse_milli_threshold, thermal_batch, thermal_zone_number,
    thermal_zone_stat, ThermalStat, ZoneLabels,
};

fn celsius(milli: Option<i64>) -> Option<f64> {
    milli.map(|m| m as f64 / 1000.0)
}

fn zone(id: &str, milli: i64) -> ThermalStat {
    ThermalStat {
        id: None,
        timestamp: 0,
        zone: id.to_string(),
        sensor_type: "acpitz".to_string(),
        temperature_millicelsius: Some(milli),
        trip_point_type: Some("critical".to_string()),
        trip_point_temp_millicelsius: Some(104_800),
        sensor_label: Some(format!("Zone {}", id)),
    }
}

#[test]
fn test_parse_milli_valid() {
    assert_eq!(celsius(parse_milli("65400")), Some(65.4));
    assert_eq!(celsius(parse_milli("0")), Some(0.0));
}

#[test]
fn test_parse_milli_invalid() {
    assert_eq!(parse_milli("abc"), None);
    assert_eq!(parse_milli(""), None);
}

#[test]
fn test_parse_milli_threshold_valid() {
    assert_eq!(celsius(parse_milli_threshold("104800")), Some(104.8));
    assert_eq!(celsius(parse_milli_threshold("0")), Some(0.0));
}

#[test]
fn test_parse_milli_threshold_bogus() {
    assert_eq!(parse_milli_threshold("65261850"), None);
    assert_eq!(parse_milli_threshold("-100000"), None);
}

#[test]
fn parse_milli_trims_and_keeps_sign() {
    assert_eq!(parse_milli(" 42000\n"), Some(42_000));
    assert_eq!(parse_milli("-5000"), Some(-5_000));
    assert_eq!(parse_milli_threshold("250000"), Some(250_000));
    assert_eq!(parse_milli_threshold("250001"), None);
    assert_eq!(parse_milli_threshold("-50000"), Some(-50_000));
    assert_eq!(parse_milli_threshold("-50001"), None);
}

#[test]
fn test_annotate_zones_with_gpu_match() {
    let mut stats = vec![zone("0", 62_000), zone("1", 97_000), zone("2", 63_000), zone("3", 94_500)];
    let mut known = ZoneLabels::new();
    annotate_zones(&mut stats, Some(94_500), &mut known);
    assert_eq!(stats[3].sensor_label.as_deref(), Some("GPU die (SoC)"));
    assert_eq!(stats[1].sensor_label.as_deref(), Some("Board / package"));
    assert_eq!(stats[0].sensor_label.as_deref(), Some("SoC zone 0"));
    assert_eq!(stats[2].sensor_label.as_deref(), Some("SoC zone 2"));
}

#[test]
fn test_annotate_zones_gpu_is_hottest() {
    let mut stats = vec![zone("0", 60_000), zone("1", 96_000), zone("2", 61_000)];
    let mut known = ZoneLabels::new();
    annotate_zones(&mut stats, Some(96_000), &mut known);
    assert_eq!(stats[1].sensor_label.as_deref(), Some("GPU die (SoC)"));
    assert_eq!(stats[0].sensor_label.as_deref(), Some("SoC zone 0"));
    assert_eq!(stats[2].sensor_label.as_deref(), Some("Board / package"));
}

#[test]
fn test_annotate_zones_without_gpu() {
    let mut stats = vec![zone("0", 58_000), zone("1", 74_000)];
    let mut known = ZoneLabels::new();
    annotate_zones(&mut stats, None, &mut known);
    assert_eq!(stats[1].sensor_label.as_deref(), Some("Board / package"));
    assert_eq!(stats[0].sensor_label.as_deref(), Some("SoC zone 0"));
}

#[test]
fn test_annotate_zones_freezes_label() {
    let mut stats = vec![zone("0", 58_000), zone("1", 74_000)];
    let mut known = ZoneLabels::new();
    annotate_zones(&mut stats, None, &mut known);
    assert_eq!(stats[1].sensor_label.as_deref(), Some("Board / package"));

    let mut next = vec![zone("0", 90_000), zone("1", 60_000)];
    annotate_zones(&mut next, None, &mut known);
    assert_eq!(stats[0].sensor_label.as_deref(), Some("SoC zone 0"));
    assert_eq!(next[1].sensor_label.as_deref(), Some("Board / package"));
    assert_eq!(next[0].sensor_label.as_deref(), Some("SoC zone 0"));
}

#[test]
fn test_annotate_zones_gpu_closest_zone_fallback() {
    let mut stats = vec![zone("0", 68_900), zone("1", 65_300), zone("2", 62_000)];
    let mut known = ZoneLabels::new();
    annotate_zones(&mut stats, Some(64_000), &mut known);
    let labels = stats.iter().map(|s| s.sensor_label.clone().unwrap()).collect::<Vec<_>>();
    assert!(labels.contains(&"GPU die (SoC)".to_string()), "got: {:?}", labels);
    assert_eq!(stats[1].sensor_label.as_deref(), Some("GPU die (SoC)"));
}

#[test]
fn test_annotate_zones_gpu_gap_too_large_no_assignment() {
    let mut stats = vec![zone("0", 70_000), zone("1", 72_000)];
    let mut known = ZoneLabels::new();
    annotate_zones(&mut stats, Some(60_000), &mut known);
    let labels = stats.iter().map(|s| s.sensor_label.clone().unwrap()).collect::<Vec<_>>();
    assert!(!labels.contains(&"GPU die (SoC)".to_string()));
    assert!(labels.contains(&"Board / package".to_string()));
}

#[test]
fn test_annotate_zones_empty() {
    let mut stats = vec![ThermalStat {
        id: None,
        timestamp: 0,
        zone: "nvme_1".to_string(),
        sensor_type: "nvme".to_string(),
        temperature_millicelsius: Some(45_000),
        trip_point_type: None,
        trip_point_temp_millicelsius: None,
        sensor_label: Some("Composite".to_string()),
    }];
    let mut known = ZoneLabels::new();
    annotate_zones(&mut stats, Some(75_000), &mut known);
    assert_eq!(stats[0].sensor_label.as_deref(), Some("Composite"));
}

#[test]
fn annotate_zones_remembers_keys() {
    let mut stats = vec![zone("0", 58_000), zone("1", 74_000)];
    let mut known = ZoneLabels::new();
    annotate_zones(&mut stats, None, &mut known);
    assert_eq!(known.get_str("acpitz:0").as_deref(), Some("SoC zone 0"));
    assert_eq!(known.get_str("acpitz:1").as_deref(), Some("Board / package"));
    assert_eq!(known.get_str("acpitz:2"), None);
}

#[test]
fn zone_and_hwmon_names() {
    assert_eq!(thermal_zone_number("thermal_zone12").as_deref(), Some("12"));
    assert_eq!(thermal_zone_number("cooling_device0"), None);
    assert_eq!(hwmon_device_name("nvme\n").as_deref(), Some("nvme"));
    assert_eq!(hwmon_device_name("acpitz\n"), None);
    assert_eq!(hwmon_sensor_num("temp3_input").as_deref(), Some("3"));
    assert_eq!(hwmon_sensor_num("temp3_label"), None);
    assert_eq!(hwmon_sensor_num("fan1_input"), None);
}

#[test]
fn zone_reading_from_sysfs_texts() {
    let s = thermal_zone_stat(
        "3",
        "acpitz\n",
        "45000\n",
        Some("critical\n".to_string()),
        Some("104800\n".to_string()),
        7,
    );
    assert_eq!(s.zone, "3");
    assert_eq!(s.sensor_type, "acpitz");
    assert_eq!(s.temperature_millicelsius, Some(45_000));
    assert_eq!(s.trip_point_type.as_deref(), Some("critical"));
    assert_eq!(s.trip_point_temp_millicelsius, Some(104_800));
    assert_eq!(s.sensor_label.as_deref(), Some("Zone 3"));
    assert_eq!(s.timestamp, 7);
}

#[test]
fn hwmon_reading_limits() {
    let s = hwmon_stat("nvme", "1", "45000", Some("Composite\n".to_string()), None, Some("84850".to_string()), 9)
        .unwrap();
    assert_eq!(s.zone, "nvme_1");
    assert_eq!(s.trip_point_type.as_deref(), Some("max"));
    assert_eq!(s.trip_point_temp_millicelsius, Some(84_850));
    assert_eq!(s.sensor_label.as_deref(), Some("Composite"));
    let crit = hwmon_stat("nvme", "1", "45000", None, Some("90000".to_string()), Some("84850".to_string()), 9)
        .unwrap();
    assert_eq!(crit.trip_point_type.as_deref(), Some("critical"));
    assert_eq!(crit.trip_point_temp_millicelsius, Some(90_000));
    assert!(hwmon_stat("nvme", "1", "130000", None, None, None, 9).is_none());
    assert!(hwmon_stat("nvme", "1", "-1000", None, None, None, 9).is_none());
    assert!(hwmon_stat("nvme", "1", "n/a", None, None, None, 9).is_none());
}

#[test]
fn gpu_reading_and_batch() {
    assert_eq!(first_line_trimmed(" 61 \n62\n").as_deref(), Some("61"));
    assert_eq!(first_line_trimmed(""), None);
    let g = gpu_sensor_stat(61_000, 0);
    assert_eq!(g.zone, "gpu");
    assert_eq!(g.sensor_label.as_deref(), Some("GPU"));
    let hw = hwmon_stat("nvme", "1", "45000", None, None, None, 0).unwrap();
    let mut known = ZoneLabels::new();
    let out = thermal_batch(Some(g), vec![zone("0", 61_000), zone("1", 70_000)], vec![hw], 1234, &mut known);
    assert_eq!(out.len(), 4);
    assert!(out.iter().all(|s| s.timestamp == 1234));
    assert_eq!(out[0].zone, "gpu");
    assert_eq!(out[1].sensor_label.as_deref(), Some("GPU die (SoC)"));
    assert_eq!(out[2].sensor_label.as_deref(), Some("Board / package"));
    assert_eq!(out[3].zone, "nvme_1");
}
