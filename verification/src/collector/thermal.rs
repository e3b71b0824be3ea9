//! Temperature sensors: thermal zones, hwmon channels and the GPU reading, and
//! the identification of the anonymous `acpitz` zones.
//!
//! Temperatures are held in millidegrees Celsius, the unit in which the kernel
//! reports them, so that every comparison below is exact.
use vstd::prelude::*;
use crate::text::{
    chars_of, chars_eq, trim, trim_ws, Strip, string_from_chars, starts_with, starts_with_spec,
    ends_with, ends_with_spec, sub_vec, lines, lines_spec,
};
use crate::num::{parse_i64, parse_i64_spec};
use crate::assoc::StringMap;

verus! {

broadcast use crate::views::lemma_char_vec_deep_view;

/// One temperature reading. Temperatures are in millidegrees Celsius.
#[derive(Debug)]
pub struct ThermalStat {
    pub id: Option<i64>,
    pub timestamp: i64,
    pub zone: String,
    pub sensor_type: String,
    pub temperature_millicelsius: Option<i64>,
    pub trip_point_type: Option<String>,
    pub trip_point_temp_millicelsius: Option<i64>,
    pub sensor_label: Option<String>,
}

/// A page of thermal history: `count` rows out of `total`.
#[derive(Debug)]
pub struct ThermalHistoryResponse {
    pub count: i64,
    pub total: i64,
    pub data: Vec<ThermalStat>,
}

pub open spec fn opt_string_view(o: Option<String>) -> Option<Seq<char>> {
    match o {
        Some(s) => Some(s@),
        None => None,
    }
}

pub fn clone_opt_string(o: &Option<String>) -> (r: Option<String>)
    ensures
        opt_string_view(r) == opt_string_view(*o),
{
    match o {
        Some(s) => Some(s.clone()),
        None => None,
    }
}

// ---------------------------------------------------------------------------
// Millidegree readings
// ---------------------------------------------------------------------------

/// A sysfs temperature file: a trimmed integer in millidegrees.
pub open spec fn parse_milli_spec(text: Seq<char>) -> Option<i64> {
    parse_i64_spec(trim_ws(text))
}

/// A trip point or limit: as a temperature, but values outside -50..=250 °C
/// are firmware placeholders and read as absent.
pub open spec fn parse_milli_threshold_spec(text: Seq<char>) -> Option<i64> {
    match parse_milli_spec(text) {
        Some(t) => if t < -50_000 || t > 250_000 {
            None
        } else {
            Some(t)
        },
        None => None,
    }
}

/// Read a sysfs temperature, in millidegrees.
pub fn parse_milli(text: &str) -> (r: Option<i64>)
    ensures
        r == parse_milli_spec(text@),
{
    let c = chars_of(text);
    let t = trim(c.as_slice(), Strip::Whitespace);
    parse_i64(t.as_slice())
}

/// Read a sysfs trip point or limit, in millidegrees; implausible values read as absent.
pub fn parse_milli_threshold(text: &str) -> (r: Option<i64>)
    ensures
        r == parse_milli_threshold_spec(text@),
{
    match parse_milli(text) {
        Some(t) => if t < -50_000 || t > 250_000 {
            None
        } else {
            Some(t)
        },
        None => None,
    }
}

// ---------------------------------------------------------------------------
// Building readings
// ---------------------------------------------------------------------------

pub open spec fn opt_trim(o: Option<String>) -> Option<Seq<char>> {
    match o {
        Some(s) => Some(trim_ws(s@)),
        None => None,
    }
}

/// A trimmed copy of an optional file content.
fn trim_opt(o: Option<String>) -> (r: Option<String>)
    ensures
        opt_string_view(r) == opt_trim(o),
{
    match o {
        Some(s) => {
            let c = chars_of(s.as_str());
            let t = trim(c.as_slice(), Strip::Whitespace);
            Some(string_from_chars(t.as_slice()))
        },
        None => None,
    }
}

/// The zone number of a `/sys/class/thermal` entry named `thermal_zone<N>`.
pub fn thermal_zone_number(name: &str) -> (r: Option<String>)
    ensures
        match r {
            Some(n) => starts_with_spec(name@, "thermal_zone"@) && n@ == name@.skip(12),
            None => !starts_with_spec(name@, "thermal_zone"@),
        },
{
    proof {
        reveal_strlit("thermal_zone");
    }
    let c = chars_of(name);
    let p = chars_of("thermal_zone");
    if starts_with(c.as_slice(), p.as_slice()) {
        let rest = sub_vec(c.as_slice(), 12, c.len());
        assert(rest@ =~= name@.skip(12));
        Some(string_from_chars(rest.as_slice()))
    } else {
        None
    }
}

/// The reading of thermal zone `zone_num` from its sysfs files: `type`, `temp`,
/// and, when present, `trip_point_0_type` and `trip_point_0_temp`. It is
/// labelled `Zone <N>`.
pub fn thermal_zone_stat(
    zone_num: &str,
    zone_type: &str,
    temp_text: &str,
    trip_type: Option<String>,
    trip_temp_text: Option<String>,
    timestamp: i64,
) -> (s: ThermalStat)
    ensures
        s.id is None,
        s.timestamp == timestamp,
        s.zone@ == zone_num@,
        s.sensor_type@ == trim_ws(zone_type@),
        s.temperature_millicelsius == parse_milli_spec(temp_text@),
        opt_string_view(s.trip_point_type) == opt_trim(trip_type),
        s.trip_point_temp_millicelsius == match opt_trim(trip_temp_text) {
            Some(t) => parse_milli_threshold_spec(t),
            None => None,
        },
        opt_string_view(s.sensor_label) == Some("Zone "@ + zone_num@),
{
    let ty = chars_of(zone_type);
    let ty = trim(ty.as_slice(), Strip::Whitespace);
    let trip_temp = match trim_opt(trip_temp_text) {
        Some(t) => parse_milli_threshold(t.as_str()),
        None => None,
    };
    let mut label = String::from_str("Zone ");
    label.append(zone_num);
    ThermalStat {
        id: None,
        timestamp,
        zone: String::from_str(zone_num),
        sensor_type: string_from_chars(ty.as_slice()),
        temperature_millicelsius: parse_milli(temp_text),
        trip_point_type: trim_opt(trip_type),
        trip_point_temp_millicelsius: trip_temp,
        sensor_label: Some(label),
    }
}

/// The trimmed name of an hwmon device, unless it is `acpitz` (whose zones are
/// already read from `/sys/class/thermal`).
pub fn hwmon_device_name(raw: &str) -> (r: Option<String>)
    ensures
        match r {
            Some(n) => n@ == trim_ws(raw@) && trim_ws(raw@) != "acpitz"@,
            None => trim_ws(raw@) == "acpitz"@,
        },
{
    let c = chars_of(raw);
    let t = trim(c.as_slice(), Strip::Whitespace);
    let a = chars_of("acpitz");
    if chars_eq(t.as_slice(), a.as_slice()) {
        None
    } else {
        Some(string_from_chars(t.as_slice()))
    }
}

/// The channel number of an hwmon temperature input file `temp<N>_input`.
pub fn hwmon_sensor_num(file_name: &str) -> (r: Option<String>)
    ensures
        match r {
            Some(n) => starts_with_spec(file_name@, "temp"@) && ends_with_spec(
                file_name@,
                "_input"@,
            ) && file_name@.len() >= 10 && n@ == file_name@.subrange(4, file_name@.len() - 6),
            None => !(starts_with_spec(file_name@, "temp"@) && ends_with_spec(
                file_name@,
                "_input"@,
            )),
        },
{
    proof {
        reveal_strlit("temp");
        reveal_strlit("_input");
    }
    let c = chars_of(file_name);
    let p = chars_of("temp");
    let q = chars_of("_input");
    if starts_with(c.as_slice(), p.as_slice()) && ends_with(c.as_slice(), q.as_slice()) {
        proof {
            if c@.len() < 10 {
                // "temp" ends in 'p' and "_input" starts with '_': the two cannot overlap.
                let k = c@.len() - 6;
                assert(c@.skip(k)[0] == '_');
                assert(c@.take(4)[3] == 'p');
                assert(c@[k] == '_');
                assert(c@[3] == 'p');
                assert(k > 3 || k < 3);
                if k < 3 {
                    assert(c@.take(4)[k] == c@[k]);
                    assert(c@.skip(k)[3 - k] == c@[3]);
                }
            }
        }
        let n = sub_vec(c.as_slice(), 4, c.len() - 6);
        Some(string_from_chars(n.as_slice()))
    } else {
        None
    }
}

/// The reading of hwmon channel `sensor_num` of device `sensor_name`, from its
/// `temp<N>_input` file and, when present, its `_label`, `_crit` and `_max`
/// files. `None` when the temperature is unreadable or outside 0..=125 °C. The
/// trip point is the critical limit if there is one, else the maximum.
pub fn hwmon_stat(
    sensor_name: &str,
    sensor_num: &str,
    temp_text: &str,
    label: Option<String>,
    crit_text: Option<String>,
    max_text: Option<String>,
    timestamp: i64,
) -> (r: Option<ThermalStat>)
    ensures
        ({
            let t = parse_milli_spec(temp_text@);
            let crit = match opt_trim(crit_text) {
                Some(x) => parse_milli_threshold_spec(x),
                None => None,
            };
            let max = match opt_trim(max_text) {
                Some(x) => parse_milli_threshold_spec(x),
                None => None,
            };
            match r {
                None => t is None || t->0 < 0 || t->0 > 125_000,
                Some(s) => t matches Some(v) && 0 <= v <= 125_000 && s.id is None && s.timestamp
                    == timestamp && s.zone@ == sensor_name@ + "_"@ + sensor_num@ && s.sensor_type@
                    == sensor_name@ && s.temperature_millicelsius == t && opt_string_view(
                    s.sensor_label,
                ) == opt_trim(label) && opt_string_view(s.trip_point_type) == (if crit is Some {
                    Some("critical"@)
                } else if max is Some {
                    Some("max"@)
                } else {
                    None
                }) && s.trip_point_temp_millicelsius == (if crit is Some {
                    crit
                } else {
                    max
                }),
            }
        }),
{
    let temp = parse_milli(temp_text);
    match temp {
        None => return None,
        Some(t) => if t < 0 || t > 125_000 {
            return None;
        },
    }
    let crit = match trim_opt(crit_text) {
        Some(x) => parse_milli_threshold(x.as_str()),
        None => None,
    };
    let max = match trim_opt(max_text) {
        Some(x) => parse_milli_threshold(x.as_str()),
        None => None,
    };
    let trip_type = if crit.is_some() {
        Some(String::from_str("critical"))
    } else if max.is_some() {
        Some(String::from_str("max"))
    } else {
        None
    };
    let trip_temp = if crit.is_some() {
        crit
    } else {
        max
    };
    let mut zone = String::from_str(sensor_name);
    zone.append("_");
    zone.append(sensor_num);
    Some(
        ThermalStat {
            id: None,
            timestamp,
            zone,
            sensor_type: String::from_str(sensor_name),
            temperature_millicelsius: temp,
            trip_point_type: trip_type,
            trip_point_temp_millicelsius: trip_temp,
            sensor_label: trim_opt(label),
        },
    )
}

/// The trimmed first line of a command's output, if it has one.
pub open spec fn first_line_spec(out: Seq<char>) -> Option<Seq<char>> {
    let ls = lines_spec(out);
    if ls.len() == 0 {
        None
    } else {
        Some(trim_ws(ls[0]))
    }
}

/// The trimmed first line of an `nvidia-smi` single-value query.
pub fn first_line_trimmed(out: &str) -> (r: Option<String>)
    ensures
        opt_string_view(r) == first_line_spec(out@),
{
    let c = chars_of(out);
    let ls = lines(c.as_slice());
    if ls.len() == 0 {
        return None;
    }
    assert(ls[0]@ == ls.deep_view()[0]);
    let t = trim(ls[0].as_slice(), Strip::Whitespace);
    Some(string_from_chars(t.as_slice()))
}

/// The GPU's own reading (`nvidia-smi temperature.gpu`), in millidegrees.
pub fn gpu_sensor_stat(temp_millicelsius: i64, timestamp: i64) -> (s: ThermalStat)
    ensures
        s.id is None,
        s.timestamp == timestamp,
        s.zone@ == "gpu"@,
        s.sensor_type@ == "nvidia"@,
        s.temperature_millicelsius == Some(temp_millicelsius),
        s.trip_point_type is None,
        s.trip_point_temp_millicelsius is None,
        opt_string_view(s.sensor_label) == Some("GPU"@),
{
    ThermalStat {
        id: None,
        timestamp,
        zone: String::from_str("gpu"),
        sensor_type: String::from_str("nvidia"),
        temperature_millicelsius: Some(temp_millicelsius),
        trip_point_type: None,
        trip_point_temp_millicelsius: None,
        sensor_label: Some(String::from_str("GPU")),
    }
}

/// The labels decided for zones, keyed `acpitz:<zone>`.
pub type ZoneLabels = StringMap;

// ---------------------------------------------------------------------------
// Identifying the acpitz zones
// ---------------------------------------------------------------------------

pub open spec fn is_acpitz(s: ThermalStat) -> bool {
    s.sensor_type@ == "acpitz"@
}

pub open spec fn abs_diff(a: int, b: int) -> int {
    if a >= b {
        a - b
    } else {
        b - a
    }
}

/// How far a zone's reading is from the GPU reading `g`, if it has one.
pub open spec fn gpu_gap(s: ThermalStat, g: i64) -> Option<int> {
    match s.temperature_millicelsius {
        Some(t) => Some(abs_diff(t as int, g as int)),
        None => None,
    }
}

/// The first acpitz zone (among the first `n` readings) within 1 °C of `g`.
pub open spec fn first_tracking(ss: Seq<ThermalStat>, g: i64, n: int) -> Option<int>
    decreases n,
{
    if n <= 0 {
        None
    } else {
        match first_tracking(ss, g, n - 1) {
            Some(j) => Some(j),
            None => if is_acpitz(ss[n - 1]) && (gpu_gap(ss[n - 1], g) matches Some(d) && d
                <= 1000) {
                Some(n - 1)
            } else {
                None
            },
        }
    }
}

/// The acpitz zone (among the first `n` readings) closest to `g` within 3 °C,
/// the earliest on ties, with its distance.
pub open spec fn closest_near(ss: Seq<ThermalStat>, g: i64, n: int) -> Option<(int, int)>
    decreases n,
{
    if n <= 0 {
        None
    } else {
        let prev = closest_near(ss, g, n - 1);
        let s = ss[n - 1];
        if is_acpitz(s) && (gpu_gap(s, g) matches Some(d) && d <= 3000 && (prev is None || d
            < (prev->0).1)) {
            Some((n - 1, gpu_gap(s, g)->0))
        } else {
            prev
        }
    }
}

/// The zone identified as the GPU die: the first one tracking the GPU reading
/// within 1 °C, else the closest one within 3 °C; none without a GPU reading.
pub open spec fn gpu_zone_spec(ss: Seq<ThermalStat>, gpu: Option<i64>) -> Option<int> {
    match gpu {
        None => None,
        Some(g) => match first_tracking(ss, g, ss.len() as int) {
            Some(i) => Some(i),
            None => match closest_near(ss, g, ss.len() as int) {
                Some(p) => Some(p.0),
                None => None,
            },
        },
    }
}

/// A reading's temperature, zero when it has none.
pub open spec fn temp_or_zero(s: ThermalStat) -> int {
    match s.temperature_millicelsius {
        Some(t) => t as int,
        None => 0,
    }
}

/// The hottest acpitz zone other than `gz` among the first `n`, the earliest on ties.
pub open spec fn hottest_other(ss: Seq<ThermalStat>, gz: Option<int>, n: int) -> Option<int>
    decreases n,
{
    if n <= 0 {
        None
    } else {
        let prev = hottest_other(ss, gz, n - 1);
        let s = ss[n - 1];
        if is_acpitz(s) && gz != Some(n - 1) && (prev is None || temp_or_zero(s) > temp_or_zero(
            ss[prev->0],
        )) {
            Some(n - 1)
        } else {
            prev
        }
    }
}

/// The first acpitz zone among the first `n` readings.
pub open spec fn first_acpitz(ss: Seq<ThermalStat>, n: int) -> Option<int>
    decreases n,
{
    if n <= 0 {
        None
    } else {
        match first_acpitz(ss, n - 1) {
            Some(j) => Some(j),
            None => if is_acpitz(ss[n - 1]) {
                Some(n - 1)
            } else {
                None
            },
        }
    }
}

/// The zone identified as the board/package sensor: the hottest zone other
/// than the GPU die, else the first zone.
pub open spec fn board_zone_spec(ss: Seq<ThermalStat>, gz: Option<int>) -> Option<int> {
    match hottest_other(ss, gz, ss.len() as int) {
        Some(h) => Some(h),
        None => first_acpitz(ss, ss.len() as int),
    }
}

/// The key under which a zone's label is remembered.
pub open spec fn zone_key(s: ThermalStat) -> Seq<char> {
    "acpitz:"@ + s.zone@
}

/// The label that this sample's identification gives reading `i`.
pub open spec fn fresh_label(ss: Seq<ThermalStat>, gpu: Option<i64>, i: int) -> Seq<char> {
    let gz = gpu_zone_spec(ss, gpu);
    if gz == Some(i) {
        "GPU die (SoC)"@
    } else if board_zone_spec(ss, gz) == Some(i) {
        "Board / package"@
    } else {
        "SoC zone "@ + ss[i].zone@
    }
}

/// The first acpitz reading among the first `n` whose key is `k`.
pub open spec fn first_with_key(ss: Seq<ThermalStat>, k: Seq<char>, n: int) -> Option<int>
    decreases n,
{
    if n <= 0 {
        None
    } else {
        match first_with_key(ss, k, n - 1) {
            Some(j) => Some(j),
            None => if is_acpitz(ss[n - 1]) && zone_key(ss[n - 1]) == k {
                Some(n - 1)
            } else {
                None
            },
        }
    }
}

/// The label of key `k` after a sample: the remembered one if there is one,
/// else the one this sample gives the first zone with that key.
pub open spec fn label_for_key(
    ss: Seq<ThermalStat>,
    gpu: Option<i64>,
    known: Map<Seq<char>, Seq<char>>,
    k: Seq<char>,
) -> Seq<char> {
    if known.contains_key(k) {
        known[k]
    } else {
        fresh_label(ss, gpu, first_with_key(ss, k, ss.len() as int)->0)
    }
}

/// The reading carries the label `l`.
pub open spec fn has_label(s: ThermalStat, l: Seq<char>) -> bool {
    s.sensor_label matches Some(x) && x@ == l
}

/// All fields but the label are the same.
pub open spec fn same_but_label(a: ThermalStat, b: ThermalStat) -> bool {
    &&& a.id == b.id
    &&& a.timestamp == b.timestamp
    &&& a.zone == b.zone
    &&& a.sensor_type == b.sensor_type
    &&& a.temperature_millicelsius == b.temperature_millicelsius
    &&& a.trip_point_type == b.trip_point_type
    &&& a.trip_point_temp_millicelsius == b.trip_point_temp_millicelsius
}

proof fn lemma_first_with_key_stable(ss: Seq<ThermalStat>, k: Seq<char>, m: int, n: int)
    requires
        0 <= m <= n,
        first_with_key(ss, k, m) is Some,
    ensures
        first_with_key(ss, k, n) == first_with_key(ss, k, m),
    decreases n - m,
{
    if n > m {
        lemma_first_with_key_stable(ss, k, m, n - 1);
    }
}

proof fn lemma_first_with_key_bounds(ss: Seq<ThermalStat>, k: Seq<char>, n: int)
    ensures
        first_with_key(ss, k, n) matches Some(j) ==> 0 <= j < n && is_acpitz(ss[j]) && zone_key(
            ss[j],
        ) == k,
    decreases n,
{
    if n > 0 {
        lemma_first_with_key_bounds(ss, k, n - 1);
    }
}

proof fn lemma_hottest_bounds(ss: Seq<ThermalStat>, gz: Option<int>, n: int)
    ensures
        hottest_other(ss, gz, n) matches Some(j) ==> 0 <= j < n,
    decreases n,
{
    if n > 0 {
        lemma_hottest_bounds(ss, gz, n - 1);
    }
}

proof fn lemma_closest_bounds(ss: Seq<ThermalStat>, g: i64, n: int)
    ensures
        closest_near(ss, g, n) matches Some(p) ==> 0 <= p.0 < n && gpu_gap(ss[p.0], g) == Some(
            p.1,
        ),
    decreases n,
{
    if n > 0 {
        lemma_closest_bounds(ss, g, n - 1);
    }
}

/// Locate the GPU-die zone for a GPU reading of `g` millidegrees.
fn find_gpu_zone(stats: &Vec<ThermalStat>, g: i64) -> (r: Option<usize>)
    ensures
        match r {
            Some(i) => gpu_zone_spec(stats@, Some(g)) == Some(i as int),
            None => gpu_zone_spec(stats@, Some(g)) is None,
        },
{
    let ghost ss = stats@;
    let acpitz = chars_of("acpitz");
    let n = stats.len();
    let mut closest: Option<(usize, i128)> = None;
    let mut i: usize = 0;
    while i < n
        invariant
            i <= n == ss.len(),
            ss == stats@,
            acpitz@ == "acpitz"@,
            first_tracking(ss, g, i as int) is None,
            match closest {
                Some((j, d)) => closest_near(ss, g, i as int) == Some((j as int, d as int)),
                None => closest_near(ss, g, i as int) is None,
            },
        decreases n - i,
    {
        let s = &stats[i];
        let st = chars_of(s.sensor_type.as_str());
        if chars_eq(st.as_slice(), acpitz.as_slice()) {
            if let Some(t) = s.temperature_millicelsius {
                let diff: i128 = if t as i128 >= g as i128 {
                    t as i128 - g as i128
                } else {
                    g as i128 - t as i128
                };
                if diff <= 1000 {
                    proof {
                        lemma_first_with_key_bounds(ss, Seq::empty(), 0);
                        assert(first_tracking(ss, g, i + 1) == Some(i as int));
                        lemma_first_tracking_stable(ss, g, i + 1, ss.len() as int);
                    }
                    return Some(i);
                }
                let better = match closest {
                    None => true,
                    Some((_, d)) => diff < d,
                };
                if diff <= 3000 && better {
                    closest = Some((i, diff));
                }
            }
        }
        i = i + 1;
    }
    match closest {
        Some((j, _)) => Some(j),
        None => None,
    }
}

proof fn lemma_first_tracking_stable(ss: Seq<ThermalStat>, g: i64, m: int, n: int)
    requires
        0 <= m <= n,
        first_tracking(ss, g, m) is Some,
    ensures
        first_tracking(ss, g, n) == first_tracking(ss, g, m),
    decreases n - m,
{
    if n > m {
        lemma_first_tracking_stable(ss, g, m, n - 1);
    }
}

/// Locate the board/package zone, given the GPU-die zone.
fn find_board_zone(stats: &Vec<ThermalStat>, gz: Option<usize>) -> (r: Option<usize>)
    ensures
        ({
            let gzs = match gz {
                Some(j) => Some(j as int),
                None => None,
            };
            match r {
                Some(i) => board_zone_spec(stats@, gzs) == Some(i as int),
                None => board_zone_spec(stats@, gzs) is None,
            }
        }),
{
    let ghost ss = stats@;
    let ghost gzs = match gz {
        Some(j) => Some(j as int),
        None => None,
    };
    let acpitz = chars_of("acpitz");
    let n = stats.len();
    let mut hot: Option<usize> = None;
    let mut first: Option<usize> = None;
    let mut i: usize = 0;
    while i < n
        invariant
            i <= n == ss.len(),
            ss == stats@,
            acpitz@ == "acpitz"@,
            gzs == match gz {
                Some(j) => Some(j as int),
                None => None,
            },
            match hot {
                Some(j) => hottest_other(ss, gzs, i as int) == Some(j as int),
                None => hottest_other(ss, gzs, i as int) is None,
            },
            match first {
                Some(j) => first_acpitz(ss, i as int) == Some(j as int),
                None => first_acpitz(ss, i as int) is None,
            },
        decreases n - i,
    {
        let s = &stats[i];
        let st = chars_of(s.sensor_type.as_str());
        if chars_eq(st.as_slice(), acpitz.as_slice()) {
            if first.is_none() {
                first = Some(i);
            }
            let is_gpu = match gz {
                Some(j) => j == i,
                None => false,
            };
            assert(is_gpu <==> gzs == Some(i as int));
            if !is_gpu {
                let t = match s.temperature_millicelsius {
                    Some(t) => t,
                    None => 0,
                };
                let take = match hot {
                    None => true,
                    Some(h) => {
                        proof {
                            lemma_hottest_bounds(ss, gzs, i as int);
                        }
                        let th = match stats[h].temperature_millicelsius {
                            Some(t) => t,
                            None => 0,
                        };
                        t > th
                    },
                };
                proof {
                    match hot {
                        Some(h) => {
                            assert(ss[h as int] == stats@[h as int]);
                            assert(take == (temp_or_zero(ss[i as int]) > temp_or_zero(ss[h as int])));
                        },
                        None => {},
                    }
                }
                if take {
                    hot = Some(i);
                }
            }
        }
        i = i + 1;
    }
    match hot {
        Some(h) => Some(h),
        None => first,
    }
}

/// What labelling a sample `ss` into `ss2` with the GPU reading `gpu` does,
/// with the remembered labels going from `k0` to `k1`.
pub open spec fn annotation_holds(
    ss: Seq<ThermalStat>,
    ss2: Seq<ThermalStat>,
    gpu: Option<i64>,
    k0: Map<Seq<char>, Seq<char>>,
    k1: Map<Seq<char>, Seq<char>>,
) -> bool {
    &&& ss2.len() == ss.len()
    &&& forall|i: int| 0 <= i < ss.len() ==> same_but_label(#[trigger] ss2[i], ss[i])
    &&& forall|i: int|
        0 <= i < ss.len() && !is_acpitz(ss[i]) ==> (#[trigger] ss2[i]).sensor_label
            == ss[i].sensor_label
    &&& forall|i: int|
        0 <= i < ss.len() && is_acpitz(ss[i]) ==> has_label(
            #[trigger] ss2[i],
            label_for_key(ss, gpu, k0, zone_key(ss[i])),
        )
    &&& forall|k: Seq<char>|
        #[trigger] k1.contains_key(k) <==> (k0.contains_key(k) || first_with_key(
            ss,
            k,
            ss.len() as int,
        ) is Some)
    &&& forall|k: Seq<char>|
        #[trigger] k1.contains_key(k) ==> k1[k] == label_for_key(ss, gpu, k0, k)
}

/// Label the anonymous `acpitz` zones, deciding each zone's label only the
/// first time it is seen (remembered in `known` under `acpitz:<zone>`):
/// - the zone tracking the GPU reading within 1 °C (else the closest within
///   3 °C) is `GPU die (SoC)`;
/// - the hottest other zone is `Board / package`;
/// - the rest are `SoC zone <zone>`.
/// Readings of other sensors, and every field but the label, are left as they are.
pub fn annotate_zones(stats: &mut Vec<ThermalStat>, gpu_temp: Option<i64>, known: &mut ZoneLabels)
    ensures
        annotation_holds(old(stats)@, final(stats)@, gpu_temp, old(known)@, final(known)@),
{
    let ghost ss = stats@;
    let ghost k0 = known@;
    let gz: Option<usize> = match gpu_temp {
        Some(g) => find_gpu_zone(stats, g),
        None => None,
    };
    let bz = find_board_zone(stats, gz);
    let acpitz = chars_of("acpitz");
    let n = stats.len();
    let mut i: usize = 0;
    while i < n
        invariant
            i <= n == ss.len() == stats@.len(),
            acpitz@ == "acpitz"@,
            match gz {
                Some(j) => gpu_zone_spec(ss, gpu_temp) == Some(j as int),
                None => gpu_zone_spec(ss, gpu_temp) is None,
            },
            match bz {
                Some(j) => board_zone_spec(ss, gpu_zone_spec(ss, gpu_temp)) == Some(j as int),
                None => board_zone_spec(ss, gpu_zone_spec(ss, gpu_temp)) is None,
            },
            forall|j: int| 0 <= j < n ==> same_but_label(#[trigger] stats@[j], ss[j]),
            forall|j: int| i <= j < n ==> (#[trigger] stats@[j]).sensor_label == ss[j].sensor_label,
            forall|j: int|
                0 <= j < i && !is_acpitz(ss[j]) ==> (#[trigger] stats@[j]).sensor_label
                    == ss[j].sensor_label,
            forall|j: int|
                0 <= j < i && is_acpitz(ss[j]) ==> has_label(
                    #[trigger] stats@[j],
                    label_for_key(ss, gpu_temp, k0, zone_key(ss[j])),
                ),
            forall|k: Seq<char>|
                #[trigger] known@.contains_key(k) <==> (k0.contains_key(k) || first_with_key(
                    ss,
                    k,
                    i as int,
                ) is Some),
            forall|k: Seq<char>|
                #[trigger] known@.contains_key(k) ==> known@[k] == (if k0.contains_key(k) {
                    k0[k]
                } else {
                    fresh_label(ss, gpu_temp, first_with_key(ss, k, i as int)->0)
                }),
        decreases n - i,
    {
        let st = chars_of(stats[i].sensor_type.as_str());
        if chars_eq(st.as_slice(), acpitz.as_slice()) {
            let mut key = String::from_str("acpitz:");
            key.append(stats[i].zone.as_str());
            let kc = chars_of(key.as_str());
            let ghost kk = kc@;
            assert(kk == zone_key(ss[i as int]));
            let label = match known.get(kc.as_slice()) {
                Some(existing) => existing,
                None => {
                    if gz == Some(i) {
                        String::from_str("GPU die (SoC)")
                    } else if bz == Some(i) {
                        String::from_str("Board / package")
                    } else {
                        let mut l = String::from_str("SoC zone ");
                        l.append(stats[i].zone.as_str());
                        l
                    }
                },
            };
            proof {
                lemma_first_with_key_bounds(ss, kk, i as int);
                if !k0.contains_key(kk) {
                    if first_with_key(ss, kk, i as int) is None {
                        assert(first_with_key(ss, kk, i + 1) == Some(i as int));
                    } else {
                        lemma_first_with_key_stable(ss, kk, i as int, i + 1);
                    }
                    lemma_first_with_key_stable(ss, kk, i + 1, ss.len() as int);
                }
                assert(label@ == label_for_key(ss, gpu_temp, k0, kk));
                assert forall|k: Seq<char>| k != kk implies first_with_key(ss, k, i + 1)
                    == first_with_key(ss, k, i as int) by {}
            }
            let lc = label.clone();
            known.insert(kc.as_slice(), lc);
            stats[i].sensor_label = Some(label);
        } else {
            proof {
                assert forall|k: Seq<char>| true implies first_with_key(ss, k, i + 1)
                    == first_with_key(ss, k, i as int) by {}
            }
        }
        i = i + 1;
    }
}

/// All fields but the timestamp are the same.
pub open spec fn same_but_timestamp(a: ThermalStat, b: ThermalStat) -> bool {
    &&& a.id == b.id
    &&& a.zone == b.zone
    &&& a.sensor_type == b.sensor_type
    &&& a.temperature_millicelsius == b.temperature_millicelsius
    &&& a.trip_point_type == b.trip_point_type
    &&& a.trip_point_temp_millicelsius == b.trip_point_temp_millicelsius
    &&& a.sensor_label == b.sensor_label
}

fn stamp_all(v: &mut Vec<ThermalStat>, ts: i64)
    ensures
        final(v)@.len() == old(v)@.len(),
        forall|i: int|
            0 <= i < old(v)@.len() ==> same_but_timestamp(#[trigger] final(v)@[i], old(v)@[i])
                && final(v)@[i].timestamp == ts,
{
    let ghost o = v@;
    let mut i: usize = 0;
    while i < v.len()
        invariant
            i <= v@.len() == o.len(),
            forall|j: int|
                0 <= j < o.len() ==> same_but_timestamp(#[trigger] v@[j], o[j]),
            forall|j: int| 0 <= j < i ==> (#[trigger] v@[j]).timestamp == ts,
        decreases o.len() - i,
    {
        v[i].timestamp = ts;
        i = i + 1;
    }
}

pub open spec fn gpu_count(gpu: Option<ThermalStat>) -> int {
    if gpu is Some {
        1
    } else {
        0
    }
}

pub open spec fn gpu_reading(gpu: Option<ThermalStat>) -> Option<i64> {
    match gpu {
        Some(x) => x.temperature_millicelsius,
        None => None,
    }
}

/// One thermal sample, all readings stamped `ts`: the GPU reading first (if
/// any), then the thermal zones labelled by `annotate_zones` against the GPU
/// reading, then the hwmon channels.
pub fn thermal_batch(
    gpu: Option<ThermalStat>,
    zones: Vec<ThermalStat>,
    hwmons: Vec<ThermalStat>,
    ts: i64,
    known: &mut ZoneLabels,
) -> (out: Vec<ThermalStat>)
    ensures
        out@.len() == gpu_count(gpu) + zones@.len() + hwmons@.len(),
        forall|i: int| 0 <= i < out@.len() ==> (#[trigger] out@[i]).timestamp == ts,
        gpu matches Some(x) ==> same_but_timestamp(out@[0], x),
        exists|labelled: Seq<ThermalStat>|
            annotation_holds(zones@, labelled, gpu_reading(gpu), old(known)@, final(known)@)
                && forall|i: int|
                0 <= i < zones@.len() ==> same_but_timestamp(
                    #[trigger] out@[gpu_count(gpu) + i],
                    labelled[i],
                ),
        forall|i: int|
            0 <= i < hwmons@.len() ==> same_but_timestamp(
                #[trigger] out@[gpu_count(gpu) + zones@.len() + i],
                hwmons@[i],
            ),
{
    let gpu_temp = match &gpu {
        Some(x) => x.temperature_millicelsius,
        None => None,
    };
    let ghost k0 = known@;
    let mut zones = zones;
    let ghost z0 = zones@;
    annotate_zones(&mut zones, gpu_temp, known);
    let ghost labelled = zones@;
    stamp_all(&mut zones, ts);
    let mut hwmons = hwmons;
    let ghost h0 = hwmons@;
    stamp_all(&mut hwmons, ts);
    let mut out: Vec<ThermalStat> = Vec::new();
    if let Some(mut x) = gpu {
        x.timestamp = ts;
        out.push(x);
    }
    let g = out.len();
    let ghost head = out@;
    out.append(&mut zones);
    let ghost mid = out@;
    let ghost hs = hwmons@;
    out.append(&mut hwmons);
    proof {
        assert(out@ == mid + hs);
        assert forall|i: int| 0 <= i < z0.len() implies same_but_timestamp(
            #[trigger] out@[g + i],
            labelled[i],
        ) by {
            assert(out@[g + i] == mid[g + i]);
        }
        assert forall|i: int| 0 <= i < h0.len() implies same_but_timestamp(
            #[trigger] out@[g + z0.len() + i],
            h0[i],
        ) by {
            assert(out@[g + z0.len() + i] == hs[i]);
        }
        assert forall|i: int| 0 <= i < out@.len() implies (#[trigger] out@[i]).timestamp == ts by {
            if i < g {
            } else if i < g + z0.len() {
                assert(out@[i] == mid[i]);
            } else {
                assert(out@[i] == hs[i - g - z0.len()]);
            }
        }
        assert(annotation_holds(z0, labelled, gpu_temp, k0, known@));
    }
    out
}

proof fn lemma_seen_key_found(ss: Seq<ThermalStat>, i: int)
    requires
        0 <= i < ss.len(),
        is_acpitz(ss[i]),
    ensures
        first_with_key(ss, zone_key(ss[i]), ss.len() as int) is Some,
{
    let k = zone_key(ss[i]);
    assert(first_with_key(ss, k, i + 1) is Some);
    lemma_first_with_key_stable(ss, k, i + 1, ss.len() as int);
}

/// An `acpitz` zone keeps the label it was given when first seen: across two
/// successive annotations that share the remembered labels, a zone of the
/// first batch carries the same label in the second, and no remembered label
/// is ever changed or forgotten.
pub proof fn law_zone_labels_frozen(
    ss1: Seq<ThermalStat>,
    out1: Seq<ThermalStat>,
    gpu1: Option<i64>,
    k0: Map<Seq<char>, Seq<char>>,
    k1: Map<Seq<char>, Seq<char>>,
    ss2: Seq<ThermalStat>,
    out2: Seq<ThermalStat>,
    gpu2: Option<i64>,
    k2: Map<Seq<char>, Seq<char>>,
    i: int,
    j: int,
)
    requires
        annotation_holds(ss1, out1, gpu1, k0, k1),
        annotation_holds(ss2, out2, gpu2, k1, k2),
        0 <= i < ss1.len(),
        0 <= j < ss2.len(),
        is_acpitz(ss1[i]),
        is_acpitz(ss2[j]),
        ss1[i].zone@ == ss2[j].zone@,
    ensures
        out1[i].sensor_label is Some,
        out2[j].sensor_label is Some,
        out2[j].sensor_label->0@ == out1[i].sensor_label->0@,
        forall|k: Seq<char>| #[trigger] k1.contains_key(k) ==> k2.contains_key(k) && k2[k] == k1[k],
{
    let key = zone_key(ss1[i]);
    assert(zone_key(ss2[j]) == key);
    lemma_seen_key_found(ss1, i);
    assert(k1.contains_key(key));
    assert(has_label(out1[i], label_for_key(ss1, gpu1, k0, key)));
    assert(has_label(out2[j], label_for_key(ss2, gpu2, k1, key)));
    assert forall|k: Seq<char>| #[trigger] k1.contains_key(k) implies k2.contains_key(k) && k2[k]
        == k1[k] by {
        assert(k2.contains_key(k));
        assert(k2[k] == label_for_key(ss2, gpu2, k1, k));
    }
}

proof fn lemma_first_tracking_facts(ss: Seq<ThermalStat>, g: i64, n: int)
    requires
        n <= ss.len(),
    ensures
        match first_tracking(ss, g, n) {
            Some(i) => 0 <= i < n && is_acpitz(ss[i]) && (gpu_gap(ss[i], g) matches Some(d) && d
                <= 1000),
            None => forall|j: int|
                0 <= j < n && is_acpitz(ss[j]) ==> !(#[trigger] gpu_gap(ss[j], g) matches Some(d)
                    && d <= 1000),
        },
    decreases n,
{
    if n > 0 {
        lemma_first_tracking_facts(ss, g, n - 1);
    }
}

proof fn lemma_closest_facts(ss: Seq<ThermalStat>, g: i64, n: int)
    requires
        n <= ss.len(),
    ensures
        match closest_near(ss, g, n) {
            Some((i, d)) => 0 <= i < n && is_acpitz(ss[i]) && gpu_gap(ss[i], g) == Some(d) && d
                <= 3000 && forall|j: int|
                0 <= j < n && is_acpitz(ss[j]) && (#[trigger] gpu_gap(ss[j], g) matches Some(dj)
                    && dj <= 3000) ==> d <= gpu_gap(ss[j], g)->0,
            None => forall|j: int|
                0 <= j < n && is_acpitz(ss[j]) ==> !(#[trigger] gpu_gap(ss[j], g) matches Some(
                    dj,
                ) && dj <= 3000),
        },
    decreases n,
{
    if n > 0 {
        lemma_closest_facts(ss, g, n - 1);
    }
}

/// The zone taken for the GPU die is an `acpitz` zone whose reading is within
/// 3 °C of the GPU's; unless it is within 1 °C, no other `acpitz` zone within
/// 3 °C is closer to the GPU reading than it is.
pub proof fn law_gpu_die_is_closest(ss: Seq<ThermalStat>, g: i64, i: int, j: int)
    requires
        gpu_zone_spec(ss, Some(g)) == Some(i),
        0 <= j < ss.len(),
        is_acpitz(ss[j]),
        ss[j].temperature_millicelsius is Some,
        abs_diff(ss[j].temperature_millicelsius->0 as int, g as int) <= 3000,
    ensures
        0 <= i < ss.len(),
        is_acpitz(ss[i]),
        ss[i].temperature_millicelsius is Some,
        abs_diff(ss[i].temperature_millicelsius->0 as int, g as int) <= 3000,
        abs_diff(ss[i].temperature_millicelsius->0 as int, g as int) > 1000 ==> abs_diff(
            ss[i].temperature_millicelsius->0 as int,
            g as int,
        ) <= abs_diff(ss[j].temperature_millicelsius->0 as int, g as int),
{
    let n = ss.len() as int;
    lemma_first_tracking_facts(ss, g, n);
    lemma_closest_facts(ss, g, n);
    assert(gpu_gap(ss[j], g) == Some(abs_diff(ss[j].temperature_millicelsius->0 as int, g as int)));
}

/// A GPU reading with some `acpitz` zone within 3 °C of it always has a zone
/// taken for the GPU die.
pub proof fn law_gpu_die_found(ss: Seq<ThermalStat>, g: i64, j: int)
    requires
        0 <= j < ss.len(),
        is_acpitz(ss[j]),
        ss[j].temperature_millicelsius is Some,
        abs_diff(ss[j].temperature_millicelsius->0 as int, g as int) <= 3000,
    ensures
        gpu_zone_spec(ss, Some(g)) is Some,
{
    let n = ss.len() as int;
    lemma_first_tracking_facts(ss, g, n);
    lemma_closest_facts(ss, g, n);
    assert(gpu_gap(ss[j], g) == Some(abs_diff(ss[j].temperature_millicelsius->0 as int, g as int)));
}

proof fn lemma_hottest_facts(ss: Seq<ThermalStat>, gz: Option<int>, n: int)
    requires
        n <= ss.len(),
    ensures
        match hottest_other(ss, gz, n) {
            Some(b) => 0 <= b < n && is_acpitz(ss[b]) && gz != Some(b) && forall|j: int|
                0 <= j < n && is_acpitz(ss[j]) && gz != Some(j) ==> temp_or_zero(#[trigger] ss[j])
                    <= temp_or_zero(ss[b]),
            None => forall|j: int| 0 <= j < n && is_acpitz(#[trigger] ss[j]) ==> gz == Some(j),
        },
    decreases n,
{
    if n > 0 {
        lemma_hottest_facts(ss, gz, n - 1);
    }
}

/// The zone taken for the board/package sensor is, whenever some `acpitz`
/// zone other than the GPU die exists, such a zone, and none of them is
/// hotter (a zone without a reading counts as 0 °C).
pub proof fn law_board_is_hottest_other(ss: Seq<ThermalStat>, gz: Option<int>, j: int)
    requires
        0 <= j < ss.len(),
        is_acpitz(ss[j]),
        gz != Some(j),
    ensures
        board_zone_spec(ss, gz) matches Some(b) && 0 <= b < ss.len() && is_acpitz(ss[b]) && gz
            != Some(b) && temp_or_zero(ss[j]) <= temp_or_zero(ss[b]),
{
    lemma_hottest_facts(ss, gz, ss.len() as int);
}

} // verus!
