//! The daemons' configuration: a small section-aware `key = value` format.
use vstd::prelude::*;
use crate::text::{
    chars_of, string_from_chars, starts_with, starts_with_spec, sub_vec, trim_ws, trim_spec,
    Strip, ascii_lower_spec, first_index_spec, lines_spec, opt_str_view, lines, trim, ascii_lower,
    chars_eq, first_index,
};
use crate::num::{
    parse_u64_spec, parse_u32_spec, parse_u16_spec, parse_bool_spec, parse_u64, parse_u32, parse_u16,
    parse_bool,
};

verus! {

broadcast use crate::views::lemma_char_vec_deep_view;

#[derive(Debug)]
pub struct Config {
    pub server: ServerConfig,
    pub collector: CollectorConfig,
    pub database: DatabaseConfig,
    pub history: HistoryConfig,
    pub thermal: ThermalConfig,
    pub memory: MemoryConfig,
    pub compute: ComputeConfig,
    pub power: PowerConfig,
}

#[derive(Debug)]
pub struct ServerConfig {
    pub host: String,
    pub port: u16,
}

#[derive(Debug)]
pub struct CollectorConfig {
    pub ipc_socket: String,
}

#[derive(Debug)]
pub struct DatabaseConfig {
    pub path: String,
    pub wal_mode: bool,
}

#[derive(Debug)]
pub struct HistoryConfig {
    pub retention_days: u32,
}

#[derive(Debug)]
pub struct ThermalConfig {
    pub collection_interval_secs: u64,
}

#[derive(Debug)]
pub struct MemoryConfig {
    pub collection_interval_secs: u64,
}

#[derive(Debug)]
pub struct ComputeConfig {
    pub collection_interval_secs: u64,
}

#[derive(Debug)]
pub struct PowerConfig {
    pub collection_interval_secs: u64,
}

// ---------------------------------------------------------------------------
// Paths
// ---------------------------------------------------------------------------

/// `Path::new(base).join(rest)` on Unix: an absolute `rest` replaces `base`;
/// otherwise a `/` is put between them unless `base` is empty or ends in `/`.
pub open spec fn path_join_spec(base: Seq<char>, rest: Seq<char>) -> Seq<char> {
    if rest.len() > 0 && rest[0] == '/' {
        rest
    } else if base.len() > 0 && base.last() != '/' {
        base + seq!['/'] + rest
    } else {
        base + rest
    }
}

/// A path that starts with `~/` has the `~` replaced by the home directory,
/// when one is known; any other path is returned as it is.
pub open spec fn expand_tilde_spec(path: Seq<char>, home: Option<Seq<char>>) -> Seq<char> {
    if starts_with_spec(path, seq!['~', '/']) && home is Some {
        path_join_spec(home->0, path.skip(2))
    } else {
        path
    }
}

/// Expand a leading `~/` against `home` (the value of `HOME`, if set).
pub fn expand_tilde(path: &str, home: Option<&str>) -> (r: String)
    ensures
        r@ == expand_tilde_spec(path@, opt_str_view(home)),
{
    let p = chars_of(path);
    let tilde = ['~', '/'];
    if starts_with(p.as_slice(), &tilde) {
        if let Some(h) = home {
            let base = chars_of(h);
            let rest = sub_vec(p.as_slice(), 2, p.len());
            assert(rest@ =~= path@.skip(2));
            assert(tilde@ =~= seq!['~', '/']);
            let mut out: Vec<char> = Vec::new();
            if rest.len() > 0 && rest[0] == '/' {
                out = rest;
            } else {
                out = base.clone();
                if base.len() > 0 && base[base.len() - 1] != '/' {
                    out.push('/');
                }
                let mut i: usize = 0;
                let ghost head = out@;
                while i < rest.len()
                    invariant
                        i <= rest@.len(),
                        out@ == head + rest@.take(i as int),
                    decreases rest.len() - i,
                {
                    out.push(rest[i]);
                    i = i + 1;
                    assert(out@ =~= head + rest@.take(i as int));
                }
                assert(rest@.take(rest@.len() as int) =~= rest@);
                assert(out@ =~= path_join_spec(h@, path@.skip(2)));
            }
            return string_from_chars(out.as_slice());
        }
    }
    assert(tilde@ =~= seq!['~', '/']);
    String::from_str(path)
}

// ---------------------------------------------------------------------------
// Line syntax
// ---------------------------------------------------------------------------

/// Blank lines and `#` comments carry nothing.
pub open spec fn is_blank_or_comment(t: Seq<char>) -> bool {
    t.len() == 0 || t[0] == '#'
}

/// A `[section]` header: the lowercased, trimmed name between the brackets.
pub open spec fn header_of(line: Seq<char>) -> Option<Seq<char>> {
    let t = trim_ws(line);
    if !is_blank_or_comment(t) && t[0] == '[' && t.last() == ']' {
        Some(ascii_lower_spec(trim_ws(t.subrange(1, t.len() - 1))))
    } else {
        None
    }
}

/// A `key = value` setting: the key is trimmed, and the value is trimmed and
/// then stripped of surrounding `"` characters. Lines without `=` carry nothing.
pub open spec fn setting_of(line: Seq<char>) -> Option<(Seq<char>, Seq<char>)> {
    let t = trim_ws(line);
    if is_blank_or_comment(t) || header_of(line) is Some {
        None
    } else {
        match first_index_spec(t, '=') {
            Some(i) => Some((trim_ws(t.take(i)), trim_spec(trim_ws(t.skip(i + 1)), Strip::Quote))),
            None => None,
        }
    }
}

/// The section in force after the first `n` lines (empty before any header).
pub open spec fn section_after(lines: Seq<Seq<char>>, n: int) -> Seq<char>
    decreases n,
{
    if n <= 0 {
        Seq::empty()
    } else {
        match header_of(lines[n - 1]) {
            Some(s) => s,
            None => section_after(lines, n - 1),
        }
    }
}

/// The value of the last setting of `key` in section `sec` among the first `n` lines.
pub open spec fn setting_value(lines: Seq<Seq<char>>, n: int, sec: Seq<char>, key: Seq<char>) -> Option<
    Seq<char>,
>
    decreases n,
{
    if n <= 0 {
        None
    } else {
        match setting_of(lines[n - 1]) {
            Some((k, v)) => if k == key && section_after(lines, n - 1) == sec {
                Some(v)
            } else {
                setting_value(lines, n - 1, sec, key)
            },
            None => setting_value(lines, n - 1, sec, key),
        }
    }
}

/// The value that the last setting of `sec.key` in `content` gives.
pub open spec fn config_setting(content: Seq<char>, sec: Seq<char>, key: Seq<char>) -> Option<
    Seq<char>,
> {
    let ls = lines_spec(content);
    setting_value(ls, ls.len() as int, sec, key)
}

/// A string setting, or its default.
pub open spec fn text_or(v: Option<Seq<char>>, d: Seq<char>) -> Seq<char> {
    match v {
        Some(s) => s,
        None => d,
    }
}

/// A numeric setting: the default when absent or when its value does not parse.
pub open spec fn u64_or(v: Option<Seq<char>>, d: u64) -> u64 {
    match v {
        Some(s) => match parse_u64_spec(s) {
            Some(x) => x,
            None => d,
        },
        None => d,
    }
}

pub open spec fn u32_or(v: Option<Seq<char>>, d: u32) -> u32 {
    match v {
        Some(s) => match parse_u32_spec(s) {
            Some(x) => x,
            None => d,
        },
        None => d,
    }
}

pub open spec fn u16_or(v: Option<Seq<char>>, d: u16) -> u16 {
    match v {
        Some(s) => match parse_u16_spec(s) {
            Some(x) => x,
            None => d,
        },
        None => d,
    }
}

pub open spec fn bool_or(v: Option<Seq<char>>, d: bool) -> bool {
    match v {
        Some(s) => match parse_bool_spec(s) {
            Some(x) => x,
            None => d,
        },
        None => d,
    }
}

/// What `parse_config` yields for `content`, field by field.
pub open spec fn config_matches(c: Config, content: Seq<char>, home: Option<Seq<char>>) -> bool {
    &&& c.server.host@ == text_or(config_setting(content, "server"@, "host"@), "127.0.0.1"@)
    &&& c.server.port == u16_or(config_setting(content, "server"@, "port"@), 8090)
    &&& c.collector.ipc_socket@ == text_or(
        config_setting(content, "collector"@, "ipc_socket"@),
        "/tmp/spark-collect.sock"@,
    )
    &&& c.database.path@ == expand_tilde_spec(
        text_or(
            config_setting(content, "database"@, "path"@),
            "~/.local/share/spark-dashboard/spark.db"@,
        ),
        home,
    )
    &&& c.database.wal_mode == bool_or(config_setting(content, "database"@, "wal_mode"@), true)
    &&& c.history.retention_days == u32_or(
        config_setting(content, "history"@, "retention_days"@),
        7,
    )
    &&& c.thermal.collection_interval_secs == u64_or(
        config_setting(content, "thermal"@, "collection_interval_secs"@),
        30,
    )
    &&& c.memory.collection_interval_secs == u64_or(
        config_setting(content, "memory"@, "collection_interval_secs"@),
        60,
    )
    &&& c.compute.collection_interval_secs == u64_or(
        config_setting(content, "compute"@, "collection_interval_secs"@),
        10,
    )
    &&& c.power.collection_interval_secs == u64_or(
        config_setting(content, "power"@, "collection_interval_secs"@),
        10,
    )
}

/// The value of the last `key` setting in section `sec` among `ls`.
fn last_setting(ls: &Vec<Vec<char>>, sec: &[char], key: &[char]) -> (r: Option<Vec<char>>)
    ensures
        match r {
            Some(v) => setting_value(ls.deep_view(), ls@.len() as int, sec@, key@) == Some(v@),
            None => setting_value(ls.deep_view(), ls@.len() as int, sec@, key@) is None,
        },
{
    let ghost lv = ls.deep_view();
    let mut section: Vec<char> = Vec::new();
    let mut found: Option<Vec<char>> = None;
    let mut i: usize = 0;
    while i < ls.len()
        invariant
            i <= ls@.len(),
            lv == ls.deep_view(),
            section@ == section_after(lv, i as int),
            match found {
                Some(v) => setting_value(lv, i as int, sec@, key@) == Some(v@),
                None => setting_value(lv, i as int, sec@, key@) is None,
            },
        decreases ls@.len() - i,
    {
        let line = &ls[i];
        let ghost l = lv[i as int];
        assert(line@ == l);
        let t = trim(line.as_slice(), Strip::Whitespace);
        if t.len() == 0 || t[0] == '#' {
            i = i + 1;
            continue;
        }
        if t[0] == '[' && t[t.len() - 1] == ']' {
            let inner = sub_vec(t.as_slice(), 1, t.len() - 1);
            let name = trim(inner.as_slice(), Strip::Whitespace);
            section = ascii_lower(name.as_slice());
            assert(header_of(l) == Some(section@));
            i = i + 1;
            continue;
        }
        assert(header_of(l) is None);
        match first_index(t.as_slice(), '=') {
            None => {},
            Some(k) => {
                let before = sub_vec(t.as_slice(), 0, k);
                let after = sub_vec(t.as_slice(), k + 1, t.len());
                let this_key = trim(before.as_slice(), Strip::Whitespace);
                let after_t = trim(after.as_slice(), Strip::Whitespace);
                let value = trim(after_t.as_slice(), Strip::Quote);
                proof {
                    assert(before@ =~= t@.take(k as int));
                    assert(after@ =~= t@.skip(k + 1));
                    assert(setting_of(l) == Some((this_key@, value@)));
                }
                if chars_eq(section.as_slice(), sec) && chars_eq(this_key.as_slice(), key) {
                    found = Some(value);
                }
            },
        }
        i = i + 1;
    }
    found
}

fn text_setting(ls: &Vec<Vec<char>>, sec: &str, key: &str, default: &str) -> (r: Vec<char>)
    ensures
        r@ == text_or(setting_value(ls.deep_view(), ls@.len() as int, sec@, key@), default@),
{
    let s = chars_of(sec);
    let k = chars_of(key);
    match last_setting(ls, s.as_slice(), k.as_slice()) {
        Some(v) => v,
        None => chars_of(default),
    }
}

fn u64_setting(ls: &Vec<Vec<char>>, sec: &str, key: &str, default: u64) -> (r: u64)
    ensures
        r == u64_or(setting_value(ls.deep_view(), ls@.len() as int, sec@, key@), default),
{
    let s = chars_of(sec);
    let k = chars_of(key);
    match last_setting(ls, s.as_slice(), k.as_slice()) {
        Some(v) => match parse_u64(v.as_slice()) {
            Some(x) => x,
            None => default,
        },
        None => default,
    }
}

/// Parse configuration text. Settings absent from `content`, or whose value
/// does not parse, take their defaults; for each setting the last line that
/// gives it decides. `home` expands a `~/` database path.
pub fn parse_config(content: &str, home: Option<&str>) -> (c: Config)
    ensures
        config_matches(c, content@, opt_str_view(home)),
{
    let text = chars_of(content);
    let ls = lines(text.as_slice());
    let host = text_setting(&ls, "server", "host", "127.0.0.1");
    let port: u16 = {
        let s = chars_of("server");
        let k = chars_of("port");
        match last_setting(&ls, s.as_slice(), k.as_slice()) {
            Some(v) => match parse_u16(v.as_slice()) {
                Some(x) => x,
                None => 8090,
            },
            None => 8090,
        }
    };
    let ipc_socket = text_setting(&ls, "collector", "ipc_socket", "/tmp/spark-collect.sock");
    let db_path = text_setting(&ls, "database", "path", "~/.local/share/spark-dashboard/spark.db");
    let wal_mode: bool = {
        let s = chars_of("database");
        let k = chars_of("wal_mode");
        match last_setting(&ls, s.as_slice(), k.as_slice()) {
            Some(v) => match parse_bool(v.as_slice()) {
                Some(x) => x,
                None => true,
            },
            None => true,
        }
    };
    let retention_days: u32 = {
        let s = chars_of("history");
        let k = chars_of("retention_days");
        match last_setting(&ls, s.as_slice(), k.as_slice()) {
            Some(v) => match parse_u32(v.as_slice()) {
                Some(x) => x,
                None => 7,
            },
            None => 7,
        }
    };
    let thermal_interval = u64_setting(&ls, "thermal", "collection_interval_secs", 30);
    let memory_interval = u64_setting(&ls, "memory", "collection_interval_secs", 60);
    let compute_interval = u64_setting(&ls, "compute", "collection_interval_secs", 10);
    let power_interval = u64_setting(&ls, "power", "collection_interval_secs", 10);
    Config {
        server: ServerConfig { host: string_from_chars(host.as_slice()), port },
        collector: CollectorConfig { ipc_socket: string_from_chars(ipc_socket.as_slice()) },
        database: DatabaseConfig {
            path: expand_tilde(string_from_chars(db_path.as_slice()).as_str(), home),
            wal_mode,
        },
        history: HistoryConfig { retention_days },
        thermal: ThermalConfig { collection_interval_secs: thermal_interval },
        memory: MemoryConfig { collection_interval_secs: memory_interval },
        compute: ComputeConfig { collection_interval_secs: compute_interval },
        power: PowerConfig { collection_interval_secs: power_interval },
    }
}

proof fn lemma_section_from_header(ls: Seq<Seq<char>>, h: int, i: int, sec: Seq<char>)
    requires
        0 <= h < i <= ls.len(),
        header_of(ls[h]) == Some(sec),
        forall|m: int| h < m < i ==> (#[trigger] header_of(ls[m])) is None,
    ensures
        section_after(ls, i) == sec,
    decreases i,
{
    if i > h + 1 {
        lemma_section_from_header(ls, h, i - 1, sec);
        assert(header_of(ls[i - 1]) is None);
    }
}

proof fn lemma_setting_last(
    ls: Seq<Seq<char>>,
    n: int,
    sec: Seq<char>,
    key: Seq<char>,
    i: int,
    v: Seq<char>,
)
    requires
        0 <= i < n <= ls.len(),
        setting_of(ls[i]) == Some((key, v)),
        section_after(ls, i) == sec,
        forall|j: int|
            i < j < n ==> !(#[trigger] setting_of(ls[j]) matches Some((k2, _)) && k2 == key),
    ensures
        setting_value(ls, n, sec, key) == Some(v),
    decreases n,
{
    if n > i + 1 {
        lemma_setting_last(ls, n - 1, sec, key, i, v);
        assert(!(setting_of(ls[n - 1]) matches Some((k2, _)) && k2 == key));
    }
}

/// A setting is read from the section whose header is the nearest above it:
/// when the last `key = v` line of the file stands under the header `[sec]`,
/// the configuration field named `sec.key` takes `v` (parsed for a number or a
/// flag, the default when it does not parse), whichever other sections the
/// file has.
pub proof fn law_setting_read_from_its_section(
    content: Seq<char>,
    home: Option<Seq<char>>,
    c: Config,
    h: int,
    i: int,
    sec: Seq<char>,
    key: Seq<char>,
    v: Seq<char>,
)
    requires
        config_matches(c, content, home),
        0 <= h < i < lines_spec(content).len(),
        header_of(lines_spec(content)[h]) == Some(sec),
        forall|m: int| h < m < i ==> (#[trigger] header_of(lines_spec(content)[m])) is None,
        setting_of(lines_spec(content)[i]) == Some((key, v)),
        forall|j: int|
            i < j < lines_spec(content).len() ==> !(#[trigger] setting_of(
                lines_spec(content)[j],
            ) matches Some((k2, _)) && k2 == key),
    ensures
        sec == "server"@ && key == "host"@ ==> c.server.host@ == v,
        sec == "server"@ && key == "port"@ ==> c.server.port == match parse_u16_spec(v) {
            Some(n) => n,
            None => 8090,
        },
        sec == "collector"@ && key == "ipc_socket"@ ==> c.collector.ipc_socket@ == v,
        sec == "database"@ && key == "path"@ ==> c.database.path@ == expand_tilde_spec(v, home),
        sec == "database"@ && key == "wal_mode"@ ==> c.database.wal_mode == match parse_bool_spec(
            v,
        ) {
            Some(b) => b,
            None => true,
        },
        sec == "history"@ && key == "retention_days"@ ==> c.history.retention_days
            == match parse_u32_spec(v) {
            Some(n) => n,
            None => 7,
        },
        sec == "thermal"@ && key == "collection_interval_secs"@
            ==> c.thermal.collection_interval_secs == match parse_u64_spec(v) {
            Some(n) => n,
            None => 30,
        },
        sec == "memory"@ && key == "collection_interval_secs"@
            ==> c.memory.collection_interval_secs == match parse_u64_spec(v) {
            Some(n) => n,
            None => 60,
        },
        sec == "compute"@ && key == "collection_interval_secs"@
            ==> c.compute.collection_interval_secs == match parse_u64_spec(v) {
            Some(n) => n,
            None => 10,
        },
        sec == "power"@ && key == "collection_interval_secs"@
            ==> c.power.collection_interval_secs == match parse_u64_spec(v) {
            Some(n) => n,
            None => 10,
        },
{
    let ls = lines_spec(content);
    lemma_section_from_header(ls, h, i, sec);
    lemma_setting_last(ls, ls.len() as int, sec, key, i, v);
}

} // verus!
