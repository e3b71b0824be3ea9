//! The `/proc/meminfo` parser.
use vstd::prelude::*;
use crate::collector::MemoryStat;
use crate::text::{
    chars_of, lines, lines_spec, split_char, split_spec, trim, trim_ws, Strip, ws_tokens,
    ws_tokens_spec, chars_eq,
};
use crate::num::{parse_u64, parse_u64_spec};

verus! {

broadcast use crate::views::lemma_char_vec_deep_view;

/// The byte count for a `kB` figure, when it is within `i64`.
pub open spec fn kib_bytes(v: u64) -> Option<int> {
    if v * 1024 <= i64::MAX {
        Some(v * 1024)
    } else {
        None
    }
}

/// A `Key: value kB` line: the trimmed key, and the first token of the value
/// read as kilobytes, in bytes (`None` when it does not parse, or when the byte
/// count does not fit in `i64`). Lines that do not hold exactly one `:` carry
/// nothing.
pub open spec fn meminfo_entry(line: Seq<char>) -> Option<(Seq<char>, Option<int>)> {
    let parts = split_spec(line, ':');
    if parts.len() != 2 {
        None
    } else {
        let toks = ws_tokens_spec(trim_ws(parts[1]));
        let value = if toks.len() > 0 {
            match parse_u64_spec(toks[0]) {
                Some(v) => kib_bytes(v),
                None => None,
            }
        } else {
            None
        };
        Some((trim_ws(parts[0]), value))
    }
}

/// The value of the last line among the first `n` whose key is `key`:
/// `None` if no line has that key.
pub open spec fn meminfo_lookup(ls: Seq<Seq<char>>, n: int, key: Seq<char>) -> Option<Option<int>>
    decreases n,
{
    if n <= 0 {
        None
    } else {
        match meminfo_entry(ls[n - 1]) {
            Some((k, v)) => if k == key {
                Some(v)
            } else {
                meminfo_lookup(ls, n - 1, key)
            },
            None => meminfo_lookup(ls, n - 1, key),
        }
    }
}

/// The field `key` of a meminfo text, in bytes.
pub open spec fn meminfo_field(content: Seq<char>, key: Seq<char>) -> Option<i64> {
    let ls = lines_spec(content);
    match meminfo_lookup(ls, ls.len() as int, key) {
        Some(Some(v)) => Some(v as i64),
        _ => None,
    }
}

/// The reading that `parse_proc_meminfo` makes of `content`, but for the timestamp.
pub open spec fn meminfo_matches(s: MemoryStat, content: Seq<char>) -> bool {
    &&& s.id is None
    &&& s.mem_total_bytes == meminfo_field(content, "MemTotal"@)
    &&& s.mem_free_bytes == meminfo_field(content, "MemFree"@)
    &&& s.mem_available_bytes == meminfo_field(content, "MemAvailable"@)
    &&& s.buffers_bytes == meminfo_field(content, "Buffers"@)
    &&& s.cached_bytes == meminfo_field(content, "Cached"@)
    &&& s.swap_total_bytes == meminfo_field(content, "SwapTotal"@)
    &&& s.swap_free_bytes == meminfo_field(content, "SwapFree"@)
}

/// Read one line; the value is computed in `i128`.
fn entry_of(line: &[char]) -> (r: Option<(Vec<char>, Option<i128>)>)
    ensures
        match (r, meminfo_entry(line@)) {
            (Some((k, v)), Some((ks, vs))) => k@ == ks && match (v, vs) {
                (Some(x), Some(y)) => x == y,
                (None, None) => true,
                _ => false,
            },
            (None, None) => true,
            _ => false,
        },
{
    let parts = split_char(line, ':');
    if parts.len() != 2 {
        return None;
    }
    let key = trim(parts[0].as_slice(), Strip::Whitespace);
    let rest = trim(parts[1].as_slice(), Strip::Whitespace);
    let toks = ws_tokens(rest.as_slice());
    let value: Option<i128> = if toks.len() > 0 {
        assert(toks[0]@ == toks.deep_view()[0]);
        match parse_u64(toks[0].as_slice()) {
            Some(v) => if v <= 9_007_199_254_740_991u64 {
                Some(v as i128 * 1024)
            } else {
                None
            },
            None => None,
        }
    } else {
        None
    };
    proof {
        assert(parts[0]@ == parts.deep_view()[0]);
        assert(parts[1]@ == parts.deep_view()[1]);
    }
    Some((key, value))
}

/// The value of the last line whose key is `key`.
fn lookup(entries: &Vec<Option<(Vec<char>, Option<i128>)>>, key: &str, ghost_ls: Ghost<Seq<Seq<char>>>) -> (r: Option<i64>)
    requires
        entries@.len() == ghost_ls@.len(),
        forall|j: int|
            0 <= j < entries@.len() ==> match (#[trigger] entries@[j], meminfo_entry(ghost_ls@[j])) {
                (Some((k, v)), Some((ks, vs))) => k@ == ks && match (v, vs) {
                    (Some(x), Some(y)) => x == y && i64::MIN <= y <= i64::MAX,
                    (None, None) => true,
                    _ => false,
                },
                (None, None) => true,
                _ => false,
            },
    ensures
        r == (match meminfo_lookup(ghost_ls@, ghost_ls@.len() as int, key@) {
            Some(Some(v)) => Some(v as i64),
            _ => None,
        }),
{
    let k = chars_of(key);
    let mut i: usize = entries.len();
    while i > 0
        invariant
            i <= entries@.len() == ghost_ls@.len(),
            forall|j: int|
                0 <= j < entries@.len() ==> match (#[trigger] entries@[j], meminfo_entry(ghost_ls@[j])) {
                    (Some((k, v)), Some((ks, vs))) => k@ == ks && match (v, vs) {
                        (Some(x), Some(y)) => x == y && i64::MIN <= y <= i64::MAX,
                        (None, None) => true,
                        _ => false,
                    },
                    (None, None) => true,
                    _ => false,
                },
            meminfo_lookup(ghost_ls@, ghost_ls@.len() as int, key@) == meminfo_lookup(
                ghost_ls@,
                i as int,
                key@,
            ),
            k@ == key@,
        decreases i,
    {
        let e = &entries[i - 1];
        match e {
            Some((ek, ev)) => {
                if chars_eq(ek.as_slice(), k.as_slice()) {
                    return match ev {
                        Some(x) => Some(*x as i64),
                        None => None,
                    };
                }
            },
            None => {},
        }
        i = i - 1;
    }
    None
}

/// Parse `/proc/meminfo` content read at `timestamp`. Sizes are in bytes; a
/// field that is absent, or whose last line does not hold a byte count within
/// `i64`, is `None`.
pub fn parse_proc_meminfo(content: &str, timestamp: i64) -> (s: MemoryStat)
    ensures
        meminfo_matches(s, content@),
        s.timestamp == timestamp,
{
    let text = chars_of(content);
    let ls = lines(text.as_slice());
    let ghost lv = ls.deep_view();
    let mut entries: Vec<Option<(Vec<char>, Option<i128>)>> = Vec::new();
    let mut i: usize = 0;
    while i < ls.len()
        invariant
            i <= ls@.len(),
            lv == ls.deep_view(),
            lv == lines_spec(content@),
            entries@.len() == i,
            forall|j: int|
                0 <= j < i ==> match (#[trigger] entries@[j], meminfo_entry(lv[j])) {
                    (Some((k, v)), Some((ks, vs))) => k@ == ks && match (v, vs) {
                        (Some(x), Some(y)) => x == y && i64::MIN <= y <= i64::MAX,
                        (None, None) => true,
                        _ => false,
                    },
                    (None, None) => true,
                    _ => false,
                },
        decreases ls@.len() - i,
    {
        assert(ls[i as int]@ == lv[i as int]);
        let e = entry_of(ls[i].as_slice());
        entries.push(e);
        i = i + 1;
    }
    let g = Ghost(lv);
    MemoryStat {
        id: None,
        timestamp,
        mem_total_bytes: lookup(&entries, "MemTotal", g),
        mem_free_bytes: lookup(&entries, "MemFree", g),
        mem_available_bytes: lookup(&entries, "MemAvailable", g),
        buffers_bytes: lookup(&entries, "Buffers", g),
        cached_bytes: lookup(&entries, "Cached", g),
        swap_total_bytes: lookup(&entries, "SwapTotal", g),
        swap_free_bytes: lookup(&entries, "SwapFree", g),
    }
}

/// A byte count read from a line and the one kept in a field are the same.
pub open spec fn same_bytes(field: Option<i64>, value: Option<int>) -> bool {
    match (field, value) {
        (Some(x), Some(y)) => x == y,
        (None, None) => true,
        _ => false,
    }
}

proof fn lemma_lookup_last(
    ls: Seq<Seq<char>>,
    n: int,
    k: Seq<char>,
    i: int,
    v: Option<int>,
)
    requires
        0 <= i < n <= ls.len(),
        meminfo_entry(ls[i]) == Some((k, v)),
        forall|j: int|
            i < j < n ==> !(#[trigger] meminfo_entry(ls[j]) matches Some((k2, _)) && k2 == k),
    ensures
        meminfo_lookup(ls, n, k) == Some(v),
    decreases n,
{
    if n > i + 1 {
        lemma_lookup_last(ls, n - 1, k, i, v);
        assert(!(meminfo_entry(ls[n - 1]) matches Some((k2, _)) && k2 == k));
    }
}

proof fn lemma_lookup_absent(ls: Seq<Seq<char>>, n: int, k: Seq<char>)
    requires
        0 <= n <= ls.len(),
        forall|j: int|
            0 <= j < n ==> !(#[trigger] meminfo_entry(ls[j]) matches Some((k2, _)) && k2 == k),
    ensures
        meminfo_lookup(ls, n, k) is None,
    decreases n,
{
    if n > 0 {
        lemma_lookup_absent(ls, n - 1, k);
        assert(!(meminfo_entry(ls[n - 1]) matches Some((k2, _)) && k2 == k));
    }
}

proof fn lemma_entry_in_range(line: Seq<char>)
    ensures
        meminfo_entry(line) matches Some((_, Some(b))) ==> 0 <= b <= i64::MAX,
{
}

/// Each field of a reading comes from the last line whose key is that field's
/// own `/proc/meminfo` name (`MemTotal`, `MemFree`, `MemAvailable`, `Buffers`,
/// `Cached`, `SwapTotal`, `SwapFree`), and holds that line's byte count.
pub proof fn law_field_is_last_line_with_its_key(
    content: Seq<char>,
    s: MemoryStat,
    i: int,
    k: Seq<char>,
    v: Option<int>,
)
    requires
        meminfo_matches(s, content),
        0 <= i < lines_spec(content).len(),
        meminfo_entry(lines_spec(content)[i]) == Some((k, v)),
        forall|j: int|
            i < j < lines_spec(content).len() ==> !(#[trigger] meminfo_entry(
                lines_spec(content)[j],
            ) matches Some((k2, _)) && k2 == k),
    ensures
        k == "MemTotal"@ ==> same_bytes(s.mem_total_bytes, v),
        k == "MemFree"@ ==> same_bytes(s.mem_free_bytes, v),
        k == "MemAvailable"@ ==> same_bytes(s.mem_available_bytes, v),
        k == "Buffers"@ ==> same_bytes(s.buffers_bytes, v),
        k == "Cached"@ ==> same_bytes(s.cached_bytes, v),
        k == "SwapTotal"@ ==> same_bytes(s.swap_total_bytes, v),
        k == "SwapFree"@ ==> same_bytes(s.swap_free_bytes, v),
{
    let ls = lines_spec(content);
    lemma_lookup_last(ls, ls.len() as int, k, i, v);
    lemma_entry_in_range(ls[i]);
}

/// A field whose name is the key of no line reads as `None`.
pub proof fn law_field_absent_without_its_key(content: Seq<char>, s: MemoryStat, k: Seq<char>)
    requires
        meminfo_matches(s, content),
        forall|j: int|
            0 <= j < lines_spec(content).len() ==> !(#[trigger] meminfo_entry(
                lines_spec(content)[j],
            ) matches Some((k2, _)) && k2 == k),
    ensures
        k == "MemTotal"@ ==> s.mem_total_bytes is None,
        k == "MemFree"@ ==> s.mem_free_bytes is None,
        k == "MemAvailable"@ ==> s.mem_available_bytes is None,
        k == "Buffers"@ ==> s.buffers_bytes is None,
        k == "Cached"@ ==> s.cached_bytes is None,
        k == "SwapTotal"@ ==> s.swap_total_bytes is None,
        k == "SwapFree"@ ==> s.swap_free_bytes is None,
{
    let ls = lines_spec(content);
    lemma_lookup_absent(ls, ls.len() as int, k);
}

} // verus!
