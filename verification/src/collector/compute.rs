//! CPU load from `/proc/stat` tick counters, and the fields of an
//! `nvidia-smi` CSV query.
use vstd::prelude::*;
use crate::text::{
    chars_of, lines, lines_spec, ws_tokens, ws_tokens_spec, starts_with, starts_with_spec, split_char,
    split_spec, trim, trim_ws, Strip, string_from_chars,
};
use crate::num::{parse_u64, parse_u64_spec};

verus! {

broadcast use {crate::views::lemma_char_vec_deep_view, crate::views::lemma_u64_vec_deep_view};

/// Raw tick counters from /proc/stat: one aggregate row plus one row per core.
/// Fields follow kernel order: user nice system idle iowait irq softirq steal.
#[derive(Debug, Clone)]
pub struct CpuRaw {
    pub total: Vec<u64>,
    pub cores: Vec<Vec<u64>>,
}

// ---------------------------------------------------------------------------
// Specification
// ---------------------------------------------------------------------------

/// The tokens that parse as `u64`, in order; the others are dropped.
pub open spec fn parsed_u64s(toks: Seq<Seq<char>>) -> Seq<u64>
    decreases toks.len(),
{
    if toks.len() == 0 {
        Seq::empty()
    } else {
        let p = parsed_u64s(toks.drop_last());
        match parse_u64_spec(toks.last()) {
            Some(v) => p.push(v),
            None => p,
        }
    }
}

/// The numeric fields of a `/proc/stat` line, after its label.
pub open spec fn stat_fields(line: Seq<char>) -> Seq<u64> {
    let toks = ws_tokens_spec(line);
    if toks.len() == 0 {
        Seq::empty()
    } else {
        parsed_u64s(toks.skip(1))
    }
}

/// The first eight of some fields, if there are at least eight.
pub open spec fn row_spec(fields: Seq<u64>) -> Option<Seq<u64>> {
    if fields.len() < 8 {
        None
    } else {
        Some(fields.take(8))
    }
}

/// The tick row of a line, if it has eight numeric fields.
pub open spec fn line_row(line: Seq<char>) -> Option<Seq<u64>> {
    row_spec(stat_fields(line))
}

/// A per-core line: `cpu` followed by a digit (`cpu0`, `cpu17`, ...).
pub open spec fn is_core_line(line: Seq<char>) -> bool {
    starts_with_spec(line, "cpu"@) && line.len() > 3 && '0' <= line[3] && line[3] <= '9'
}

pub open spec fn is_total_line(line: Seq<char>) -> bool {
    starts_with_spec(line, "cpu "@)
}

/// The aggregate row: that of the last `cpu ` line with a full row.
pub open spec fn total_row(ls: Seq<Seq<char>>, n: int) -> Option<Seq<u64>>
    decreases n,
{
    if n <= 0 {
        None
    } else {
        let l = ls[n - 1];
        if line_row(l) is Some && is_total_line(l) {
            line_row(l)
        } else {
            total_row(ls, n - 1)
        }
    }
}

/// The per-core rows, in line order.
pub open spec fn core_rows(ls: Seq<Seq<char>>, n: int) -> Seq<Seq<u64>>
    decreases n,
{
    if n <= 0 {
        Seq::empty()
    } else {
        let l = ls[n - 1];
        let prev = core_rows(ls, n - 1);
        if line_row(l) is Some && !is_total_line(l) && is_core_line(l) {
            prev.push(line_row(l)->0)
        } else {
            prev
        }
    }
}

// ---------------------------------------------------------------------------
// Parsing
// ---------------------------------------------------------------------------

fn parse_row(fields: &[u64]) -> (r: Option<Vec<u64>>)
    ensures
        match r {
            Some(v) => row_spec(fields@) == Some(v@),
            None => row_spec(fields@) is None,
        },
{
    if fields.len() < 8 {
        return None;
    }
    let mut v: Vec<u64> = Vec::new();
    let mut i: usize = 0;
    while i < 8
        invariant
            i <= 8 <= fields@.len(),
            v@ == fields@.take(i as int),
        decreases 8 - i,
    {
        v.push(fields[i]);
        i = i + 1;
        assert(v@ =~= fields@.take(i as int));
    }
    Some(v)
}

fn fields_of(line: &[char]) -> (f: Vec<u64>)
    ensures
        f@ == stat_fields(line@),
{
    let toks = ws_tokens(line);
    let ghost tv = toks.deep_view();
    let ghost rest = tv.skip(1);
    let mut f: Vec<u64> = Vec::new();
    let mut i: usize = 1;
    if toks.len() == 0 {
        return f;
    }
    while i < toks.len()
        invariant
            1 <= i <= toks@.len(),
            tv == toks.deep_view(),
            rest == tv.skip(1),
            f@ == parsed_u64s(rest.take(i - 1)),
        decreases toks@.len() - i,
    {
        assert(toks[i as int]@ == tv[i as int]);
        assert(rest.take(i as int).drop_last() =~= rest.take(i - 1));
        assert(rest.take(i as int).last() == tv[i as int]);
        match parse_u64(toks[i].as_slice()) {
            Some(v) => f.push(v),
            None => {},
        }
        i = i + 1;
    }
    assert(rest.take(i - 1) =~= rest);
    f
}

/// Parse `/proc/stat` content: the aggregate `cpu ` row and the per-core
/// (`cpuN`) rows, each the first eight numeric fields of a line that has at
/// least eight.
/// `None` when there is no aggregate row.
pub fn parse_proc_stat(content: &str) -> (r: Option<CpuRaw>)
    ensures
        ({
            let ls = lines_spec(content@);
            match r {
                Some(raw) => total_row(ls, ls.len() as int) == Some(raw.total@)
                    && raw.cores.deep_view() == core_rows(ls, ls.len() as int),
                None => total_row(ls, ls.len() as int) is None,
            }
        }),
{
    let text = chars_of(content);
    let ls = lines(text.as_slice());
    let ghost lv = ls.deep_view();
    let cpu_sp = chars_of("cpu ");
    let cpu = chars_of("cpu");
    let mut total: Option<Vec<u64>> = None;
    let mut cores: Vec<Vec<u64>> = Vec::new();
    let mut i: usize = 0;
    while i < ls.len()
        invariant
            i <= ls@.len(),
            lv == ls.deep_view(),
            lv == lines_spec(content@),
            cpu_sp@ == "cpu "@,
            cpu@ == "cpu"@,
            match total {
                Some(t) => total_row(lv, i as int) == Some(t@),
                None => total_row(lv, i as int) is None,
            },
            cores.deep_view() == core_rows(lv, i as int),
        decreases ls@.len() - i,
    {
        let line = ls[i].as_slice();
        assert(ls[i as int]@ == lv[i as int]);
        let fields = fields_of(line);
        match parse_row(fields.as_slice()) {
            None => {},
            Some(row) => {
                if starts_with(line, cpu_sp.as_slice()) {
                    total = Some(row);
                } else if starts_with(line, cpu.as_slice()) && line.len() > 3 && '0' <= line[3]
                    && line[3] <= '9' {
                    let ghost old_cores = cores.deep_view();
                    cores.push(row);
                    assert(cores.deep_view() =~= old_cores.push(line_row(lv[i as int])->0));
                }
            },
        }
        i = i + 1;
    }
    match total {
        Some(t) => Some(CpuRaw { total: t, cores }),
        None => None,
    }
}

// ---------------------------------------------------------------------------
// Utilization
// ---------------------------------------------------------------------------

pub open spec fn sum_spec(t: Seq<u64>) -> int
    decreases t.len(),
{
    if t.len() == 0 {
        0
    } else {
        sum_spec(t.drop_last()) + t.last()
    }
}

/// The idle-ish ticks: idle + iowait (fields 3 and 4).
pub open spec fn idle_spec(t: Seq<u64>) -> int {
    t[3] + t[4]
}

/// A row whose idle-ish ticks can be added without overflow.
pub open spec fn row_ok(t: Seq<u64>) -> bool {
    t.len() >= 5 && t[3] + t[4] <= u64::MAX
}

/// Busy and total ticks between two snapshots of a row: `None` when no tick
/// elapsed; busy is total minus idle, floored at zero.
pub open spec fn utilization_ticks_spec(prev: Seq<u64>, cur: Seq<u64>) -> Option<(int, int)> {
    let dt = sum_spec(cur) - sum_spec(prev);
    let di = idle_spec(cur) - idle_spec(prev);
    if dt <= 0 {
        None
    } else {
        Some((if dt - di > 0 { dt - di } else { 0 }, dt))
    }
}

/// Every elapsed tick that is not idle (field 3) or iowait (field 4) counts
/// as busy: busy ticks and the growth of those two fields make up the total
/// exactly, unless busy is floored at zero, and busy is never negative.
pub proof fn law_busy_is_all_but_idle(prev: Seq<u64>, cur: Seq<u64>)
    requires
        row_ok(prev),
        row_ok(cur),
    ensures
        utilization_ticks_spec(prev, cur) is Some <==> sum_spec(cur) > sum_spec(prev),
        utilization_ticks_spec(prev, cur) matches Some((b, t)) ==> {
            let idle_growth = (cur[3] - prev[3]) + (cur[4] - prev[4]);
            &&& t == sum_spec(cur) - sum_spec(prev)
            &&& 0 <= b
            &&& b + idle_growth >= t
            &&& (b > 0 ==> b + idle_growth == t)
        },
{
}

/// When no idle or iowait tick elapsed, all elapsed ticks are busy.
pub proof fn law_no_idle_means_fully_busy(prev: Seq<u64>, cur: Seq<u64>)
    requires
        row_ok(prev),
        row_ok(cur),
        cur[3] == prev[3],
        cur[4] == prev[4],
        sum_spec(cur) > sum_spec(prev),
    ensures
        utilization_ticks_spec(prev, cur) == Some(
            (sum_spec(cur) - sum_spec(prev), sum_spec(cur) - sum_spec(prev)),
        ),
{
}

proof fn lemma_sum_bounds(t: Seq<u64>)
    ensures
        0 <= sum_spec(t) <= t.len() * 0xffff_ffff_ffff_ffff,
    decreases t.len(),
{
    if t.len() > 0 {
        lemma_sum_bounds(t.drop_last());
    }
}

fn sum_ticks(t: &[u64]) -> (s: i128)
    requires
        t@.len() <= 0xffff_ffff,
    ensures
        s == sum_spec(t@),
{
    let mut s: i128 = 0;
    let mut i: usize = 0;
    while i < t.len()
        invariant
            i <= t@.len() <= 0xffff_ffff,
            s == sum_spec(t@.take(i as int)),
        decreases t.len() - i,
    {
        proof {
            assert(t@.take(i + 1).drop_last() =~= t@.take(i as int));
            lemma_sum_bounds(t@.take(i + 1));
        }
        s = s + t[i] as i128;
        i = i + 1;
    }
    assert(t@.take(i as int) =~= t@);
    s
}

fn idle_ticks(t: &[u64]) -> (s: i128)
    requires
        row_ok(t@),
    ensures
        s == idle_spec(t@),
{
    (t[3] + t[4]) as i128
}

/// Busy and total ticks over the interval between two snapshots of a row.
/// The percentage of CPU time not idle is `busy / total * 100`.
pub fn utilization_ticks(prev: &[u64], cur: &[u64]) -> (r: Option<(i128, i128)>)
    requires
        row_ok(prev@),
        row_ok(cur@),
        prev@.len() <= 0xffff_ffff,
        cur@.len() <= 0xffff_ffff,
    ensures
        match r {
            Some((b, t)) => utilization_ticks_spec(prev@, cur@) == Some((b as int, t as int)),
            None => utilization_ticks_spec(prev@, cur@) is None,
        },
        r matches Some((b, t)) ==> 0 <= b && 0 < t,
{
    proof {
        lemma_sum_bounds(prev@);
        lemma_sum_bounds(cur@);
    }
    let dt = sum_ticks(cur) - sum_ticks(prev);
    let di = idle_ticks(cur) - idle_ticks(prev);
    if dt <= 0 {
        return None;
    }
    let busy = if dt - di > 0 {
        dt - di
    } else {
        0
    };
    Some((busy, dt))
}

/// The tick deltas of one core between two snapshots.
#[derive(Debug, Clone, Copy)]
pub struct CoreTicks {
    pub index: i64,
    pub busy: i128,
    pub total: i128,
}

/// Every row of a snapshot can be read by `utilization_ticks`.
pub open spec fn raw_ok(raw: CpuRaw) -> bool {
    &&& row_ok(raw.total@)
    &&& raw.total@.len() <= 0xffff_ffff
    &&& forall|i: int|
        0 <= i < raw.cores@.len() ==> row_ok(#[trigger] raw.cores@[i]@)
            && raw.cores@[i]@.len() <= 0xffff_ffff
}

/// The cores of `cur` that `prev` also has and for which ticks elapsed, in
/// index order, with their deltas.
pub open spec fn core_deltas_spec(prev: Seq<Seq<u64>>, cur: Seq<Seq<u64>>) -> Seq<(int, int, int)>
    decreases cur.len(),
{
    if cur.len() == 0 {
        Seq::empty()
    } else {
        let i = cur.len() - 1;
        let p = core_deltas_spec(prev, cur.drop_last());
        if i < prev.len() {
            match utilization_ticks_spec(prev[i], cur[i]) {
                Some((b, t)) => p.push((i, b, t)),
                None => p,
            }
        } else {
            p
        }
    }
}

pub open spec fn core_ticks_view(c: CoreTicks) -> (int, int, int) {
    (c.index as int, c.busy as int, c.total as int)
}

/// Whether every row of a snapshot can be compared (the condition of
/// `core_deltas` and `utilization_ticks`).
pub fn raw_is_ok(raw: &CpuRaw) -> (b: bool)
    ensures
        b == raw_ok(*raw),
{
    let t = &raw.total;
    if !(t.len() >= 5 && t.len() <= 0xffff_ffff && t[3] <= u64::MAX - t[4]) {
        return false;
    }
    let mut i: usize = 0;
    while i < raw.cores.len()
        invariant
            i <= raw.cores@.len(),
            forall|j: int|
                0 <= j < i ==> row_ok(#[trigger] raw.cores@[j]@) && raw.cores@[j]@.len()
                    <= 0xffff_ffff,
        decreases raw.cores.len() - i,
    {
        let c = &raw.cores[i];
        if !(c.len() >= 5 && c.len() <= 0xffff_ffff && c[3] <= u64::MAX - c[4]) {
            return false;
        }
        i = i + 1;
    }
    true
}

/// Per-core tick deltas between two snapshots: each core of `cur` that `prev`
/// also has and over which ticks elapsed.
pub fn core_deltas(prev: &CpuRaw, cur: &CpuRaw) -> (r: Vec<CoreTicks>)
    requires
        raw_ok(*prev),
        raw_ok(*cur),
        cur.cores@.len() <= i64::MAX,
    ensures
        r@.map_values(|c: CoreTicks| core_ticks_view(c)) == core_deltas_spec(
            prev.cores.deep_view(),
            cur.cores.deep_view(),
        ),
{
    let ghost pv = prev.cores.deep_view();
    let ghost cv = cur.cores.deep_view();
    let mut out: Vec<CoreTicks> = Vec::new();
    let mut i: usize = 0;
    while i < cur.cores.len()
        invariant
            i <= cur.cores@.len() <= i64::MAX,
            pv == prev.cores.deep_view(),
            cv == cur.cores.deep_view(),
            raw_ok(*prev),
            raw_ok(*cur),
            out@.map_values(|c: CoreTicks| core_ticks_view(c)) == core_deltas_spec(
                pv,
                cv.take(i as int),
            ),
        decreases cur.cores.len() - i,
    {
        assert(cv.take(i + 1).drop_last() =~= cv.take(i as int));
        assert(cv.take(i + 1)[i as int] == cur.cores@[i as int]@);
        if i < prev.cores.len() {
            assert(pv[i as int] == prev.cores@[i as int]@);
            match utilization_ticks(prev.cores[i].as_slice(), cur.cores[i].as_slice()) {
                Some((busy, total)) => {
                    let ghost old_out = out@;
                    out.push(CoreTicks { index: i as i64, busy, total });
                    assert(out@.map_values(|c: CoreTicks| core_ticks_view(c)) =~= old_out.map_values(
                        |c: CoreTicks| core_ticks_view(c),
                    ).push((i as int, busy as int, total as int)));
                },
                None => {},
            }
        }
        i = i + 1;
    }
    assert(cv.take(i as int) =~= cv);
    out
}

// ---------------------------------------------------------------------------
// nvidia-smi CSV output
// ---------------------------------------------------------------------------

/// The trimmed comma-separated fields of the first line of `out`, if it has a
/// first line with at least `n` fields.
pub open spec fn csv_fields_spec(out: Seq<char>, n: nat) -> Option<Seq<Seq<char>>> {
    let ls = lines_spec(out);
    if ls.len() == 0 {
        None
    } else {
        let parts = split_spec(ls[0], ',').map_values(|p: Seq<char>| trim_ws(p));
        if parts.len() < n {
            None
        } else {
            Some(parts)
        }
    }
}

/// The core count of a compute sample: the number of cores that have a
/// utilization, or, when none has one yet, the count the system reports.
pub fn core_count(with_utilization: usize, available: Option<i64>) -> (r: Option<i64>)
    requires
        with_utilization <= i64::MAX,
    ensures
        r == (if with_utilization == 0 {
            available
        } else {
            Some(with_utilization as i64)
        }),
{
    if with_utilization == 0 {
        available
    } else {
        Some(with_utilization as i64)
    }
}

/// The trimmed fields of the first line of an `nvidia-smi --format=csv` query.
pub fn csv_fields(out: &str, n: usize) -> (r: Option<Vec<String>>)
    ensures
        match r {
            Some(v) => csv_fields_spec(out@, n as nat) == Some(v.deep_view()),
            None => csv_fields_spec(out@, n as nat) is None,
        },
{
    let text = chars_of(out);
    let ls = lines(text.as_slice());
    if ls.len() == 0 {
        return None;
    }
    assert(ls[0]@ == ls.deep_view()[0]);
    let parts = split_char(ls[0].as_slice(), ',');
    let ghost pv = parts.deep_view();
    let ghost want = pv.map_values(|p: Seq<char>| trim_ws(p));
    let mut out_v: Vec<String> = Vec::new();
    let mut i: usize = 0;
    while i < parts.len()
        invariant
            i <= parts@.len(),
            pv == parts.deep_view(),
            want == pv.map_values(|p: Seq<char>| trim_ws(p)),
            out_v.deep_view() == want.take(i as int),
        decreases parts.len() - i,
    {
        assert(parts[i as int]@ == pv[i as int]);
        let t = trim(parts[i].as_slice(), Strip::Whitespace);
        let ghost old_v = out_v.deep_view();
        out_v.push(string_from_chars(t.as_slice()));
        assert(out_v.deep_view() =~= old_v.push(want[i as int]));
        assert(want.take(i + 1) =~= want.take(i as int).push(want[i as int]));
        i = i + 1;
    }
    assert(want.take(i as int) =~= want);
    if out_v.len() < n {
        return None;
    }
    Some(out_v)
}

} // verus!
