//! Character-level text handling: the line, token and number conventions
//! that the `/proc` readers, the config parser and the HTTP layer share.
use vstd::prelude::*;

verus! {

broadcast use crate::views::lemma_char_vec_deep_view;

/// The characters of `s`, in order.
pub fn chars_of(s: &str) -> (v: Vec<char>)
    ensures
        v@ == s@,
{
    let mut v: Vec<char> = Vec::new();
    for c in it: s.chars()
        invariant
            v@ == it.seq().take(it.index() as int),
            it.seq() == s@,
    {
        v.push(c);
    }
    v
}

/// A `String` holding exactly the characters of `v` (std's `FromIterator<&char>`
/// for `String`, which pushes each character in turn).
#[verifier::external_body]
pub(crate) fn string_from_chars(v: &[char]) -> (s: String)
    ensures
        s@ == v@,
{
    v.iter().collect()
}

/// The characters of an optional string.
pub open spec fn opt_str_view(o: Option<&str>) -> Option<Seq<char>> {
    match o {
        Some(s) => Some(s@),
        None => None,
    }
}

// ---------------------------------------------------------------------------
// Character classes
// ---------------------------------------------------------------------------

/// Unicode `White_Space`, the class that `char::is_whitespace` tests.
pub open spec fn is_ws_spec(c: char) -> bool {
    let u = c as u32;
    ||| (0x09 <= u && u <= 0x0d)
    ||| u == 0x20
    ||| u == 0x85
    ||| u == 0xa0
    ||| u == 0x1680
    ||| (0x2000 <= u && u <= 0x200a)
    ||| u == 0x2028
    ||| u == 0x2029
    ||| u == 0x202f
    ||| u == 0x205f
    ||| u == 0x3000
}

pub fn is_ws(c: char) -> (b: bool)
    ensures
        b == is_ws_spec(c),
{
    let u = c as u32;
    (0x09 <= u && u <= 0x0d) || u == 0x20 || u == 0x85 || u == 0xa0 || u == 0x1680 || (0x2000
        <= u && u <= 0x200a) || u == 0x2028 || u == 0x2029 || u == 0x202f || u == 0x205f || u
        == 0x3000
}

/// The classes of characters that a trim can strip.
#[derive(Clone, Copy, PartialEq, Eq)]
pub enum Strip {
    Whitespace,
    Quote,
}

pub open spec fn strips(cls: Strip, c: char) -> bool {
    match cls {
        Strip::Whitespace => is_ws_spec(c),
        Strip::Quote => c == '"',
    }
}

fn strips_exec(cls: Strip, c: char) -> (b: bool)
    ensures
        b == strips(cls, c),
{
    match cls {
        Strip::Whitespace => is_ws(c),
        Strip::Quote => c == '"',
    }
}

pub open spec fn is_digit_spec(c: char) -> bool {
    '0' <= c && c <= '9'
}

pub open spec fn digit_value(c: char) -> int {
    (c as u32) - ('0' as u32)
}

// ---------------------------------------------------------------------------
// Trimming
// ---------------------------------------------------------------------------

/// `s` with the leading characters of class `cls` removed.
pub open spec fn trim_start_spec(s: Seq<char>, cls: Strip) -> Seq<char>
    decreases s.len(),
{
    if s.len() > 0 && strips(cls, s[0]) {
        trim_start_spec(s.drop_first(), cls)
    } else {
        s
    }
}

/// `s` with the trailing characters of class `cls` removed.
pub open spec fn trim_end_spec(s: Seq<char>, cls: Strip) -> Seq<char>
    decreases s.len(),
{
    if s.len() > 0 && strips(cls, s.last()) {
        trim_end_spec(s.drop_last(), cls)
    } else {
        s
    }
}

/// `str::trim` (for `Whitespace`) and `str::trim_matches('"')` (for `Quote`).
pub open spec fn trim_spec(s: Seq<char>, cls: Strip) -> Seq<char> {
    trim_end_spec(trim_start_spec(s, cls), cls)
}

/// `str::trim`.
pub open spec fn trim_ws(s: Seq<char>) -> Seq<char> {
    trim_spec(s, Strip::Whitespace)
}

proof fn lemma_trim_start_skip(s: Seq<char>, cls: Strip, k: int)
    requires
        0 <= k <= s.len(),
        forall|j: int| 0 <= j < k ==> strips(cls, #[trigger] s[j]),
        k == s.len() || !strips(cls, s[k]),
    ensures
        trim_start_spec(s, cls) == s.skip(k),
    decreases k,
{
    if k == 0 {
        assert(s.skip(0) =~= s);
    } else {
        let t = s.drop_first();
        assert forall|j: int| 0 <= j < k - 1 implies strips(cls, #[trigger] t[j]) by {
            assert(t[j] == s[j + 1]);
        }
        if k - 1 < t.len() {
            assert(t[k - 1] == s[k]);
        }
        lemma_trim_start_skip(t, cls, k - 1);
        assert(t.skip(k - 1) =~= s.skip(k));
    }
}

proof fn lemma_trim_end_take(s: Seq<char>, cls: Strip, k: int)
    requires
        0 <= k <= s.len(),
        forall|j: int| k <= j < s.len() ==> strips(cls, #[trigger] s[j]),
        k == 0 || !strips(cls, s[k - 1]),
    ensures
        trim_end_spec(s, cls) == s.take(k),
    decreases s.len() - k,
{
    if k == s.len() {
        assert(s.take(k) =~= s);
    } else {
        let t = s.drop_last();
        assert forall|j: int| k <= j < t.len() implies strips(cls, #[trigger] t[j]) by {
            assert(t[j] == s[j]);
        }
        if k > 0 {
            assert(t[k - 1] == s[k - 1]);
        }
        lemma_trim_end_take(t, cls, k);
        assert(t.take(k) =~= s.take(k));
    }
}

/// The bounds `(a, b)` such that `s[a..b]` is `s` trimmed of class `cls`.
pub fn trim_bounds(s: &[char], cls: Strip) -> (r: (usize, usize))
    ensures
        r.0 <= r.1 <= s@.len(),
        s@.subrange(r.0 as int, r.1 as int) == trim_spec(s@, cls),
{
    let n = s.len();
    let mut a: usize = 0;
    while a < n && strips_exec(cls, s[a])
        invariant
            a <= n,
            n == s@.len(),
            forall|j: int| 0 <= j < a ==> strips(cls, #[trigger] s@[j]),
        decreases n - a,
    {
        a = a + 1;
    }
    proof {
        lemma_trim_start_skip(s@, cls, a as int);
    }
    let ghost t = s@.skip(a as int);
    let mut b: usize = n;
    while b > a && strips_exec(cls, s[b - 1])
        invariant
            a <= b <= n,
            n == s@.len(),
            t == s@.skip(a as int),
            forall|j: int| b <= j < n ==> strips(cls, #[trigger] s@[j]),
        decreases b,
    {
        b = b - 1;
    }
    proof {
        let k = b - a;
        assert forall|j: int| k <= j < t.len() implies strips(cls, #[trigger] t[j]) by {
            assert(t[j] == s@[j + a]);
        }
        if k > 0 {
            assert(t[k - 1] == s@[b - 1]);
        }
        lemma_trim_end_take(t, cls, k);
        assert(t.take(k) =~= s@.subrange(a as int, b as int));
    }
    (a, b)
}

/// A copy of `s[a..b]`.
pub fn sub_vec(s: &[char], a: usize, b: usize) -> (v: Vec<char>)
    requires
        a <= b <= s@.len(),
    ensures
        v@ == s@.subrange(a as int, b as int),
{
    let mut v: Vec<char> = Vec::new();
    let mut i = a;
    while i < b
        invariant
            a <= i <= b <= s@.len(),
            v@ == s@.subrange(a as int, i as int),
        decreases b - i,
    {
        v.push(s[i]);
        i = i + 1;
        assert(v@ =~= s@.subrange(a as int, i as int));
    }
    v
}

/// `s` trimmed of class `cls`.
pub fn trim(s: &[char], cls: Strip) -> (v: Vec<char>)
    ensures
        v@ == trim_spec(s@, cls),
{
    let (a, b) = trim_bounds(s, cls);
    sub_vec(s, a, b)
}

// ---------------------------------------------------------------------------
// Splitting
// ---------------------------------------------------------------------------

/// `str::split(sep)`: the pieces between occurrences of `sep` (always at least one).
pub open spec fn split_spec(s: Seq<char>, sep: char) -> Seq<Seq<char>>
    decreases s.len(),
{
    if s.len() == 0 {
        seq![Seq::<char>::empty()]
    } else {
        let prev = split_spec(s.drop_last(), sep);
        if s.last() == sep {
            prev.push(Seq::<char>::empty())
        } else {
            prev.update(prev.len() - 1, prev.last().push(s.last()))
        }
    }
}

pub proof fn lemma_split_nonempty(s: Seq<char>, sep: char)
    ensures
        split_spec(s, sep).len() >= 1,
    decreases s.len(),
{
    if s.len() > 0 {
        lemma_split_nonempty(s.drop_last(), sep);
    }
}

/// Split `s` at every `sep`.
pub fn split_char(s: &[char], sep: char) -> (parts: Vec<Vec<char>>)
    ensures
        parts.deep_view() == split_spec(s@, sep),
{
    let mut done: Vec<Vec<char>> = Vec::new();
    let mut cur: Vec<char> = Vec::new();
    let n = s.len();
    let mut i: usize = 0;
    while i < n
        invariant
            i <= n == s@.len(),
            done.deep_view().push(cur@) == split_spec(s@.take(i as int), sep),
        decreases n - i,
    {
        let c = s[i];
        let ghost pre = s@.take(i as int);
        let ghost old_done = done.deep_view();
        let ghost old_cur = cur@;
        proof {
            assert(s@.take(i + 1).drop_last() =~= pre);
            assert(s@.take(i + 1).last() == c);
            lemma_split_nonempty(pre, sep);
        }
        if c == sep {
            done.push(cur);
            cur = Vec::new();
            proof {
                assert(done.deep_view() =~= old_done.push(old_cur));
                assert(done.deep_view().push(cur@) =~= split_spec(s@.take(i + 1), sep));
            }
        } else {
            cur.push(c);
            proof {
                let prev = split_spec(pre, sep);
                assert(prev == old_done.push(old_cur));
                assert(prev.update(prev.len() - 1, prev.last().push(c)) =~= old_done.push(cur@));
                assert(done.deep_view().push(cur@) =~= split_spec(s@.take(i + 1), sep));
            }
        }
        i = i + 1;
    }
    assert(s@.take(n as int) =~= s@);
    let ghost old_done = done.deep_view();
    let ghost old_cur = cur@;
    done.push(cur);
    assert(done.deep_view() =~= old_done.push(old_cur));
    done
}

/// `str::lines`: split at `\n`, drop one `\r` that precedes a `\n`, and drop
/// the empty piece after a final `\n` (or of an empty input).
pub open spec fn strip_cr(l: Seq<char>) -> Seq<char> {
    if l.len() > 0 && l.last() == '\r' {
        l.drop_last()
    } else {
        l
    }
}

pub open spec fn lines_spec(s: Seq<char>) -> Seq<Seq<char>> {
    let p = split_spec(s, '\n');
    let body = p.drop_last().map_values(|l: Seq<char>| strip_cr(l));
    if p.last().len() == 0 {
        body
    } else {
        body.push(p.last())
    }
}

/// The lines of `s`, as `str::lines` yields them.
pub fn lines(s: &[char]) -> (ls: Vec<Vec<char>>)
    ensures
        ls.deep_view() == lines_spec(s@),
{
    let parts = split_char(s, '\n');
    proof {
        lemma_split_nonempty(s@, '\n');
    }
    let ghost p = parts.deep_view();
    let np = parts.len();
    let mut out: Vec<Vec<char>> = Vec::new();
    let mut i: usize = 0;
    while i + 1 < np
        invariant
            np == parts.len() == p.len() >= 1,
            p == parts.deep_view(),
            i + 1 <= np,
            out.deep_view() == p.take(i as int).map_values(|l: Seq<char>| strip_cr(l)),
        decreases np - i,
    {
        let piece = &parts[i];
        let k = piece.len();
        let l = if k > 0 && piece[k - 1] == '\r' {
            sub_vec(piece.as_slice(), 0, k - 1)
        } else {
            sub_vec(piece.as_slice(), 0, k)
        };
        proof {
            assert(piece.deep_view() == p[i as int]);
            assert(l@ =~= strip_cr(p[i as int]));
        }
        let ghost old_out = out.deep_view();
        out.push(l);
        proof {
            assert(out.deep_view() =~= old_out.push(strip_cr(p[i as int])));
            assert(p.take(i + 1).map_values(|l: Seq<char>| strip_cr(l)) =~= old_out.push(
                strip_cr(p[i as int]),
            ));
        }
        i = i + 1;
    }
    assert(p.take(i as int) =~= p.drop_last());
    let last = &parts[np - 1];
    assert(last.deep_view() == p.last());
    if last.len() > 0 {
        let l = sub_vec(last.as_slice(), 0, last.len());
        assert(l@ =~= p.last());
        let ghost old_out = out.deep_view();
        out.push(l);
        assert(out.deep_view() =~= old_out.push(p.last()));
    }
    out
}

/// `str::split_whitespace`: the maximal runs of non-whitespace characters.
pub open spec fn ws_tokens_spec(s: Seq<char>) -> Seq<Seq<char>>
    decreases s.len(),
{
    if s.len() == 0 {
        Seq::empty()
    } else {
        let prev = ws_tokens_spec(s.drop_last());
        let c = s.last();
        if is_ws_spec(c) {
            prev
        } else if s.len() > 1 && !is_ws_spec(s.drop_last().last()) {
            prev.update(prev.len() - 1, prev.last().push(c))
        } else {
            prev.push(seq![c])
        }
    }
}

proof fn lemma_ws_tokens_nonempty(s: Seq<char>)
    requires
        s.len() > 0,
        !is_ws_spec(s.last()),
    ensures
        ws_tokens_spec(s).len() >= 1,
    decreases s.len(),
{
    if s.len() > 1 && !is_ws_spec(s.drop_last().last()) {
        lemma_ws_tokens_nonempty(s.drop_last());
    }
}

/// The whitespace-separated tokens of `s`.
pub fn ws_tokens(s: &[char]) -> (toks: Vec<Vec<char>>)
    ensures
        toks.deep_view() == ws_tokens_spec(s@),
{
    let mut done: Vec<Vec<char>> = Vec::new();
    let mut cur: Vec<char> = Vec::new();
    let n = s.len();
    let mut i: usize = 0;
    while i < n
        invariant
            i <= n == s@.len(),
            cur@.len() > 0 <==> (i > 0 && !is_ws_spec(s@[i - 1])),
            (if cur@.len() > 0 {
                done.deep_view().push(cur@)
            } else {
                done.deep_view()
            }) == ws_tokens_spec(s@.take(i as int)),
        decreases n - i,
    {
        let c = s[i];
        let ghost pre = s@.take(i as int);
        proof {
            assert(s@.take(i + 1).drop_last() =~= pre);
            assert(s@.take(i + 1).last() == c);
        }
        let ghost old_done = done.deep_view();
        let ghost old_cur = cur@;
        if is_ws(c) {
            if cur.len() > 0 {
                done.push(cur);
                cur = Vec::new();
                assert(done.deep_view() =~= old_done.push(old_cur));
            }
        } else {
            let ghost had = cur@.len() > 0;
            cur.push(c);
            proof {
                let prev = ws_tokens_spec(pre);
                if had {
                    assert(pre.len() > 0 && pre.last() == s@[i - 1]);
                    assert(s@.take(i + 1).len() > 1);
                    assert(prev == old_done.push(old_cur));
                    assert(prev.update(prev.len() - 1, prev.last().push(c)) =~= old_done.push(
                        cur@,
                    ));
                } else {
                    assert(prev == old_done);
                    assert(cur@ =~= seq![c]);
                    assert(prev.push(seq![c]) =~= old_done.push(cur@));
                }
                assert(done.deep_view().push(cur@) == ws_tokens_spec(s@.take(i + 1)));
            }
        }
        i = i + 1;
    }
    assert(s@.take(n as int) =~= s@);
    if cur.len() > 0 {
        let ghost old_done = done.deep_view();
        let ghost old_cur = cur@;
        done.push(cur);
        assert(done.deep_view() =~= old_done.push(old_cur));
    }
    done
}

// ---------------------------------------------------------------------------
// Prefixes
// ---------------------------------------------------------------------------

pub open spec fn starts_with_spec(s: Seq<char>, p: Seq<char>) -> bool {
    p.len() <= s.len() && s.take(p.len() as int) == p
}

pub open spec fn ends_with_spec(s: Seq<char>, p: Seq<char>) -> bool {
    p.len() <= s.len() && s.skip(s.len() - p.len()) == p
}

pub fn starts_with(s: &[char], p: &[char]) -> (b: bool)
    ensures
        b == starts_with_spec(s@, p@),
{
    if p.len() > s.len() {
        return false;
    }
    let mut i: usize = 0;
    while i < p.len()
        invariant
            p@.len() <= s@.len(),
            i <= p@.len(),
            forall|j: int| 0 <= j < i ==> s@[j] == p@[j],
        decreases p.len() - i,
    {
        if s[i] != p[i] {
            assert(s@.take(p@.len() as int)[i as int] != p@[i as int]);
            return false;
        }
        i = i + 1;
    }
    assert(s@.take(p@.len() as int) =~= p@);
    true
}

pub fn ends_with(s: &[char], p: &[char]) -> (b: bool)
    ensures
        b == ends_with_spec(s@, p@),
{
    if p.len() > s.len() {
        return false;
    }
    let off = s.len() - p.len();
    let mut i: usize = 0;
    while i < p.len()
        invariant
            p@.len() <= s@.len(),
            s@.len() == s.len(),
            off == s@.len() - p@.len(),
            i <= p@.len(),
            forall|j: int| 0 <= j < i ==> s@[off + j] == p@[j],
        decreases p.len() - i,
    {
        if s[off + i] != p[i] {
            assert(s@.skip(off as int)[i as int] != p@[i as int]);
            return false;
        }
        i = i + 1;
    }
    assert(s@.skip(off as int) =~= p@);
    true
}

/// Equality of two character sequences.
pub fn chars_eq(a: &[char], b: &[char]) -> (r: bool)
    ensures
        r == (a@ == b@),
{
    if a.len() != b.len() {
        return false;
    }
    let r = starts_with(a, b);
    proof {
        assert(a@.take(b@.len() as int) =~= a@);
    }
    r
}

/// The position of the first `c` in `s`.
pub open spec fn first_index_spec(s: Seq<char>, c: char) -> Option<int> {
    if exists|i: int| 0 <= i < s.len() && s[i] == c {
        Some(choose|i: int| 0 <= i < s.len() && s[i] == c && forall|j: int| 0 <= j < i ==> s[j] != c)
    } else {
        None
    }
}

pub fn first_index(s: &[char], c: char) -> (r: Option<usize>)
    ensures
        match r {
            Some(i) => i < s@.len() && s@[i as int] == c && forall|j: int| 0 <= j < i ==> s@[j] != c,
            None => forall|j: int| 0 <= j < s@.len() ==> s@[j] != c,
        },
        r matches Some(i) ==> first_index_spec(s@, c) == Some(i as int),
        r is None ==> first_index_spec(s@, c) is None,
{
    let mut i: usize = 0;
    while i < s.len()
        invariant
            i <= s@.len(),
            forall|j: int| 0 <= j < i ==> s@[j] != c,
        decreases s.len() - i,
    {
        if s[i] == c {
            proof {
                let k = choose|k: int| 0 <= k < s@.len() && s@[k] == c && forall|j: int| 0 <= j < k ==> s@[j] != c;
                assert(k == i);
            }
            return Some(i);
        }
        i = i + 1;
    }
    None
}

// ---------------------------------------------------------------------------
// Ordering
// ---------------------------------------------------------------------------

/// `a < b` for strings: lexicographic by character (the order of their UTF-8 bytes).
pub open spec fn lex_lt_spec(a: Seq<char>, b: Seq<char>) -> bool
    decreases a.len(),
{
    if a.len() == 0 {
        b.len() > 0
    } else if b.len() == 0 {
        false
    } else if a[0] != b[0] {
        (a[0] as u32) < (b[0] as u32)
    } else {
        lex_lt_spec(a.drop_first(), b.drop_first())
    }
}

pub fn lex_lt(a: &[char], b: &[char]) -> (r: bool)
    ensures
        r == lex_lt_spec(a@, b@),
{
    let mut i: usize = 0;
    assert(a@.skip(0) =~= a@);
    assert(b@.skip(0) =~= b@);
    while i < a.len() && i < b.len() && a[i] == b[i]
        invariant
            i <= a@.len(),
            i <= b@.len(),
            lex_lt_spec(a@, b@) == lex_lt_spec(a@.skip(i as int), b@.skip(i as int)),
        decreases a.len() - i,
    {
        proof {
            assert(a@.skip(i as int).drop_first() =~= a@.skip(i + 1));
            assert(b@.skip(i as int).drop_first() =~= b@.skip(i + 1));
        }
        i = i + 1;
    }
    proof {
        if i < a@.len() {
            assert(a@.skip(i as int)[0] == a@[i as int]);
        }
        if i < b@.len() {
            assert(b@.skip(i as int)[0] == b@[i as int]);
        }
        assert(a@.skip(i as int).len() == a@.len() - i);
        assert(b@.skip(i as int).len() == b@.len() - i);
    }
    if i == a.len() {
        i < b.len()
    } else if i == b.len() {
        false
    } else {
        (a[i] as u32) < (b[i] as u32)
    }
}

// ---------------------------------------------------------------------------
// ASCII case
// ---------------------------------------------------------------------------

pub open spec fn ascii_lower_char(c: char) -> char {
    if 'A' <= c && c <= 'Z' {
        ((c as u32) + 32) as char
    } else {
        c
    }
}

/// `str::to_ascii_lowercase`.
pub open spec fn ascii_lower_spec(s: Seq<char>) -> Seq<char> {
    s.map_values(|c: char| ascii_lower_char(c))
}

pub fn ascii_lower(s: &[char]) -> (v: Vec<char>)
    ensures
        v@ == ascii_lower_spec(s@),
{
    let mut v: Vec<char> = Vec::new();
    let mut i: usize = 0;
    while i < s.len()
        invariant
            i <= s@.len(),
            v@ == s@.take(i as int).map_values(|c: char| ascii_lower_char(c)),
        decreases s.len() - i,
    {
        let c = s[i];
        let d = if 'A' <= c && c <= 'Z' {
            let u = (c as u8) + 32;
            u as char
        } else {
            c
        };
        v.push(d);
        i = i + 1;
        assert(v@ =~= s@.take(i as int).map_values(|c: char| ascii_lower_char(c)));
    }
    assert(s@.take(s@.len() as int) =~= s@);
    v
}

} // verus!
