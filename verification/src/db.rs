//! The history database's conventions: timestamps are stored as the text of
//! their unix seconds, and the retention and averaging windows are counted
//! back from the current time. The SQL itself is run by the daemons.
use vstd::prelude::*;
use crate::num::{
    i64_chars, int_text, parse_i64, parse_i64_spec, lemma_i64_text_roundtrip, lemma_decimal_len,
    lemma_decimal_order, pow10,
};
use crate::text::lex_lt_spec;
use crate::text::{chars_of, string_from_chars};

verus! {

/// The rows that a prune removed, per table.
#[derive(Debug)]
pub struct PruneSummary {
    pub memory: u64,
    pub thermal: u64,
    pub compute: u64,
    pub power: u64,
}

impl PruneSummary {
    /// All rows removed.
    pub fn total(&self) -> (t: u128)
        ensures
            t == self.memory + self.thermal + self.compute + self.power,
    {
        self.memory as u128 + self.thermal as u128 + self.compute as u128 + self.power as u128
    }
}

/// Seconds in a day.
pub const SECS_PER_DAY: i64 = 86_400;

/// The stored form of a timestamp: the decimal text of its unix seconds.
pub fn timestamp_text(ts: i64) -> (s: String)
    ensures
        s@ == int_text(ts as int),
{
    let c = i64_chars(ts);
    string_from_chars(c.as_slice())
}

/// A stored timestamp read back; text that does not parse reads as 0.
pub fn parse_timestamp_text(text: &str) -> (ts: i64)
    ensures
        ts == match parse_i64_spec(text@) {
            Some(t) => t,
            None => 0,
        },
{
    let c = chars_of(text);
    match parse_i64(c.as_slice()) {
        Some(t) => t,
        None => 0,
    }
}

/// Reading back a stored timestamp gives the timestamp that was stored.
pub proof fn lemma_timestamp_roundtrip(ts: i64)
    ensures
        parse_i64_spec(int_text(ts as int)) == Some(ts),
{
    lemma_i64_text_roundtrip(ts);
}

/// Stored timestamps of the ten-digit era (September 2001 to the year 2286)
/// compare as texts exactly as they compare as numbers, so the database's
/// text comparisons (`ORDER BY timestamp`, `timestamp < cutoff`) order rows
/// by time.
pub proof fn law_stored_timestamp_order(t: i64, u: i64)
    requires
        1_000_000_000 <= t <= 9_999_999_999,
        1_000_000_000 <= u <= 9_999_999_999,
    ensures
        lex_lt_spec(int_text(t as int), int_text(u as int)) <==> t < u,
{
    assert(pow10(9) == 1_000_000_000 && pow10(10) == 10_000_000_000) by {
        reveal_with_fuel(pow10, 11);
    }
    lemma_decimal_len(t as nat, 10);
    lemma_decimal_len(u as nat, 10);
    lemma_decimal_order(t as nat, u as nat);
}

/// The prune cutoff: rows stamped before `now - retention_days` days go.
pub fn prune_cutoff(now: i64, retention_days: u32) -> (c: i64)
    requires
        now - retention_days * SECS_PER_DAY >= i64::MIN,
    ensures
        c == now - retention_days * SECS_PER_DAY,
{
    now - (retention_days as i64) * SECS_PER_DAY
}

/// The start of a window of the last `minutes` minutes.
pub fn window_start(now: i64, minutes: i64) -> (s: i64)
    requires
        i64::MIN <= now - minutes * 60 <= i64::MAX,
        i64::MIN <= minutes * 60 <= i64::MAX,
    ensures
        s == now - minutes * 60,
{
    now - minutes * 60
}

} // verus!
