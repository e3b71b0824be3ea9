//! The collector's decisions: runtime settings, the per-second sampling guards,
//! the dispatch of control requests, and when periodic work is due. The
//! sampling itself (files, `nvidia-smi`, the database) is done by the daemon.
use vstd::prelude::*;
use crate::config::Config;
use crate::ipc::{ConfigChanges, IpcResponse, error_is};
use crate::num::{
    i64_chars, int_text, parse_i64, parse_i64_spec, lemma_i64_text_roundtrip, decimal_spec,
    lemma_decimal_order,
};
use crate::text::{chars_of, chars_eq, string_from_chars, lex_lt_spec, lex_lt, opt_str_view};

verus! {

/// On-demand compute samples taken within this many seconds of the previous
/// one are suppressed: utilization over a tiny window is noise.
pub const COMPUTE_SAMPLE_GUARD_SECS: i64 = 2;

/// Source label recorded with each power sample.
pub const POWER_SOURCE: &'static str = "nvidia-smi power.draw";

/// History is pruned at most this often (six hours).
pub const PRUNE_EVERY_SECS: u64 = 21_600;

/// Runtime-mutable collector settings (changed live via control requests).
#[derive(Debug)]
pub struct RuntimeConfig {
    pub retention_days: u32,
    pub memory_interval_secs: u64,
    pub thermal_interval_secs: u64,
    pub compute_interval_secs: u64,
    pub power_interval_secs: u64,
    pub last_prune: std::time::Instant,
}

impl RuntimeConfig {
    /// The settings of a configuration; the prune clock starts now.
    pub fn from_config(c: &Config) -> (r: RuntimeConfig)
        ensures
            r.retention_days == c.history.retention_days,
            r.memory_interval_secs == c.memory.collection_interval_secs,
            r.thermal_interval_secs == c.thermal.collection_interval_secs,
            r.compute_interval_secs == c.compute.collection_interval_secs,
            r.power_interval_secs == c.power.collection_interval_secs,
    {
        RuntimeConfig {
            retention_days: c.history.retention_days,
            memory_interval_secs: c.memory.collection_interval_secs,
            thermal_interval_secs: c.thermal.collection_interval_secs,
            compute_interval_secs: c.compute.collection_interval_secs,
            power_interval_secs: c.power.collection_interval_secs,
            last_prune: crate::clock::instant_now(),
        }
    }

    /// Apply the provided changes; on an invalid value, return the error that
    /// names the first invalid setting and apply nothing.
    pub fn apply(&mut self, changes: &ConfigChanges) -> (r: Result<(), String>)
        ensures
            r is Ok <==> changes.all_in_bounds(),
            r matches Err(m) ==> changes.first_error() == Some(m@) && *final(self) == *old(self),
            r is Ok ==> {
                &&& final(self).retention_days == match changes.retention_days {
                    Some(v) => v,
                    None => old(self).retention_days,
                }
                &&& final(self).memory_interval_secs == match changes.memory_interval_secs {
                    Some(v) => v,
                    None => old(self).memory_interval_secs,
                }
                &&& final(self).thermal_interval_secs == match changes.thermal_interval_secs {
                    Some(v) => v,
                    None => old(self).thermal_interval_secs,
                }
                &&& final(self).compute_interval_secs == match changes.compute_interval_secs {
                    Some(v) => v,
                    None => old(self).compute_interval_secs,
                }
                &&& final(self).power_interval_secs == match changes.power_interval_secs {
                    Some(v) => v,
                    None => old(self).power_interval_secs,
                }
                &&& final(self).last_prune == old(self).last_prune
            },
    {
        changes.validate()?;
        if let Some(v) = changes.retention_days {
            self.retention_days = v;
        }
        if let Some(v) = changes.memory_interval_secs {
            self.memory_interval_secs = v;
        }
        if let Some(v) = changes.thermal_interval_secs {
            self.thermal_interval_secs = v;
        }
        if let Some(v) = changes.compute_interval_secs {
            self.compute_interval_secs = v;
        }
        if let Some(v) = changes.power_interval_secs {
            self.power_interval_secs = v;
        }
        Ok(())
    }
}

/// The streams the collector samples.
#[derive(Debug, Clone, Copy, PartialEq, Eq)]
pub enum SampleStream {
    Memory,
    Thermal,
    Compute,
    Power,
}

/// The stream a sample request names, if it names one.
pub open spec fn stream_named(name: Seq<char>) -> Option<SampleStream> {
    if name == "memory"@ {
        Some(SampleStream::Memory)
    } else if name == "thermal"@ {
        Some(SampleStream::Thermal)
    } else if name == "compute"@ {
        Some(SampleStream::Compute)
    } else if name == "power"@ {
        Some(SampleStream::Power)
    } else {
        None
    }
}

/// The stream a sample request names; an unknown name is answered with an
/// error response `unknown stream '<name>'`.
pub fn sample_stream(stream: &str) -> (r: Result<SampleStream, IpcResponse>)
    ensures
        match r {
            Ok(s) => stream_named(stream@) == Some(s),
            Err(resp) => stream_named(stream@) is None && !resp.ok && !resp.skipped
                && resp.timestamp is None && error_is(resp, "unknown stream '"@ + stream@ + "'"@),
        },
{
    let c = chars_of(stream);
    let memory = chars_of("memory");
    let thermal = chars_of("thermal");
    let compute = chars_of("compute");
    let power = chars_of("power");
    if chars_eq(c.as_slice(), memory.as_slice()) {
        Ok(SampleStream::Memory)
    } else if chars_eq(c.as_slice(), thermal.as_slice()) {
        Ok(SampleStream::Thermal)
    } else if chars_eq(c.as_slice(), compute.as_slice()) {
        Ok(SampleStream::Compute)
    } else if chars_eq(c.as_slice(), power.as_slice()) {
        Ok(SampleStream::Power)
    } else {
        let mut m = String::from_str("unknown stream '");
        m.append(stream);
        m.append("'");
        Err(IpcResponse::err(m))
    }
}

/// The response to a sample request: `Ok((skipped, timestamp))` confirms the
/// sample (or the one that stands in for it); an error is reported as such.
pub fn sample_response(outcome: Result<(bool, i64), String>) -> (r: IpcResponse)
    ensures
        match outcome {
            Ok((skipped, ts)) => r.ok && r.skipped == skipped && r.timestamp == Some(ts)
                && r.error is None,
            Err(e) => !r.ok && !r.skipped && r.timestamp is None && error_is(r, e@),
        },
{
    match outcome {
        Ok((skipped, ts)) => if skipped {
            IpcResponse::skipped(ts)
        } else {
            IpcResponse::ok(ts)
        },
        Err(e) => IpcResponse::err(e),
    }
}

/// Apply a configuration request to the runtime settings: acknowledged when
/// every value is in bounds, otherwise answered with the error and nothing applied.
pub fn config_response(rt: &mut RuntimeConfig, changes: &ConfigChanges) -> (r: IpcResponse)
    ensures
        r.ok <==> changes.all_in_bounds(),
        !r.skipped,
        r.timestamp is None,
        r.ok ==> r.error is None,
        !r.ok ==> *final(rt) == *old(rt),
        !r.ok ==> (changes.first_error() matches Some(m) && error_is(r, m)),
        r.ok ==> final(rt).retention_days == match changes.retention_days {
            Some(v) => v,
            None => old(rt).retention_days,
        },
        r.ok ==> final(rt).memory_interval_secs == match changes.memory_interval_secs {
            Some(v) => v,
            None => old(rt).memory_interval_secs,
        },
        r.ok ==> final(rt).thermal_interval_secs == match changes.thermal_interval_secs {
            Some(v) => v,
            None => old(rt).thermal_interval_secs,
        },
        r.ok ==> final(rt).compute_interval_secs == match changes.compute_interval_secs {
            Some(v) => v,
            None => old(rt).compute_interval_secs,
        },
        r.ok ==> final(rt).power_interval_secs == match changes.power_interval_secs {
            Some(v) => v,
            None => old(rt).power_interval_secs,
        },
        r.ok ==> final(rt).last_prune == old(rt).last_prune,
{
    match rt.apply(changes) {
        Ok(()) => IpcResponse::ack(),
        Err(e) => IpcResponse::err(e),
    }
}

// ---------------------------------------------------------------------------
// Sampling guards
// ---------------------------------------------------------------------------

/// What the thermal guard decides, given the newest stored timestamp text:
/// `Some(now)` (skip) when it is the text of `now`, else `None` (write).
pub open spec fn thermal_skip(last: Option<Seq<char>>, now: i64) -> Option<i64> {
    match last {
        Some(l) => if l == int_text(now as int) {
            Some(now)
        } else {
            None
        },
        None => None,
    }
}

/// What the compute guard decides, given the newest stored timestamp text:
/// skip, reporting the stored timestamp (or `now` if it does not parse), when
/// the text is not below the text of `now - 2`; else `None` (sample).
pub open spec fn compute_skip(last: Option<Seq<char>>, now: i64) -> Option<i64> {
    match last {
        Some(l) => if !lex_lt_spec(l, int_text(now - COMPUTE_SAMPLE_GUARD_SECS)) {
            Some(
                match parse_i64_spec(l) {
                    Some(t) => t,
                    None => now,
                },
            )
        } else {
            None
        },
        None => None,
    }
}

/// At most one thermal batch per second: once a batch stamped `t` is stored,
/// a thermal sample in the same second is skipped and reports `t`, while one
/// in any other second is written.
pub proof fn law_one_thermal_batch_per_second(t: i64, now: i64)
    ensures
        thermal_skip(Some(int_text(t as int)), now) == (if t == now {
            Some(now)
        } else {
            None
        }),
{
    lemma_i64_text_roundtrip(t);
    lemma_i64_text_roundtrip(now);
}

/// A compute sample within two seconds of the stored one is suppressed and
/// reports the stored timestamp; an older stored sample lets it through.
/// Stated for timestamps written with the same number of digits (every time
/// from 2001 to 2286), since the guard compares the stored texts.
pub proof fn law_compute_guard_window(t: i64, now: i64)
    requires
        t >= 0,
        now >= COMPUTE_SAMPLE_GUARD_SECS,
        decimal_spec(t as nat).len() == decimal_spec((now - COMPUTE_SAMPLE_GUARD_SECS) as nat).len(),
    ensures
        compute_skip(Some(int_text(t as int)), now) == (if t >= now - COMPUTE_SAMPLE_GUARD_SECS {
            Some(t)
        } else {
            None
        }),
{
    lemma_i64_text_roundtrip(t);
    lemma_decimal_order(t as nat, (now - COMPUTE_SAMPLE_GUARD_SECS) as nat);
}

/// The thermal guard: a batch already stored for the current second (its
/// stored timestamp text is `now`) is reported instead of writing a second one.
/// `Some(ts)` means skip and report `ts`.
pub fn thermal_guard(last: Option<&str>, now: i64) -> (r: Option<i64>)
    ensures
        r == thermal_skip(opt_str_view(last), now),
{
    match last {
        Some(l) => {
            let lc = chars_of(l);
            let nc = i64_chars(now);
            if chars_eq(lc.as_slice(), nc.as_slice()) {
                proof {
                    lemma_i64_text_roundtrip(now);
                }
                Some(
                    match parse_i64(lc.as_slice()) {
                        Some(t) => t,
                        None => now,
                    },
                )
            } else {
                None
            }
        },
        None => None,
    }
}

/// The compute guard: when the last stored sample's timestamp text is not
/// below that of `now - 2` (as text), the sample is suppressed and the stored
/// timestamp (or `now`, if it does not parse) is reported.
pub fn compute_guard(last: Option<&str>, now: i64) -> (r: Option<i64>)
    requires
        now >= i64::MIN + COMPUTE_SAMPLE_GUARD_SECS,
    ensures
        r == compute_skip(opt_str_view(last), now),
{
    match last {
        Some(l) => {
            let lc = chars_of(l);
            let start = i64_chars(now - COMPUTE_SAMPLE_GUARD_SECS);
            if !lex_lt(lc.as_slice(), start.as_slice()) {
                Some(
                    match parse_i64(lc.as_slice()) {
                        Some(t) => t,
                        None => now,
                    },
                )
            } else {
                None
            }
        },
        None => None,
    }
}

// ---------------------------------------------------------------------------
// Periodic work
// ---------------------------------------------------------------------------

/// Which streams are due for a periodic sample.
#[derive(Debug, Clone, Copy)]
pub struct DueStreams {
    pub memory: bool,
    pub thermal: bool,
    pub compute: bool,
    pub power: bool,
}

/// A stream is due once at least its interval has elapsed since its last sample.
pub fn due_streams(
    rt: &RuntimeConfig,
    memory_elapsed_secs: u64,
    thermal_elapsed_secs: u64,
    compute_elapsed_secs: u64,
    power_elapsed_secs: u64,
) -> (d: DueStreams)
    ensures
        d.memory == (memory_elapsed_secs >= rt.memory_interval_secs),
        d.thermal == (thermal_elapsed_secs >= rt.thermal_interval_secs),
        d.compute == (compute_elapsed_secs >= rt.compute_interval_secs),
        d.power == (power_elapsed_secs >= rt.power_interval_secs),
{
    DueStreams {
        memory: memory_elapsed_secs >= rt.memory_interval_secs,
        thermal: thermal_elapsed_secs >= rt.thermal_interval_secs,
        compute: compute_elapsed_secs >= rt.compute_interval_secs,
        power: power_elapsed_secs >= rt.power_interval_secs,
    }
}

/// Decide a history prune, `elapsed_secs` after the last one: none before six
/// hours have passed; otherwise the prune clock restarts at `now` and rows
/// older than the retention (at least one day) go.
pub fn prune_after(rt: &mut RuntimeConfig, elapsed_secs: u64, now: std::time::Instant) -> (r: Option<
    u32,
>)
    ensures
        r is Some <==> elapsed_secs >= PRUNE_EVERY_SECS,
        final(rt).retention_days == old(rt).retention_days,
        final(rt).memory_interval_secs == old(rt).memory_interval_secs,
        final(rt).thermal_interval_secs == old(rt).thermal_interval_secs,
        final(rt).compute_interval_secs == old(rt).compute_interval_secs,
        final(rt).power_interval_secs == old(rt).power_interval_secs,
        r is None ==> final(rt).last_prune == old(rt).last_prune,
        r is Some ==> final(rt).last_prune == now,
        r matches Some(d) ==> d == (if old(rt).retention_days >= 1 {
            old(rt).retention_days
        } else {
            1
        }),
{
    if elapsed_secs < PRUNE_EVERY_SECS {
        return None;
    }
    rt.last_prune = now;
    Some(
        if rt.retention_days >= 1 {
            rt.retention_days
        } else {
            1
        },
    )
}

} // verus!
