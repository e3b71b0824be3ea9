//! The collector's control-plane messages: requests, runtime configuration
//! changes and their bounds, and responses.
use vstd::prelude::*;
use crate::num::{decimal_spec, u64_chars};
use crate::text::string_from_chars;

verus! {

/// A request from the server to the collector.
#[derive(Debug, Clone)]
pub enum IpcRequest {
    /// Ask the collector to take a fresh sample of one stream and persist it
    /// (`memory`, `thermal`, `compute` or `power`).
    Sample { stream: String },
    /// Apply runtime configuration changes (intervals, retention).
    Config { changes: ConfigChanges },
}

/// A batch of runtime configuration changes; `None` leaves a setting as it is.
#[derive(Debug, Clone)]
pub struct ConfigChanges {
    pub retention_days: Option<u32>,
    pub memory_interval_secs: Option<u64>,
    pub thermal_interval_secs: Option<u64>,
    pub compute_interval_secs: Option<u64>,
    pub power_interval_secs: Option<u64>,
}

impl Default for ConfigChanges {
    fn default() -> (c: ConfigChanges)
        ensures
            c.retention_days is None,
            c.memory_interval_secs is None,
            c.thermal_interval_secs is None,
            c.compute_interval_secs is None,
            c.power_interval_secs is None,
    {
        ConfigChanges {
            retention_days: None,
            memory_interval_secs: None,
            thermal_interval_secs: None,
            compute_interval_secs: None,
            power_interval_secs: None,
        }
    }
}

/// Smallest accepted collection interval, in seconds.
pub const INTERVAL_MIN_SECS: u64 = 1;

/// Largest accepted collection interval, in seconds (one day).
pub const INTERVAL_MAX_SECS: u64 = 86_400;

/// Smallest accepted history retention, in days.
pub const RETENTION_MIN_DAYS: u32 = 1;

/// Largest accepted history retention, in days (about ten years).
pub const RETENTION_MAX_DAYS: u32 = 3_650;

pub open spec fn interval_in_bounds(v: u64) -> bool {
    INTERVAL_MIN_SECS <= v <= INTERVAL_MAX_SECS
}

pub open spec fn retention_in_bounds(v: u32) -> bool {
    RETENTION_MIN_DAYS <= v <= RETENTION_MAX_DAYS
}

/// The message that names an interval setting out of bounds.
pub open spec fn interval_error(name: Seq<char>) -> Seq<char> {
    name + " must be between "@ + decimal_spec(INTERVAL_MIN_SECS as nat) + " and "@
        + decimal_spec(INTERVAL_MAX_SECS as nat) + " seconds"@
}

/// The message that names a retention out of bounds.
pub open spec fn retention_error() -> Seq<char> {
    "retention_days must be between "@ + decimal_spec(RETENTION_MIN_DAYS as nat) + " and "@
        + decimal_spec(RETENTION_MAX_DAYS as nat)
}

pub open spec fn interval_field_error(name: Seq<char>, v: Option<u64>) -> Option<Seq<char>> {
    match v {
        Some(x) => if interval_in_bounds(x) {
            None
        } else {
            Some(interval_error(name))
        },
        None => None,
    }
}

/// The message that names a retention out of bounds.
pub fn retention_error_text() -> (m: String)
    ensures
        m@ == retention_error(),
{
    let mut m = String::from_str("retention_days must be between ");
    let lo = u64_chars(RETENTION_MIN_DAYS as u64);
    m.append(string_from_chars(lo.as_slice()).as_str());
    m.append(" and ");
    let hi = u64_chars(RETENTION_MAX_DAYS as u64);
    m.append(string_from_chars(hi.as_slice()).as_str());
    m
}

impl ConfigChanges {
    /// The error for the first setting out of bounds, checked in the order
    /// memory, thermal, compute, power interval, then retention.
    pub open spec fn first_error(self) -> Option<Seq<char>> {
        if let Some(e) = interval_field_error("memory_interval_secs"@, self.memory_interval_secs) {
            Some(e)
        } else if let Some(e) = interval_field_error(
            "thermal_interval_secs"@,
            self.thermal_interval_secs,
        ) {
            Some(e)
        } else if let Some(e) = interval_field_error(
            "compute_interval_secs"@,
            self.compute_interval_secs,
        ) {
            Some(e)
        } else if let Some(e) = interval_field_error(
            "power_interval_secs"@,
            self.power_interval_secs,
        ) {
            Some(e)
        } else {
            match self.retention_days {
                Some(d) => if retention_in_bounds(d) {
                    None
                } else {
                    Some(retention_error())
                },
                None => None,
            }
        }
    }

    /// Every provided setting is within bounds.
    pub open spec fn all_in_bounds(self) -> bool {
        &&& (self.memory_interval_secs matches Some(v) ==> interval_in_bounds(v))
        &&& (self.thermal_interval_secs matches Some(v) ==> interval_in_bounds(v))
        &&& (self.compute_interval_secs matches Some(v) ==> interval_in_bounds(v))
        &&& (self.power_interval_secs matches Some(v) ==> interval_in_bounds(v))
        &&& (self.retention_days matches Some(v) ==> retention_in_bounds(v))
    }

    /// Validate all provided fields. The whole batch must be valid: the error
    /// names the first setting that is out of bounds.
    pub fn validate(&self) -> (r: Result<(), String>)
        ensures
            r is Ok <==> self.all_in_bounds(),
            r is Ok <==> self.first_error() is None,
            r matches Err(m) ==> self.first_error() == Some(m@),
    {
        if let Some(v) = self.memory_interval_secs {
            Self::check_interval("memory_interval_secs", v)?;
        }
        if let Some(v) = self.thermal_interval_secs {
            Self::check_interval("thermal_interval_secs", v)?;
        }
        if let Some(v) = self.compute_interval_secs {
            Self::check_interval("compute_interval_secs", v)?;
        }
        if let Some(v) = self.power_interval_secs {
            Self::check_interval("power_interval_secs", v)?;
        }
        if let Some(v) = self.retention_days {
            if !(RETENTION_MIN_DAYS <= v && v <= RETENTION_MAX_DAYS) {
                return Err(retention_error_text());
            }
        }
        Ok(())
    }

    fn check_interval(name: &str, v: u64) -> (r: Result<(), String>)
        ensures
            r is Ok <==> interval_in_bounds(v),
            r matches Err(m) ==> m@ == interval_error(name@),
    {
        if !(INTERVAL_MIN_SECS <= v && v <= INTERVAL_MAX_SECS) {
            let mut m = String::from_str(name);
            m.append(" must be between ");
            let lo = u64_chars(INTERVAL_MIN_SECS);
            m.append(string_from_chars(lo.as_slice()).as_str());
            m.append(" and ");
            let hi = u64_chars(INTERVAL_MAX_SECS);
            m.append(string_from_chars(hi.as_slice()).as_str());
            m.append(" seconds");
            return Err(m);
        }
        Ok(())
    }
}

/// Collector → server response. `timestamp` is the unix-seconds timestamp of
/// the sample that was persisted; `skipped` reports a suppressed sample.
#[derive(Debug, Clone)]
pub struct IpcResponse {
    pub ok: bool,
    pub error: Option<String>,
    pub skipped: bool,
    pub timestamp: Option<i64>,
}

/// The response carries the error message `m`.
pub open spec fn error_is(r: IpcResponse, m: Seq<char>) -> bool {
    r.error matches Some(x) && x@ == m
}

impl IpcResponse {
    /// A sample was taken and persisted at `timestamp`.
    pub fn ok(timestamp: i64) -> (r: IpcResponse)
        ensures
            r.ok,
            r.error is None,
            !r.skipped,
            r.timestamp == Some(timestamp),
    {
        IpcResponse { ok: true, error: None, skipped: false, timestamp: Some(timestamp) }
    }

    /// The sample was suppressed; the data at `timestamp` stands.
    pub fn skipped(timestamp: i64) -> (r: IpcResponse)
        ensures
            r.ok,
            r.error is None,
            r.skipped,
            r.timestamp == Some(timestamp),
    {
        IpcResponse { ok: true, error: None, skipped: true, timestamp: Some(timestamp) }
    }

    /// A request without a sample (a configuration change) succeeded.
    pub fn ack() -> (r: IpcResponse)
        ensures
            r.ok,
            r.error is None,
            !r.skipped,
            r.timestamp is None,
    {
        IpcResponse { ok: true, error: None, skipped: false, timestamp: None }
    }

    /// The request failed with message `e`.
    pub fn err(e: String) -> (r: IpcResponse)
        ensures
            !r.ok,
            error_is(r, e@),
            !r.skipped,
            r.timestamp is None,
    {
        IpcResponse { ok: false, error: Some(e), skipped: false, timestamp: None }
    }
}

// ---------------------------------------------------------------------------
// The line protocol
// ---------------------------------------------------------------------------

/// Largest request line the collector reads, in bytes.
pub const MAX_REQUEST_BYTES: usize = 65_536;

/// Largest response line the server accepts, in bytes.
pub const MAX_RESPONSE_BYTES: usize = 4_096;

/// The collector's answer to a request line of `n` bytes that is too long to
/// read, if it is.
pub fn oversized_request_response(n: usize) -> (r: Option<IpcResponse>)
    ensures
        r is Some <==> n > MAX_REQUEST_BYTES,
        r matches Some(resp) ==> !resp.ok && !resp.skipped && resp.timestamp is None && error_is(
            resp,
            "request too large"@,
        ),
{
    if n > MAX_REQUEST_BYTES {
        Some(IpcResponse::err(String::from_str("request too large")))
    } else {
        None
    }
}

/// The collector's answer to a request line that does not parse, with the
/// parser's message.
pub fn invalid_request_response(parse_error: &str) -> (r: IpcResponse)
    ensures
        !r.ok,
        !r.skipped,
        r.timestamp is None,
        error_is(r, "invalid json request: "@ + parse_error@),
{
    let mut m = String::from_str("invalid json request: ");
    m.append(parse_error);
    IpcResponse::err(m)
}

/// Whether the server takes a response line of `n` bytes: not an empty read
/// (the collector hung up) and not longer than `MAX_RESPONSE_BYTES`.
pub fn response_line_check(n: usize) -> (r: Result<(), String>)
    ensures
        n == 0 ==> (r matches Err(e) && e@ == "collector closed the connection without responding"@),
        n > MAX_RESPONSE_BYTES ==> (r matches Err(e) && e@ == "collector response too large"@),
        0 < n <= MAX_RESPONSE_BYTES ==> r is Ok,
{
    if n == 0 {
        return Err(String::from_str("collector closed the connection without responding"));
    }
    if n > MAX_RESPONSE_BYTES {
        return Err(String::from_str("collector response too large"));
    }
    Ok(())
}

} // verus!
