//! The types every verb reports. Serialisation lives with the program that
//! prints them; these are the values the library computes.
use vstd::prelude::*;

verus! {

/// Version of the JSON contract emitted by every command.
pub const SCHEMA_VERSION: u32 = 1;

/// The kernel's memory-pressure verdict.
#[derive(Debug, Clone, Copy, PartialEq, Eq, Structural)]
pub enum PressureLevel {
    Normal,
    Warning,
    Critical,
    Unknown,
}

/// `NSProcessInfo`'s thermal state.
#[derive(Debug, Clone, Copy, PartialEq, Eq, Structural)]
pub enum ThermalState {
    Nominal,
    Fair,
    Serious,
    Critical,
    Unknown,
}

/// How bad a reason, or a verdict, is. Declared in increasing order.
#[derive(Debug, Clone, Copy, PartialEq, Eq, PartialOrd, Ord, Structural)]
pub enum Severity {
    Nominal,
    Warning,
    Critical,
}

/// Efficiency or performance core.
#[derive(Debug, Clone, Copy, PartialEq, Eq, Structural)]
pub enum CoreKind {
    E,
    P,
}

/// Static machine identity.
#[derive(Debug, Clone)]
pub struct Host {
    pub chip: String,
    pub model: String,
    pub ecpu_cores: u8,
    pub pcpu_cores: u8,
    pub gpu_cores: u8,
    /// Logical CPUs as the scheduler sees them; the denominator for load average.
    pub ncpu: usize,
}

/// One fan.
#[derive(Debug, Clone)]
pub struct Fan {
    pub name: String,
    pub rpm: u32,
    pub max_rpm: Option<u32>,
}

/// One rule that fired.
#[derive(Debug, Clone)]
pub struct Reason {
    pub code: String,
    pub severity: Severity,
    pub detail: String,
}

/// A process blamed for a reason.
#[derive(Debug, Clone)]
pub struct Suspect {
    pub pid: u32,
    pub name: String,
    pub app: Option<String>,
    pub why: String,
}

/// The `pressure` verb's answer.
#[derive(Debug, Clone)]
pub struct Verdict {
    pub schema_version: u32,
    pub sampled_at: String,
    pub state: Severity,
    /// False when no usable prior observation existed; swap-trend reasons
    /// are then not evaluated and everything else still is.
    pub history: bool,
    pub reasons: Vec<Reason>,
    pub suspects: Vec<Suspect>,
    pub summary: String,
}

/// The numeric order of severities.
pub open spec fn severity_rank(s: Severity) -> nat {
    match s {
        Severity::Nominal => 0,
        Severity::Warning => 1,
        Severity::Critical => 2,
    }
}

/// What `time` writes for the second `secs` after the epoch, UTC, in RFC
/// 3339; `None` when the second is outside the range it represents or
/// the year is one RFC 3339 cannot write.
pub uninterp spec fn rfc3339_utc(secs: i64) -> Option<Seq<char>>;

/// `OffsetDateTime::from_unix_timestamp`, then `format(&Rfc3339)`.
#[verifier::external_body]
fn format_rfc3339(secs: i64) -> (r: Option<String>)
    ensures
        r matches Some(s) ==> rfc3339_utc(secs) == Some(s@),
        r is None ==> rfc3339_utc(secs) is None,
{
    time::OffsetDateTime::from_unix_timestamp(secs).ok()?.format(&time::format_description::well_known::Rfc3339).ok()
}

/// The timestamp written when the current second cannot be formatted.
pub const EPOCH_TEXT: &'static str = "1970-01-01T00:00:00Z";

/// The timestamp written for `secs` seconds after the epoch (before it when
/// negative): its RFC 3339 text, or `EPOCH_TEXT` when `time` cannot
/// represent or format that second.
pub open spec fn timestamp_text(secs: i64) -> Seq<char> {
    match rfc3339_utc(secs) {
        Some(t) => t,
        None => EPOCH_TEXT@,
    }
}

/// The RFC 3339 text of `secs` seconds after the epoch, UTC, second
/// precision.
pub fn rfc3339_of(secs: i64) -> (s: String)
    ensures
        s@ == timestamp_text(secs),
{
    match format_rfc3339(secs) {
        Some(s) => s,
        None => crate::text::owned(EPOCH_TEXT),
    }
}

/// `OffsetDateTime::now_utc()`, as whole seconds since the epoch, negative
/// before it. What second the clock reads is not stated.
#[verifier::external_body]
fn utc_now_seconds() -> i64 {
    time::OffsetDateTime::now_utc().unix_timestamp()
}

/// Current time as an RFC 3339 UTC timestamp, second precision: the text
/// of whatever second the clock reads, before the epoch too.
pub fn now_rfc3339() -> (s: String)
    ensures
        exists|secs: i64| #[trigger] timestamp_text(secs) == s@,
{
    let secs = utc_now_seconds();
    let s = rfc3339_of(secs);
    assert(timestamp_text(secs) == s@);
    s
}

} // verus!
