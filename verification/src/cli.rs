//! The command line: its verbs and options, and what the verbs decide
//! between samplings — the sampling window, when a stream stops, the exit
//! status, and which processes may be blamed.
use crate::history::Observation;
use crate::pressure::{PressureInputs, Readings};
use crate::procs::{self, Dimension, ProcSample};
use crate::schema::{PressureLevel, Severity, ThermalState};
use vstd::prelude::*;

verus! {

/// Default sampling window. Short enough to feel instant to an agent, long
/// enough for stable IOReport deltas.
pub const DEFAULT_INTERVAL_MS: u32 = 200;

/// Floor on any requested sampling window: a zero-length window gives
/// meaningless deltas, so shorter requests are raised to this.
pub const MIN_INTERVAL_MS: u32 = 20;

/// The parsed command line.
#[derive(Debug)]
pub struct Cli {
    pub command: Option<Command>,
}

/// The verbs, each with its options.
#[derive(Debug)]
pub enum Command {
    /// One SoC sample: CPU, GPU, memory, power, temperature.
    Snapshot { interval: u32, json: bool, human: bool },
    /// Processes using the most CPU and the most memory, in one response.
    Top { n: usize, json: bool, human: bool },
    /// A semantic health verdict (state, reasons, likely suspects) in one sentence.
    Pressure { interval: u32, json: bool, human: bool, exit_code: bool },
    /// Stream snapshots as newline-delimited JSON until interrupted.
    Watch { interval_s: u64, count: u64 },
    /// Serve the JSON API and the dashboard on localhost.
    Serve { port: u16, no_open: bool },
    /// Start the server if needed and open the dashboard.
    Dashboard { port: u16 },
    /// Host the dashboard in a native window, for the tray with pid `parent`.
    Window { url: String, parent: u32 },
    /// Wait for the tray with pid `parent` to exit, then open the bundle at
    /// `app`; spawned by the updater.
    Relaunch { parent: u32, app: String },
}

/// Whether a caller may overwrite the stored trend baseline: a one-shot
/// invocation does, a face that polls continuously must not.
#[derive(Debug, Clone, Copy, PartialEq, Eq, Structural)]
pub enum Baseline {
    Store,
    ReadOnly,
}

/// The `--exit-code` status of a verdict.
pub open spec fn exit_status(state: Severity) -> int {
    match state {
        Severity::Nominal => 0,
        Severity::Warning => 3,
        Severity::Critical => 4,
    }
}

/// Exit 0 nominal, 3 warning, 4 critical.
pub fn exit_code_for(state: Severity) -> (c: i32)
    ensures
        c == exit_status(state),
{
    match state {
        Severity::Nominal => 0,
        Severity::Warning => 3,
        Severity::Critical => 4,
    }
}

/// The sampling window a one-shot verb uses for a requested interval: the
/// request, raised to `MIN_INTERVAL_MS`.
pub fn sample_window_ms(interval_ms: u32) -> (w: u32)
    ensures
        w == if interval_ms < MIN_INTERVAL_MS {
            MIN_INTERVAL_MS
        } else {
            interval_ms
        },
{
    if interval_ms < MIN_INTERVAL_MS {
        MIN_INTERVAL_MS
    } else {
        interval_ms
    }
}

/// The window, in ms, between `watch` lines: `interval_s` seconds, at least
/// one, capped at what a `u32` holds.
pub open spec fn watch_window(interval_s: u64) -> int {
    let s = if interval_s == 0 {
        1
    } else {
        interval_s as int
    };
    if s * 1000 > u32::MAX {
        u32::MAX as int
    } else {
        s * 1000
    }
}

/// `watch`'s sampling window for an interval in seconds; 0 is taken as one
/// second rather than rejected.
pub fn watch_window_ms(interval_s: u64) -> (w: u32)
    ensures
        w == watch_window(interval_s),
{
    let s: u64 = if interval_s == 0 {
        1
    } else {
        interval_s
    };
    if s > 4_294_967 {
        u32::MAX
    } else {
        (s * 1000) as u32
    }
}

/// Whether `watch` has emitted all it was asked for; a count of 0 means
/// run forever.
pub fn watch_done(emitted: u64, count: u64) -> (b: bool)
    ensures
        b == (count != 0 && emitted >= count),
{
    count != 0 && emitted >= count
}

/// The rows the verdict may blame: every row but the measuring process's
/// own, whose CPU figure is an artifact of the measurement.
pub open spec fn others(rows: Seq<ProcSample>, me: u32) -> Seq<ProcSample> {
    rows.filter(|r: ProcSample| r.pid != me)
}

/// The first row of a ranking, if any.
pub open spec fn first_of(s: Seq<ProcSample>) -> Option<ProcSample> {
    if s.len() > 0 {
        Some(s[0])
    } else {
        None
    }
}

/// `rows` without those of process `me`, in order.
fn without_pid(rows: &Vec<ProcSample>, me: u32) -> (out: Vec<ProcSample>)
    ensures
        out@ == others(rows@, me),
{
    let mut out: Vec<ProcSample> = Vec::new();
    let mut i: usize = 0;
    while i < rows.len()
        invariant
            i <= rows.len(),
            out@ == others(rows@.take(i as int), me),
        decreases rows.len() - i,
    {
        proof {
            assert(rows@.take(i + 1) =~= rows@.take(i as int).push(rows@[i as int]));
            rows@.take(i as int).lemma_filter_push(rows@[i as int], |r: ProcSample| r.pid != me);
        }
        if rows[i].pid != me {
            out.push(procs::copy_sample(&rows[i]));
        }
        i += 1;
    }
    assert(rows@.take(rows.len() as int) =~= rows@);
    out
}

/// The inputs of a pressure verdict, namely this run's observation, the stored
/// baseline, the machine's states and readings, and the busiest and
/// largest process other than the measuring one (`me`).
pub fn pressure_inputs(
    rows: Vec<ProcSample>,
    me: u32,
    now: Observation,
    prev: Option<Observation>,
    mem_pressure: PressureLevel,
    thermal: ThermalState,
    readings: Readings,
    sampled_at: String,
) -> (i: PressureInputs)
    ensures
        i.now == now,
        i.prev == prev,
        i.mem_pressure == mem_pressure,
        i.thermal == thermal,
        i.readings == readings,
        i.sampled_at == sampled_at,
        i.top_cpu == first_of(procs::top_n(Dimension::Cpu, others(rows@, me), 1)),
        i.top_mem == first_of(procs::top_n(Dimension::Mem, others(rows@, me), 1)),
{
    let kept = without_pid(&rows, me);
    let (by_cpu, by_mem) = procs::rank(kept, 1);
    let top_cpu = if by_cpu.len() > 0 {
        Some(procs::copy_sample(&by_cpu[0]))
    } else {
        None
    };
    let top_mem = if by_mem.len() > 0 {
        Some(procs::copy_sample(&by_mem[0]))
    } else {
        None
    };
    PressureInputs { now, prev, mem_pressure, thermal, readings, top_cpu, top_mem, sampled_at }
}

/// The measuring process is never blamed: no suspect of a verdict over
/// `pressure_inputs(rows, me, ..)` has the pid `me`.
pub proof fn lemma_never_blames_itself(rows: Seq<ProcSample>, me: u32, i: PressureInputs)
    requires
        i.top_cpu == first_of(procs::top_n(Dimension::Cpu, others(rows, me), 1)),
        i.top_mem == first_of(procs::top_n(Dimension::Mem, others(rows, me), 1)),
    ensures
        forall|k: int|
            0 <= k < crate::pressure::suspects_of(i).len() ==> (#[trigger] crate::pressure::suspects_of(
                i,
            )[k]).pid != me,
{
    broadcast use vstd::seq_lib::to_multiset_contains;

    let kept = others(rows, me);
    if i.top_cpu is Some {
        lemma_ranked_first_kept(Dimension::Cpu, kept, rows, me);
    }
    if i.top_mem is Some {
        lemma_ranked_first_kept(Dimension::Mem, kept, rows, me);
    }
}

/// The first row of a ranking of `others(rows, me)` is not `me`'s.
proof fn lemma_ranked_first_kept(d: Dimension, kept: Seq<ProcSample>, rows: Seq<ProcSample>, me: u32)
    requires
        kept == others(rows, me),
        procs::ranked(d, kept).len() > 0,
    ensures
        procs::ranked(d, kept)[0].pid != me,
{
    broadcast use vstd::seq_lib::to_multiset_contains;

    let r = procs::ranked(d, kept);
    procs::lemma_ranked_permutes(d, kept);
    assert(r.contains(r[0]));
    assert(r.to_multiset().count(r[0]) > 0);
    assert(kept.contains(r[0]));
    let k = choose|k: int| 0 <= k < kept.len() && kept[k] == r[0];
    rows.lemma_filter_pred(|x: ProcSample| x.pid != me, k);
}

/// Whether this run's observation becomes the next baseline.
pub fn stores_baseline(baseline: Baseline) -> (b: bool)
    ensures
        b == (baseline == Baseline::Store),
{
    match baseline {
        Baseline::Store => true,
        Baseline::ReadOnly => false,
    }
}

} // verus!
