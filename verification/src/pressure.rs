//! The verdict verb: a closed table of rules over one observation, an
//! optional baseline and the machine's reported states.
use crate::history::Observation;
use crate::procs::ProcSample;
use crate::schema::{PressureLevel, Reason, Severity, Suspect, ThermalState, Verdict, SCHEMA_VERSION};
use crate::text;
use vstd::prelude::*;

verus! {

/// `"a"`, `"a and b"`, `"a, b and c"`.
pub open spec fn joined_with_and(parts: Seq<Seq<char>>) -> Seq<char>
    decreases parts.len(),
{
    if parts.len() == 0 {
        Seq::empty()
    } else if parts.len() == 1 {
        parts[0]
    } else {
        comma_joined(parts.drop_last()) + " and "@ + parts.last()
    }
}

/// `parts` joined by `", "`.
pub open spec fn comma_joined(parts: Seq<Seq<char>>) -> Seq<char>
    decreases parts.len(),
{
    if parts.len() == 0 {
        Seq::empty()
    } else if parts.len() == 1 {
        parts[0]
    } else {
        comma_joined(parts.drop_last()) + ", "@ + parts.last()
    }
}

/// "a", "a and b", "a, b and c".
pub fn join_with_and(parts: &[String]) -> (s: String)
    ensures
        s@ == joined_with_and(parts@.map_values(|p: String| p@)),
{
    let ghost ps = parts@.map_values(|p: String| p@);
    let n = parts.len();
    if n == 0 {
        return String::new();
    }
    if n == 1 {
        return parts[0].clone();
    }
    let mut s = parts[0].clone();
    let mut i: usize = 1;
    while i < n - 1
        invariant
            n == parts.len(),
            n >= 2,
            1 <= i <= n - 1,
            ps == parts@.map_values(|p: String| p@),
            s@ == comma_joined(ps.take(i as int)),
        decreases n - 1 - i,
    {
        assert(ps.take(i + 1).drop_last() =~= ps.take(i as int));
        text::push_str(&mut s, ", ");
        text::push_str(&mut s, parts[i].as_str());
        i = i + 1;
    }
    assert(ps.drop_last() =~= ps.take(n - 1));
    text::push_str(&mut s, " and ");
    text::push_str(&mut s, parts[n - 1].as_str());
    s
}


/// Swap growth, in MB between observations, that is worth a warning.
pub const SWAP_GROWTH_MB: u64 = 256;
/// Swap growth that is critical.
pub const SWAP_GROWTH_FAST_MB: u64 = 1024;

/// Where the 1-minute load average stands against the core count: below
/// 2x, at least 2x, at least 4x.
#[derive(Debug, Clone, Copy, PartialEq, Eq, Structural)]
pub enum LoadTier {
    Normal,
    Saturated,
    SaturatedHard,
}

/// The facts about the sample that come from floating-point readings: the
/// caller computes them, the rules below only read them.
#[derive(Debug, Clone)]
pub struct Readings {
    /// The 1-minute load over the core count (0 when the core count is 0),
    /// against the 2x and 4x thresholds.
    pub load_tier: LoadTier,
    /// That ratio with one decimal, e.g. `3.8`.
    pub load_text: String,
    /// Used memory is at least 90% of physical memory.
    pub mem_full: bool,
    /// The used fraction as a whole percentage, e.g. `92`.
    pub mem_pct_text: String,
    /// The busiest process's CPU percent as a whole number, e.g. `102`.
    pub top_cpu_text: String,
}

/// Everything the verdict is computed from.
pub struct PressureInputs {
    pub now: Observation,
    /// `None` when no usable baseline exists; swap rules are then skipped.
    pub prev: Option<Observation>,
    pub mem_pressure: PressureLevel,
    pub thermal: ThermalState,
    pub readings: Readings,
    pub top_cpu: Option<ProcSample>,
    pub top_mem: Option<ProcSample>,
    pub sampled_at: String,
}

/// A reason with its texts as character sequences.
pub struct ReasonText {
    pub code: Seq<char>,
    pub severity: Severity,
    pub detail: Seq<char>,
}

/// A suspect with its texts as character sequences.
pub struct SuspectText {
    pub pid: u32,
    pub name: Seq<char>,
    pub app: Option<Seq<char>>,
    pub why: Seq<char>,
}

/// A reason with its texts as characters.
pub open spec fn reason_text(r: Reason) -> ReasonText {
    ReasonText { code: r.code@, severity: r.severity, detail: r.detail@ }
}

/// A suspect with its texts as characters.
pub open spec fn suspect_text(s: Suspect) -> SuspectText {
    SuspectText {
        pid: s.pid,
        name: s.name@,
        app: match s.app {
            Some(a) => Some(a@),
            None => None,
        },
        why: s.why@,
    }
}

/// The one reason `(code, severity, detail)`.
pub open spec fn rt(code: Seq<char>, severity: Severity, detail: Seq<char>) -> Seq<ReasonText> {
    seq![ReasonText { code, severity, detail }]
}

/// The kernel's pressure level, mapped straight through.
pub open spec fn pressure_rule(i: PressureInputs) -> Seq<ReasonText> {
    match i.mem_pressure {
        PressureLevel::Warning => rt("mem_pressure_warning"@, Severity::Warning, "kernel memory pressure level: warning"@),
        PressureLevel::Critical => rt("mem_pressure_critical"@, Severity::Critical, "kernel memory pressure level: critical"@),
        _ => Seq::empty(),
    }
}

/// `a - b`, or 0 when `b` is larger.
pub open spec fn saturating_sub(a: u64, b: u64) -> nat {
    if a >= b { (a - b) as nat } else { 0 }
}

/// Swap growth against the baseline, when there is one.
pub open spec fn swap_rule(i: PressureInputs) -> Seq<ReasonText> {
    match i.prev {
        None => Seq::empty(),
        Some(p) => {
            let grew = saturating_sub(i.now.swap_used_mb, p.swap_used_mb);
            let elapsed = saturating_sub(i.now.unix_s, p.unix_s);
            let detail = "swap grew "@ + text::decimal(grew) + " MB in the last "@ + text::decimal(elapsed) + "s"@;
            if grew >= SWAP_GROWTH_FAST_MB {
                rt("swap_growth_fast"@, Severity::Critical, detail)
            } else if grew >= SWAP_GROWTH_MB {
                rt("swap_growth"@, Severity::Warning, detail)
            } else {
                Seq::empty()
            }
        },
    }
}

/// Physical memory at least 90% used.
pub open spec fn mem_full_rule(i: PressureInputs) -> Seq<ReasonText> {
    if i.now.mem_total_mb > 0 && i.readings.mem_full {
        rt("mem_full"@, Severity::Warning, i.readings.mem_pct_text@ + "% of physical memory is in use"@)
    } else {
        Seq::empty()
    }
}

/// Serious and critical thermal states; fair is not worth reporting.
pub open spec fn thermal_rule(i: PressureInputs) -> Seq<ReasonText> {
    match i.thermal {
        ThermalState::Serious => rt("thermal_serious"@, Severity::Warning, "thermal state: serious"@),
        ThermalState::Critical => rt("thermal_critical"@, Severity::Critical, "thermal state: critical"@),
        _ => Seq::empty(),
    }
}

/// Load saturation, two tiers.
pub open spec fn load_rule(i: PressureInputs) -> Seq<ReasonText> {
    let detail = "1-minute load is "@ + i.readings.load_text@ + "x the core count"@;
    match i.readings.load_tier {
        LoadTier::SaturatedHard => rt("cpu_saturated_hard"@, Severity::Critical, detail),
        LoadTier::Saturated => rt("cpu_saturated"@, Severity::Warning, detail),
        LoadTier::Normal => Seq::empty(),
    }
}

/// Every reason that fires, in rule order.
pub open spec fn reasons_of(i: PressureInputs) -> Seq<ReasonText> {
    pressure_rule(i) + swap_rule(i) + mem_full_rule(i) + thermal_rule(i) + load_rule(i)
}

/// A memory or swap rule fired.
pub open spec fn mem_fired(i: PressureInputs) -> bool {
    pressure_rule(i).len() > 0 || swap_rule(i).len() > 0 || mem_full_rule(i).len() > 0
}

/// A CPU-load or thermal rule fired.
pub open spec fn cpu_fired(i: PressureInputs) -> bool {
    thermal_rule(i).len() > 0 || load_rule(i).len() > 0
}

/// The worst severity among `rs`, `Nominal` when there are none.
pub open spec fn worst(rs: Seq<ReasonText>) -> Severity
    decreases rs.len(),
{
    if rs.len() == 0 {
        Severity::Nominal
    } else {
        let w = worst(rs.drop_last());
        if crate::schema::severity_rank(rs.last().severity) > crate::schema::severity_rank(w) {
            rs.last().severity
        } else {
            w
        }
    }
}

/// Who is blamed: the largest process for a memory reason, then the
/// busiest one for a CPU reason unless it is the same process.
pub open spec fn suspects_of(i: PressureInputs) -> Seq<SuspectText> {
    let mem = match i.top_mem {
        Some(p) if mem_fired(i) => seq![
            SuspectText {
                pid: p.pid,
                name: p.name@,
                app: text::opt_text(p.app),
                why: "largest resident set ("@ + text::decimal(p.mem_mb as nat) + " MB)"@,
            },
        ],
        _ => Seq::<SuspectText>::empty(),
    };
    match i.top_cpu {
        Some(p) if cpu_fired(i) && !(mem.len() > 0 && mem[0].pid == p.pid) => mem.push(
            SuspectText {
                pid: p.pid,
                name: p.name@,
                app: text::opt_text(p.app),
                why: "highest CPU ("@ + i.readings.top_cpu_text@ + "%)"@,
            },
        ),
        _ => mem,
    }
}

/// What a suspect is called in the summary: its app, else its name.
pub open spec fn called(s: SuspectText) -> Seq<char> {
    match s.app {
        Some(a) => a,
        None => s.name,
    }
}

/// `char::to_ascii_uppercase`.
pub open spec fn ascii_upper(c: char) -> char {
    if 'a' <= c <= 'z' {
        ((c as u32) - 32) as char
    } else {
        c
    }
}

/// `s` with its first character ASCII-upper-cased.
pub open spec fn capitalized(s: Seq<char>) -> Seq<char> {
    if s.len() > 0 {
        s.update(0, ascii_upper(s[0]))
    } else {
        s
    }
}

/// The summary's clauses, in order.
pub open spec fn clauses_of(i: PressureInputs) -> Seq<Seq<char>> {
    let a = if mem_fired(i) { seq!["memory is under pressure"@] } else { Seq::empty() };
    let b = if swap_rule(i).len() > 0 { seq!["the system is swapping"@] } else { Seq::empty() };
    let c = if load_rule(i).len() > 0 {
        seq!["CPU load is "@ + i.readings.load_text@ + "x the core count"@]
    } else {
        Seq::empty()
    };
    let d = if thermal_rule(i).len() > 0 { seq!["the SoC is thermally throttled"@] } else { Seq::empty() };
    a + b + c + d
}

/// The one-sentence summary.
pub open spec fn summary_of(i: PressureInputs) -> Seq<char> {
    if reasons_of(i).len() == 0 {
        "System is healthy."@
    } else {
        let s = capitalized(joined_with_and(clauses_of(i))).push('.');
        let sus = suspects_of(i);
        if sus.len() == 0 {
            s
        } else if cpu_fired(i) && mem_fired(i) && sus.len() > 1 {
            s + " "@ + called(sus[0]) + " is the likely cause, and "@ + called(sus[1])
                + " is the busiest process."@
        } else {
            s + " "@ + called(sus[0]) + " is the likely cause."@
        }
    }
}

/// A reason from its code, severity and detail.
fn reason(code: &str, severity: Severity, detail: String) -> (r: Reason)
    ensures
        reason_text(r) == (ReasonText { code: code@, severity, detail: detail@ }),
{
    Reason { code: text::owned(code), severity, detail }
}

/// The reason, if there is one, as a sequence of at most one.
pub open spec fn opt_seq(r: Option<Reason>) -> Seq<ReasonText> {
    match r {
        Some(x) => seq![reason_text(x)],
        None => Seq::empty(),
    }
}

/// The reasons' texts, in order.
pub open spec fn texts(v: Seq<Reason>) -> Seq<ReasonText> {
    v.map_values(|r: Reason| reason_text(r))
}

/// Appends the reason, if there is one.
fn push_opt(v: &mut Vec<Reason>, r: Option<Reason>)
    ensures
        texts(final(v)@) == texts(old(v)@) + opt_seq(r),
{
    match r {
        Some(x) => {
            v.push(x);
            assert(texts(final(v)@) =~= texts(old(v)@) + opt_seq(r));
        },
        None => {
            assert(texts(final(v)@) =~= texts(old(v)@) + opt_seq(r));
        },
    }
}

/// The kernel pressure rule.
fn pressure_reason(i: &PressureInputs) -> (r: Option<Reason>)
    ensures
        opt_seq(r) == pressure_rule(*i),
{
    match i.mem_pressure {
        PressureLevel::Warning => Some(
            reason("mem_pressure_warning", Severity::Warning, text::owned("kernel memory pressure level: warning")),
        ),
        PressureLevel::Critical => Some(
            reason("mem_pressure_critical", Severity::Critical, text::owned("kernel memory pressure level: critical")),
        ),
        _ => None,
    }
}

/// The swap growth rule.
fn swap_reason(i: &PressureInputs) -> (r: Option<Reason>)
    ensures
        opt_seq(r) == swap_rule(*i),
{
    match i.prev {
        None => None,
        Some(p) => {
            let grew = i.now.swap_used_mb.saturating_sub(p.swap_used_mb);
            let elapsed = i.now.unix_s.saturating_sub(p.unix_s);
            if grew < SWAP_GROWTH_MB {
                return None;
            }
            let mut detail = text::owned("swap grew ");
            text::push_decimal(&mut detail, grew);
            text::push_str(&mut detail, " MB in the last ");
            text::push_decimal(&mut detail, elapsed);
            text::push_str(&mut detail, "s");
            if grew >= SWAP_GROWTH_FAST_MB {
                Some(reason("swap_growth_fast", Severity::Critical, detail))
            } else {
                Some(reason("swap_growth", Severity::Warning, detail))
            }
        },
    }
}

/// The full-memory rule.
fn mem_full_reason(i: &PressureInputs) -> (r: Option<Reason>)
    ensures
        opt_seq(r) == mem_full_rule(*i),
{
    if i.now.mem_total_mb > 0 && i.readings.mem_full {
        let mut detail = i.readings.mem_pct_text.clone();
        text::push_str(&mut detail, "% of physical memory is in use");
        Some(reason("mem_full", Severity::Warning, detail))
    } else {
        None
    }
}

/// The thermal rule.
fn thermal_reason(i: &PressureInputs) -> (r: Option<Reason>)
    ensures
        opt_seq(r) == thermal_rule(*i),
{
    match i.thermal {
        ThermalState::Serious => Some(reason("thermal_serious", Severity::Warning, text::owned("thermal state: serious"))),
        ThermalState::Critical => Some(reason("thermal_critical", Severity::Critical, text::owned("thermal state: critical"))),
        _ => None,
    }
}

/// The load saturation rule.
fn load_reason(i: &PressureInputs) -> (r: Option<Reason>)
    ensures
        opt_seq(r) == load_rule(*i),
{
    let mut detail = text::owned("1-minute load is ");
    text::push_str(&mut detail, i.readings.load_text.as_str());
    text::push_str(&mut detail, "x the core count");
    match i.readings.load_tier {
        LoadTier::SaturatedHard => Some(reason("cpu_saturated_hard", Severity::Critical, detail)),
        LoadTier::Saturated => Some(reason("cpu_saturated", Severity::Warning, detail)),
        LoadTier::Normal => None,
    }
}

/// A severity's place in the order.
fn rank_of(s: Severity) -> (r: u8)
    ensures
        r == crate::schema::severity_rank(s),
{
    match s {
        Severity::Nominal => 0,
        Severity::Warning => 1,
        Severity::Critical => 2,
    }
}

/// The worst severity among the reasons.
fn worst_of(reasons: &Vec<Reason>) -> (w: Severity)
    ensures
        w == worst(texts(reasons@)),
{
    let ghost ts = texts(reasons@);
    let mut w = Severity::Nominal;
    let mut k: usize = 0;
    while k < reasons.len()
        invariant
            ts == texts(reasons@),
            k <= reasons.len(),
            w == worst(ts.take(k as int)),
        decreases reasons.len() - k,
    {
        assert(ts.take(k + 1).drop_last() =~= ts.take(k as int));
        assert(ts.take(k + 1).last() == reason_text(reasons@[k as int]));
        if rank_of(reasons[k].severity) > rank_of(w) {
            w = reasons[k].severity;
        }
        k = k + 1;
    }
    assert(ts.take(reasons.len() as int) =~= ts);
    w
}

/// A copy of an optional string.
fn clone_opt_string(o: &Option<String>) -> (r: Option<String>)
    ensures
        text::opt_text(r) == text::opt_text(*o),
{
    match o {
        Some(s) => Some(s.clone()),
        None => None,
    }
}

/// The suspects, given which groups of rules fired.
fn suspects_for(i: &PressureInputs, mem_hit: bool, cpu_hit: bool) -> (v: Vec<Suspect>)
    requires
        mem_hit == mem_fired(*i),
        cpu_hit == cpu_fired(*i),
    ensures
        v@.map_values(|s: Suspect| suspect_text(s)) == suspects_of(*i),
{
    let mut v: Vec<Suspect> = Vec::new();
    if mem_hit {
        if let Some(p) = &i.top_mem {
            let mut why = text::owned("largest resident set (");
            text::push_decimal(&mut why, p.mem_mb);
            text::push_str(&mut why, " MB)");
            v.push(Suspect { pid: p.pid, name: p.name.clone(), app: clone_opt_string(&p.app), why });
        }
    }
    let ghost mem = v@.map_values(|s: Suspect| suspect_text(s));
    assert(mem == (match i.top_mem {
        Some(p) if mem_fired(*i) => seq![
            SuspectText {
                pid: p.pid,
                name: p.name@,
                app: text::opt_text(p.app),
                why: "largest resident set ("@ + text::decimal(p.mem_mb as nat) + " MB)"@,
            },
        ],
        _ => Seq::<SuspectText>::empty(),
    }));
    if cpu_hit {
        if let Some(p) = &i.top_cpu {
            let dup = v.len() > 0 && v[0].pid == p.pid;
            if !dup {
                let mut why = text::owned("highest CPU (");
                text::push_str(&mut why, i.readings.top_cpu_text.as_str());
                text::push_str(&mut why, "%)");
                v.push(Suspect { pid: p.pid, name: p.name.clone(), app: clone_opt_string(&p.app), why });
                assert(v@.map_values(|s: Suspect| suspect_text(s)) =~= mem.push(suspect_text(v@.last())));
            }
        }
    }
    v
}

/// What a suspect is called in the summary.
fn called_exec(s: &Suspect) -> (c: String)
    ensures
        c@ == called(suspect_text(*s)),
{
    match &s.app {
        Some(a) => a.clone(),
        None => s.name.clone(),
    }
}

/// Upper-cases the first character, if it is an ASCII letter.
fn capitalize(s: &mut String)
    ensures
        final(s)@ == capitalized(old(s)@),
{
    let cs = text::chars_of(s.as_str());
    if cs.len() == 0 {
        return;
    }
    let mut out: Vec<char> = Vec::new();
    let c = cs[0];
    let u = if 'a' <= c && c <= 'z' {
        let b = (c as u32 - 32) as u8;
        b as char
    } else {
        c
    };
    out.push(u);
    let mut k: usize = 1;
    while k < cs.len()
        invariant
            1 <= k <= cs.len(),
            out@ == cs@.take(k as int).update(0, ascii_upper(cs@[0])),
        decreases cs.len() - k,
    {
        out.push(cs[k]);
        k = k + 1;
        assert(out@ =~= cs@.take(k as int).update(0, ascii_upper(cs@[0])));
    }
    assert(cs@.take(cs.len() as int) =~= cs@);
    *s = text::string_of(&out);
}

/// The one-sentence summary.
fn summarize(i: &PressureInputs, reasons: &Vec<Reason>, suspects: &Vec<Suspect>, mem_hit: bool, cpu_hit: bool, swap_hit: bool, load_hit: bool, thermal_hit: bool) -> (s: String)
    requires
        texts(reasons@) == reasons_of(*i),
        suspects@.map_values(|s: Suspect| suspect_text(s)) == suspects_of(*i),
        mem_hit == mem_fired(*i),
        cpu_hit == cpu_fired(*i),
        swap_hit == (swap_rule(*i).len() > 0),
        load_hit == (load_rule(*i).len() > 0),
        thermal_hit == (thermal_rule(*i).len() > 0),
    ensures
        s@ == summary_of(*i),
{
    if reasons.len() == 0 {
        return text::owned("System is healthy.");
    }
    let mut clauses: Vec<String> = Vec::new();
    if mem_hit {
        clauses.push(text::owned("memory is under pressure"));
    }
    if swap_hit {
        clauses.push(text::owned("the system is swapping"));
    }
    if load_hit {
        let mut c = text::owned("CPU load is ");
        text::push_str(&mut c, i.readings.load_text.as_str());
        text::push_str(&mut c, "x the core count");
        clauses.push(c);
    }
    if thermal_hit {
        clauses.push(text::owned("the SoC is thermally throttled"));
    }
    assert(clauses@.map_values(|p: String| p@) =~= clauses_of(*i));
    let mut s = join_with_and(clauses.as_slice());
    capitalize(&mut s);
    text::push_char(&mut s, '.');
    let ghost sus = suspects_of(*i);
    if suspects.len() == 0 {
        return s;
    }
    assert(suspect_text(suspects@[0]) == sus[0]);
    let cause = called_exec(&suspects[0]);
    if cpu_hit && mem_hit && suspects.len() > 1 {
        assert(suspect_text(suspects@[1]) == sus[1]);
        let busiest = called_exec(&suspects[1]);
        text::push_str(&mut s, " ");
        text::push_str(&mut s, cause.as_str());
        text::push_str(&mut s, " is the likely cause, and ");
        text::push_str(&mut s, busiest.as_str());
        text::push_str(&mut s, " is the busiest process.");
    } else {
        text::push_str(&mut s, " ");
        text::push_str(&mut s, cause.as_str());
        text::push_str(&mut s, " is the likely cause.");
    }
    s
}

/// A verdict with its texts as character sequences.
pub open spec fn verdict_matches(v: Verdict, i: PressureInputs) -> bool {
    &&& v.schema_version == SCHEMA_VERSION
    &&& v.sampled_at@ == i.sampled_at@
    &&& v.state == worst(reasons_of(i))
    &&& v.history == (i.prev is Some)
    &&& texts(v.reasons@) == reasons_of(i)
    &&& v.suspects@.map_values(|s: Suspect| suspect_text(s)) == suspects_of(i)
    &&& v.summary@ == summary_of(i)
}

/// The state is the worst severity of the reasons: no reason is worse, and
/// unless there are none, some reason has it.
pub proof fn lemma_state_is_worst_reason(rs: Seq<ReasonText>)
    ensures
        forall|k: int|
            0 <= k < rs.len() ==> crate::schema::severity_rank(#[trigger] rs[k].severity)
                <= crate::schema::severity_rank(worst(rs)),
        rs.len() == 0 ==> worst(rs) == Severity::Nominal,
        rs.len() > 0 ==> exists|k: int| 0 <= k < rs.len() && #[trigger] rs[k].severity == worst(rs),
    decreases rs.len(),
{
    if rs.len() > 0 {
        let init = rs.drop_last();
        lemma_state_is_worst_reason(init);
        assert forall|k: int| 0 <= k < rs.len() implies crate::schema::severity_rank(
            #[trigger] rs[k].severity,
        ) <= crate::schema::severity_rank(worst(rs)) by {
            if k < rs.len() - 1 {
                assert(rs[k] == init[k]);
            }
        }
        if crate::schema::severity_rank(rs.last().severity) <= crate::schema::severity_rank(
            worst(init),
        ) && init.len() > 0 {
            let k = choose|k: int| 0 <= k < init.len() && #[trigger] init[k].severity == worst(init);
            assert(rs[k] == init[k]);
        } else {
            assert(rs[rs.len() - 1] == rs.last());
        }
    }
}

/// The thermal state's own reason: a serious state adds a Warning reason
/// `thermal_serious`, a critical one a Critical reason `thermal_critical`
/// and makes the verdict Critical; no other thermal state adds a reason.
pub proof fn lemma_thermal_reason(i: PressureInputs, v: Verdict)
    requires
        verdict_matches(v, i),
    ensures
        i.thermal == ThermalState::Serious ==> texts(v.reasons@).contains(
            ReasonText {
                code: "thermal_serious"@,
                severity: Severity::Warning,
                detail: "thermal state: serious"@,
            },
        ),
        i.thermal == ThermalState::Serious ==> crate::schema::severity_rank(v.state) >= 1,
        i.thermal == ThermalState::Critical ==> texts(v.reasons@).contains(
            ReasonText {
                code: "thermal_critical"@,
                severity: Severity::Critical,
                detail: "thermal state: critical"@,
            },
        ),
        i.thermal == ThermalState::Critical ==> v.state == Severity::Critical,
{
    let rs = reasons_of(i);
    let k = pressure_rule(i).len() + swap_rule(i).len() + mem_full_rule(i).len();
    lemma_state_is_worst_reason(rs);
    if i.thermal == ThermalState::Serious || i.thermal == ThermalState::Critical {
        assert(rs[k as int] == thermal_rule(i)[0]);
        assert(crate::schema::severity_rank(rs[k as int].severity) <= crate::schema::severity_rank(worst(rs)));
    }
}

/// With every other rule quiet — the kernel's pressure level neither
/// warning nor critical, swap grown by less than `SWAP_GROWTH_MB` since
/// the baseline, memory not full, load not saturated — the thermal state
/// alone decides: serious gives exactly the Warning reason
/// `thermal_serious` and a Warning verdict, critical exactly the Critical
/// reason `thermal_critical` and a Critical verdict, and any other state
/// no reason and a Nominal verdict.
pub proof fn lemma_thermal_alone(i: PressureInputs, v: Verdict)
    requires
        verdict_matches(v, i),
        i.mem_pressure != PressureLevel::Warning,
        i.mem_pressure != PressureLevel::Critical,
        i.prev matches Some(p) ==> i.now.swap_used_mb < p.swap_used_mb + SWAP_GROWTH_MB,
        !(i.now.mem_total_mb > 0 && i.readings.mem_full),
        i.readings.load_tier == LoadTier::Normal,
    ensures
        i.thermal == ThermalState::Serious ==> texts(v.reasons@) == seq![
            ReasonText {
                code: "thermal_serious"@,
                severity: Severity::Warning,
                detail: "thermal state: serious"@,
            },
        ] && v.state == Severity::Warning,
        i.thermal == ThermalState::Critical ==> texts(v.reasons@) == seq![
            ReasonText {
                code: "thermal_critical"@,
                severity: Severity::Critical,
                detail: "thermal state: critical"@,
            },
        ] && v.state == Severity::Critical,
        i.thermal != ThermalState::Serious && i.thermal != ThermalState::Critical ==> v.reasons.len() == 0
            && v.state == Severity::Nominal,
{
    let rs = reasons_of(i);
    assert(pressure_rule(i) =~= Seq::<ReasonText>::empty());
    assert(swap_rule(i) =~= Seq::<ReasonText>::empty());
    assert(mem_full_rule(i) =~= Seq::<ReasonText>::empty());
    assert(load_rule(i) =~= Seq::<ReasonText>::empty());
    assert(rs =~= thermal_rule(i));
    assert(worst(Seq::<ReasonText>::empty()) == Severity::Nominal);
    assert(thermal_rule(i).len() <= 1);
    if thermal_rule(i).len() == 1 {
        assert(thermal_rule(i).drop_last() =~= Seq::<ReasonText>::empty());
    }
    assert(texts(v.reasons@).len() == v.reasons@.len());
}

/// A machine is nominal exactly when no rule fires; then nobody is blamed
/// and the summary says the system is healthy.
pub proof fn lemma_nominal_exactly_when_quiet(i: PressureInputs)
    ensures
        (worst(reasons_of(i)) == Severity::Nominal) <==> reasons_of(i).len() == 0,
        reasons_of(i).len() == 0 ==> suspects_of(i).len() == 0,
        reasons_of(i).len() == 0 ==> summary_of(i) == "System is healthy."@,
{
    let rs = reasons_of(i);
    lemma_state_is_worst_reason(rs);
    if rs.len() > 0 {
        assert(rs[0].severity != Severity::Nominal);
        assert(crate::schema::severity_rank(rs[0].severity) >= 1);
    }
}

/// At most two processes are blamed, never the same one twice, and only
/// when some rule fired.
pub proof fn lemma_suspects_are_few_and_distinct(i: PressureInputs)
    ensures
        suspects_of(i).len() <= 2,
        suspects_of(i).len() == 2 ==> suspects_of(i)[0].pid != suspects_of(i)[1].pid,
        suspects_of(i).len() > 0 ==> reasons_of(i).len() > 0,
{
}

/// Without a baseline the swap rules are skipped; the others still run.
pub proof fn lemma_no_history_no_swap(i: PressureInputs)
    requires
        i.prev is None,
    ensures
        swap_rule(i).len() == 0,
        reasons_of(i) == pressure_rule(i) + mem_full_rule(i) + thermal_rule(i) + load_rule(i),
{
    assert(reasons_of(i) =~= pressure_rule(i) + mem_full_rule(i) + thermal_rule(i) + load_rule(i));
}

/// Evaluates the readings: each rule that holds gives a reason, the state is
/// the worst severity among them, the suspects name the processes to blame,
/// and the summary sums it up in one sentence.
pub fn evaluate(i: PressureInputs) -> (v: Verdict)
    ensures
        verdict_matches(v, i),
{
    let mut reasons: Vec<Reason> = Vec::new();
    push_opt(&mut reasons, pressure_reason(&i));
    let swap = swap_reason(&i);
    let swap_hit = swap.is_some();
    push_opt(&mut reasons, swap);
    let full = mem_full_reason(&i);
    let full_hit = full.is_some();
    push_opt(&mut reasons, full);
    let thermal = thermal_reason(&i);
    let thermal_hit = thermal.is_some();
    push_opt(&mut reasons, thermal);
    let load = load_reason(&i);
    let load_hit = load.is_some();
    push_opt(&mut reasons, load);
    assert(texts(reasons@) =~= reasons_of(i));

    let pressure_hit = match i.mem_pressure {
        PressureLevel::Warning | PressureLevel::Critical => true,
        _ => false,
    };
    let mem_hit = pressure_hit || swap_hit || full_hit;
    let cpu_hit = thermal_hit || load_hit;
    let state = worst_of(&reasons);
    let suspects = suspects_for(&i, mem_hit, cpu_hit);
    let summary = summarize(&i, &reasons, &suspects, mem_hit, cpu_hit, swap_hit, load_hit, thermal_hit);
    Verdict {
        schema_version: SCHEMA_VERSION,
        sampled_at: i.sampled_at,
        state,
        history: i.prev.is_some(),
        reasons,
        suspects,
        summary,
    }
}

} // verus!
