use vitals::history::Observation;
use vitals::pressure::{evaluate, LoadTier, PressureInputs, Readings};
use vitals::procs::ProcSample;
use vitals::schema::{PressureLevel, Severity, ThermalState, Verdict};

fn obs(unix_s: u64, mem_used: u64, swap: u64) -> Observation {
    Observation { schema_version: 1, unix_s, mem_used_mb: mem_used, mem_total_mb: 36864, swap_used_mb: swap }
}

/// The floating-point facts, computed as the caller does.
fn readings(now: &Observation, load1: f64, ncpu: usize, top_cpu: &Option<ProcSample>) -> Readings {
    let load_ratio = if ncpu > 0 { load1 / ncpu as f64 } else { 0.0 };
    let load_tier = if load_ratio >= 4.0 {
        LoadTier::SaturatedHard
    } else if load_ratio >= 2.0 {
        LoadTier::Saturated
    } else {
        LoadTier::Normal
    };
    let (mem_full, mem_pct_text) = if now.mem_total_mb > 0 {
        let used_ratio = now.mem_used_mb as f64 / now.mem_total_mb as f64;
        (used_ratio >= 0.90, format!("{:.0}", used_ratio * 100.0))
    } else {
        (false, String::new())
    };
    let top_cpu_text = match top_cpu {
        Some(p) => format!("{:.0}", f32::from_bits(p.cpu_pct_bits)),
        None => String::new(),
    };
    Readings { load_tier, load_text: format!("{load_ratio:.1}"), mem_full, mem_pct_text, top_cpu_text }
}

struct Case {
    now: Observation,
    prev: Option<Observation>,
    mem_pressure: PressureLevel,
    thermal: ThermalState,
    load1: f64,
    ncpu: usize,
    top_cpu: Option<ProcSample>,
    top_mem: Option<ProcSample>,
}

fn base() -> Case {
    Case {
        now: obs(1_000_060, 10_000, 100),
        prev: Some(obs(1_000_000, 10_000, 100)),
        mem_pressure: PressureLevel::Normal,
        thermal: ThermalState::Nominal,
        load1: 1.0,
        ncpu: 12,
        top_cpu: None,
        top_mem: None,
    }
}

fn run(c: Case) -> Verdict {
    let readings = readings(&c.now, c.load1, c.ncpu, &c.top_cpu);
    evaluate(PressureInputs {
        now: c.now,
        prev: c.prev,
        mem_pressure: c.mem_pressure,
        thermal: c.thermal,
        readings,
        top_cpu: c.top_cpu,
        top_mem: c.top_mem,
        sampled_at: "2026-09-07T22:04:05Z".to_string(),
    })
}

fn proc(pid: u32, name: &str, app: Option<&str>, cpu: f32, mem: u64) -> ProcSample {
    ProcSample { pid, name: name.into(), app: app.map(String::from), cpu_pct_bits: cpu.to_bits(), mem_mb: mem, threads: 8 }
}

fn codes(v: &Verdict) -> Vec<String> {
    v.reasons.iter().map(|r| r.code.clone()).collect()
}

#[test]
fn a_quiet_machine_is_nominal() {
    let v = run(base());
    assert_eq!(v.state, Severity::Nominal);
    assert!(v.reasons.is_empty());
    assert!(v.suspects.is_empty());
    assert_eq!(v.summary, "System is healthy.");
    assert!(v.history);
    assert_eq!(v.schema_version, 1);
    assert_eq!(v.sampled_at, "2026-09-07T22:04:05Z");
}

#[test]
fn kernel_pressure_maps_straight_through() {
    let mut i = base();
    i.mem_pressure = PressureLevel::Warning;
    assert_eq!(run(i).state, Severity::Warning);

    let mut i = base();
    i.mem_pressure = PressureLevel::Critical;
    let v = run(i);
    assert_eq!(v.state, Severity::Critical);
    assert_eq!(codes(&v), vec!["mem_pressure_critical"]);
}

#[test]
fn swap_growth_fires_at_the_documented_threshold() {
    let mut i = base();
    i.now = obs(1_000_060, 10_000, 100 + 255);
    assert!(run(i).reasons.is_empty(), "255 MB is below the 256 MB threshold");

    let mut i = base();
    i.now = obs(1_000_063, 10_000, 100 + 412);
    let v = run(i);
    assert_eq!(codes(&v), vec!["swap_growth"]);
    assert_eq!(v.reasons[0].detail, "swap grew 412 MB in the last 63s");
}

#[test]
fn fast_swap_growth_suppresses_the_warning_tier() {
    let mut i = base();
    i.now = obs(1_000_060, 10_000, 100 + 2048);
    let v = run(i);
    assert_eq!(codes(&v), vec!["swap_growth_fast"]);
    assert_eq!(v.state, Severity::Critical);
}

#[test]
fn swap_shrinking_is_not_a_reason() {
    let mut i = base();
    i.prev = Some(obs(1_000_000, 10_000, 5000));
    i.now = obs(1_000_060, 10_000, 100);
    assert!(run(i).reasons.is_empty());
}

#[test]
fn without_history_swap_rules_are_skipped_but_others_still_run() {
    let mut i = base();
    i.prev = None;
    i.mem_pressure = PressureLevel::Warning;
    let v = run(i);
    assert!(!v.history);
    assert_eq!(codes(&v), vec!["mem_pressure_warning"]);
}

#[test]
fn mem_full_fires_at_ninety_percent() {
    let mut i = base();
    i.now = obs(1_000_060, 33_178, 100);
    let v = run(i);
    assert_eq!(codes(&v), vec!["mem_full"]);
    assert_eq!(v.reasons[0].detail, "90% of physical memory is in use");

    let mut i = base();
    i.now = obs(1_000_060, 33_000, 100);
    assert!(run(i).reasons.is_empty());
}

#[test]
fn load_saturation_has_two_tiers() {
    let mut i = base();
    i.load1 = 24.0;
    let v = run(i);
    assert_eq!(codes(&v), vec!["cpu_saturated"]);
    assert_eq!(v.reasons[0].detail, "1-minute load is 2.0x the core count");

    let mut i = base();
    i.load1 = 48.0;
    let v = run(i);
    assert_eq!(codes(&v), vec!["cpu_saturated_hard"]);
    assert_eq!(v.state, Severity::Critical);
}

#[test]
fn thermal_states_map_to_reasons() {
    let mut i = base();
    i.thermal = ThermalState::Serious;
    assert_eq!(codes(&run(i)), vec!["thermal_serious"]);

    let mut i = base();
    i.thermal = ThermalState::Fair;
    assert!(run(i).reasons.is_empty(), "fair is not worth reporting");

    let mut i = base();
    i.thermal = ThermalState::Critical;
    let v = run(i);
    assert_eq!(codes(&v), vec!["thermal_critical"]);
    assert_eq!(v.summary, "The SoC is thermally throttled.");
}

#[test]
fn memory_reasons_blame_the_largest_process_and_cpu_reasons_the_busiest() {
    let mut i = base();
    i.mem_pressure = PressureLevel::Warning;
    i.top_mem = Some(proc(4412, "Google Chrome Helper (Renderer)", Some("Google Chrome"), 12.0, 4820));
    i.top_cpu = Some(proc(77, "cc1plus", None, 380.0, 900));
    let v = run(i);
    assert_eq!(v.suspects.len(), 1);
    assert_eq!(v.suspects[0].pid, 4412);
    assert_eq!(v.suspects[0].why, "largest resident set (4820 MB)");
    assert_eq!(v.summary, "Memory is under pressure. Google Chrome is the likely cause.");
}

#[test]
fn combined_reasons_produce_one_readable_sentence() {
    let mut i = base();
    i.mem_pressure = PressureLevel::Warning;
    i.now = obs(1_000_060, 10_000, 100 + 412);
    i.load1 = 24.0;
    i.top_mem = Some(proc(4412, "Chrome", Some("Google Chrome"), 12.0, 4820));
    i.top_cpu = Some(proc(77, "cc1plus", None, 380.0, 900));
    let v = run(i);
    assert_eq!(v.state, Severity::Warning);
    assert_eq!(
        v.summary,
        "Memory is under pressure, the system is swapping and CPU load is 2.0x the core count. \
         Google Chrome is the likely cause, and cc1plus is the busiest process."
    );
    assert_eq!(v.suspects.len(), 2);
    assert_eq!(v.suspects[1].why, "highest CPU (380%)");
}

#[test]
fn the_same_process_is_blamed_only_once() {
    let mut i = base();
    i.mem_pressure = PressureLevel::Critical;
    i.load1 = 30.0;
    let p = proc(500, "hog", None, 200.0, 9000);
    i.top_mem = Some(p.clone());
    i.top_cpu = Some(p);
    let v = run(i);
    assert_eq!(v.state, Severity::Critical);
    assert_eq!(v.suspects.len(), 1);
    assert_eq!(v.summary, "Memory is under pressure and CPU load is 2.5x the core count. hog is the likely cause.");
}
