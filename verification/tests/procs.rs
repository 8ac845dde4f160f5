use std::collections::HashMap;
use vitals::procs::{rank, resolve_app, ProcSample, RawProc};

fn raw(pid: u32, parent: Option<u32>, exe: &str) -> RawProc {
    RawProc { pid, parent, name: format!("p{pid}"), exe: Some(exe.into()), cpu_pct_bits: 0.0f32.to_bits(), mem_bytes: 0 }
}

#[test]
fn resolve_app_walks_up_to_the_owning_bundle() {
    let mut by_pid = HashMap::new();
    by_pid.insert(1, raw(1, None, "/sbin/launchd"));
    by_pid.insert(10, raw(10, Some(1), "/Applications/Google Chrome.app/Contents/MacOS/Google Chrome"));
    by_pid.insert(20, raw(20, Some(10), "/usr/lib/helper"));
    assert_eq!(resolve_app(20, &by_pid), Some("Google Chrome".to_string()));
    assert_eq!(resolve_app(1, &by_pid), None);
}

#[test]
fn resolve_app_survives_a_parent_cycle() {
    let mut by_pid = HashMap::new();
    by_pid.insert(5, raw(5, Some(6), "/usr/lib/a"));
    by_pid.insert(6, raw(6, Some(5), "/usr/lib/b"));
    assert_eq!(resolve_app(5, &by_pid), None);
}

#[test]
fn resolve_app_gives_up_after_eight_processes() {
    let mut by_pid = HashMap::new();
    by_pid.insert(100, raw(100, None, "/Applications/Deep.app/Contents/MacOS/Deep"));
    for pid in 101..=108u32 {
        by_pid.insert(pid, raw(pid, Some(pid - 1), "/usr/lib/x"));
    }
    assert_eq!(resolve_app(107, &by_pid), Some("Deep".to_string()));
    assert_eq!(resolve_app(108, &by_pid), None);
    assert_eq!(resolve_app(999, &by_pid), None);
}

fn sample(pid: u32, cpu: f32, mem_mb: u64) -> ProcSample {
    ProcSample { pid, name: format!("p{pid}"), app: None, cpu_pct_bits: cpu.to_bits(), mem_mb, threads: 1 }
}

#[test]
fn rank_returns_top_n_by_each_dimension() {
    let rows = vec![sample(1, 10.0, 500), sample(2, 300.0, 10), sample(3, 5.0, 4000)];
    let (by_cpu, by_mem) = rank(rows, 2);
    assert_eq!(by_cpu.iter().map(|p| p.pid).collect::<Vec<_>>(), vec![2, 1]);
    assert_eq!(by_mem.iter().map(|p| p.pid).collect::<Vec<_>>(), vec![3, 1]);
}

#[test]
fn rank_breaks_ties_by_pid_for_determinism() {
    let rows = vec![sample(9, 1.0, 1), sample(2, 1.0, 1), sample(5, 1.0, 1)];
    let (by_cpu, _) = rank(rows, 3);
    assert_eq!(by_cpu.iter().map(|p| p.pid).collect::<Vec<_>>(), vec![2, 5, 9]);
}

#[test]
fn rank_orders_cpu_as_total_cmp_does() {
    let values = [0.0f32, -0.0, 1.5, -2.0, f32::INFINITY, f32::NEG_INFINITY, 0.1, 100.0];
    let rows: Vec<ProcSample> = values.iter().enumerate().map(|(k, v)| sample(k as u32, *v, 0)).collect();
    let (by_cpu, _) = rank(rows, values.len());
    let mut expect: Vec<f32> = values.to_vec();
    expect.sort_by(|a, b| b.total_cmp(a));
    let got: Vec<u32> = by_cpu.iter().map(|p| p.cpu_pct_bits).collect();
    assert_eq!(got, expect.iter().map(|v| v.to_bits()).collect::<Vec<u32>>());
}

#[test]
fn rank_keeps_every_row_when_n_is_large() {
    let rows = vec![sample(4, 1.0, 7), sample(4, 1.0, 7), sample(1, 2.0, 3)];
    let (by_cpu, by_mem) = rank(rows, 10);
    assert_eq!(by_cpu.iter().map(|p| p.pid).collect::<Vec<_>>(), vec![1, 4, 4]);
    assert_eq!(by_mem.iter().map(|p| p.pid).collect::<Vec<_>>(), vec![4, 4, 1]);
    let (none, _) = rank(vec![], 3);
    assert!(none.is_empty());
    let (zero, _) = rank(vec![sample(1, 1.0, 1)], 0);
    assert!(zero.is_empty());
}
