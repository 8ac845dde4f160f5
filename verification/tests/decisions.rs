use vitals::cli::{
    exit_code_for, pressure_inputs, sample_window_ms, stores_baseline, watch_done, watch_window_ms, Baseline,
    DEFAULT_INTERVAL_MS, MIN_INTERVAL_MS,
};
use vitals::history::Observation;
use vitals::pressure::{evaluate, LoadTier, Readings};
use vitals::procs::ProcSample;
use vitals::schema::{PressureLevel, Severity, ThermalState};
use vitals::serve::{
    host_headers_local, local_addr, park_change, port_in_use, probe_verdict, reply_for, held_by_stranger,
    did_not_come_up, Probe, Reply, DEFAULT_PORT,
};
use vitals::tray::controller::{desired_poll_ms, ErrorEffect, Feed, FAILED_TITLE, MIN_POLL_MS, PLACEHOLDER_TITLE, SAMPLER_STOPPED};
use vitals::tray::panel::{mem_caption, mem_level, Level, PanelState, HISTORY_POINTS};
use vitals::tray::update_ui::{check_item, offer_title, report_for, update_row_title, Report};
use vitals::update::checker::{CheckOutcome, UpdateState};
use vitals::update::http::{download_headers, fetch_headers, file_name_of, request_failed, status_outcome, user_agent};
use vitals::update::relaunch::{launch_precheck, launch_timed_out};
use vitals::update::release::{UpdateError, Version};

#[test]
fn exit_codes_follow_the_documented_table() {
    assert_eq!(exit_code_for(Severity::Nominal), 0);
    assert_eq!(exit_code_for(Severity::Warning), 3);
    assert_eq!(exit_code_for(Severity::Critical), 4);
}

#[test]
fn short_windows_are_raised_to_the_floor() {
    assert_eq!(DEFAULT_INTERVAL_MS, 200);
    assert_eq!(sample_window_ms(0), MIN_INTERVAL_MS);
    assert_eq!(sample_window_ms(19), 20);
    assert_eq!(sample_window_ms(20), 20);
    assert_eq!(sample_window_ms(1_000), 1_000);
}

#[test]
fn watch_windows_are_whole_seconds_and_never_zero() {
    assert_eq!(watch_window_ms(0), 1_000);
    assert_eq!(watch_window_ms(2), 2_000);
    assert_eq!(watch_window_ms(4_294_967), 4_294_967_000);
    assert_eq!(watch_window_ms(4_294_968), u32::MAX);
    assert_eq!(watch_window_ms(u64::MAX), u32::MAX);
    assert!(!watch_done(5, 0), "a count of 0 runs forever");
    assert!(!watch_done(1, 2));
    assert!(watch_done(2, 2));
}

#[test]
fn only_a_one_shot_run_stores_the_baseline() {
    assert!(stores_baseline(Baseline::Store));
    assert!(!stores_baseline(Baseline::ReadOnly));
}

fn sample(pid: u32, name: &str, cpu: f32, mem_mb: u64) -> ProcSample {
    ProcSample { pid, name: name.into(), app: None, cpu_pct_bits: cpu.to_bits(), mem_mb, threads: 4 }
}

#[test]
fn the_measuring_process_is_never_its_own_suspect() {
    let me = 4242;
    let rows = vec![sample(me, "vitals", 300.0, 90_000), sample(7, "cc1plus", 120.0, 800), sample(9, "Chrome", 3.0, 5000)];
    let now = Observation { schema_version: 1, unix_s: 100, mem_used_mb: 1000, mem_total_mb: 2000, swap_used_mb: 0 };
    let readings = Readings {
        load_tier: LoadTier::Saturated,
        load_text: "2.5".into(),
        mem_full: false,
        mem_pct_text: "50".into(),
        top_cpu_text: "120".into(),
    };
    let i = pressure_inputs(rows, me, now, None, PressureLevel::Warning, ThermalState::Nominal, readings, "t".into());
    assert_eq!(i.top_cpu.as_ref().map(|p| p.pid), Some(7));
    assert_eq!(i.top_mem.as_ref().map(|p| p.pid), Some(9));
    let v = evaluate(i);
    assert!(!v.suspects.iter().any(|s| s.pid == me));
    assert_eq!(v.suspects.iter().map(|s| s.pid).collect::<Vec<_>>(), vec![9, 7]);
    assert_eq!(v.summary, "Memory is under pressure and CPU load is 2.5x the core count. Chrome is the likely cause, and cc1plus is the busiest process.");
}

#[test]
fn with_only_the_measuring_process_nobody_is_blamed() {
    let rows = vec![sample(1, "vitals", 10.0, 10)];
    let now = Observation { schema_version: 1, unix_s: 100, mem_used_mb: 1, mem_total_mb: 2, swap_used_mb: 0 };
    let readings = Readings { load_tier: LoadTier::Normal, load_text: "0.1".into(), mem_full: false, mem_pct_text: "50".into(), top_cpu_text: String::new() };
    let i = pressure_inputs(rows, 1, now, None, PressureLevel::Critical, ThermalState::Nominal, readings, "t".into());
    assert!(i.top_cpu.is_none() && i.top_mem.is_none());
    let v = evaluate(i);
    assert_eq!(v.state, Severity::Critical);
    assert!(v.suspects.is_empty());
    assert_eq!(v.summary, "Memory is under pressure.");
}

#[test]
fn two_host_headers_or_a_foreign_one_are_refused() {
    assert!(host_headers_local(&vec![]));
    assert!(host_headers_local(&vec!["localhost:9876".into()]));
    assert!(!host_headers_local(&vec!["evil.com".into()]));
    assert!(!host_headers_local(&vec!["localhost".into(), "localhost".into()]));
}

#[test]
fn replies_follow_the_route_once_the_host_is_local() {
    let local = vec!["127.0.0.1:9876".to_string()];
    let evil = vec!["evil.com".to_string()];
    assert_eq!(reply_for(&evil, "/api/snapshot", true), Reply::Rejected);
    assert_eq!(reply_for(&evil, "/", true), Reply::Rejected);
    assert_eq!(reply_for(&local, "/api/snapshot", false), Reply::WarmingUp);
    assert_eq!(reply_for(&local, "/api/snapshot", true), Reply::Snapshot);
    assert_eq!(reply_for(&local, "/api/pressure", false), Reply::WarmingUp);
    assert_eq!(reply_for(&local, "/api/pressure?x", true), Reply::Pressure);
    assert_eq!(reply_for(&local, "/api/top", false), Reply::Top);
    assert_eq!(reply_for(&local, "/", false), Reply::Index);
    assert_eq!(reply_for(&local, "/app.js", false), Reply::Asset("app.js".into()));
    assert_eq!(reply_for(&local, "/%2e%2e/x", true), Reply::NotFound);
}

#[test]
fn only_an_answer_with_a_schema_version_is_vitals() {
    assert_eq!(probe_verdict(false, false, b""), Probe::Free);
    assert_eq!(probe_verdict(true, false, b""), Probe::Stranger);
    assert_eq!(probe_verdict(true, true, b"HTTP/1.1 200 OK\r\n\r\n<html>"), Probe::Stranger);
    assert_eq!(
        probe_verdict(true, true, b"HTTP/1.1 503 x\r\n\r\n{\"error\":\"warming up\",\"schema_version\":1}"),
        Probe::Vitals
    );
    assert_eq!(probe_verdict(true, true, b"\xff\xfe\"schema_version\""), Probe::Vitals);
}

#[test]
fn the_sampler_is_parked_and_unparked_only_on_a_change() {
    assert_eq!(park_change(true, false), Some(true));
    assert_eq!(park_change(false, true), Some(false));
    assert_eq!(park_change(true, true), None);
    assert_eq!(park_change(false, false), None);
}

#[test]
fn server_messages_name_the_port() {
    assert_eq!(DEFAULT_PORT, 9876);
    assert_eq!(local_addr(9876), "127.0.0.1:9876");
    assert_eq!(held_by_stranger(80), "port 80 is held by something that is not vitals; stop it, or pick another port with --port");
    assert!(port_in_use(9876).starts_with("Port 9876 is already in use by another program"));
    assert_eq!(did_not_come_up(1), "the dashboard did not come up on port 1");
}

#[test]
fn polling_follows_the_worker() {
    assert_eq!(desired_poll_ms(true, false, true, 5_000), None);
    assert_eq!(desired_poll_ms(false, true, true, 5_000), None);
    assert_eq!(desired_poll_ms(false, false, false, 30_000), Some(MIN_POLL_MS));
    assert_eq!(desired_poll_ms(false, false, true, 30_000), Some(30_000));
    assert_eq!(desired_poll_ms(false, false, true, 200), Some(1_000));
}

#[test]
fn a_dead_sampler_latches_and_keeps_its_cause() {
    assert_eq!(PLACEHOLDER_TITLE, "…");
    assert_eq!(FAILED_TITLE, "⚠");
    let mut f = Feed::new();
    assert_eq!(f.rows(None), vec!["sampling…", "", "", ""]);
    assert_eq!(f.on_error("get_metrics failed: x".into()), ErrorEffect::Shown);
    assert_eq!(f.on_error("get_metrics failed: x".into()), ErrorEffect::Unchanged);
    assert_eq!(f.rows(None), vec!["⚠  get_metrics failed: x", "", "", ""]);
    f.on_sample();
    assert_eq!(f.rows(Some(vec!["a".into(), "b".into(), "c".into(), "d".into()])), vec!["a", "b", "c", "d"]);
    assert_eq!(f.on_error("boom".into()), ErrorEffect::Shown);
    assert_eq!(f.on_error(SAMPLER_STOPPED.into()), ErrorEffect::Retired);
    assert_eq!(f.last_error.as_deref(), Some("boom"), "the cause is kept");
    assert_eq!(f.on_error(SAMPLER_STOPPED.into()), ErrorEffect::Unchanged);
    assert_eq!(f.poll_ms(false, 1_000), None);
    let mut g = Feed::new();
    assert_eq!(g.on_error(SAMPLER_STOPPED.into()), ErrorEffect::Retired);
    assert_eq!(g.last_error.as_deref(), Some(SAMPLER_STOPPED));
}

#[test]
fn memory_trusts_the_kernel_pressure_signal_over_the_used_fraction() {
    assert_eq!(mem_level(32_768, PressureLevel::Critical, Level::Normal), Level::Crit);
    assert_eq!(mem_level(32_768, PressureLevel::Warning, Level::Crit), Level::Warn);
    assert_eq!(mem_level(32_768, PressureLevel::Normal, Level::Crit), Level::Normal);
    assert_eq!(mem_level(32_768, PressureLevel::Unknown, Level::Warn), Level::Warn);
    assert_eq!(mem_level(0, PressureLevel::Unknown, Level::Crit), Level::Normal);
}

#[test]
fn memory_caption_is_silent_when_pressure_is_normal() {
    assert_eq!(mem_caption("17.2", PressureLevel::Normal), "swap 17.2 GB");
    assert_eq!(mem_caption("17.2", PressureLevel::Unknown), "swap 17.2 GB");
    assert_eq!(mem_caption("17.2", PressureLevel::Warning), "swap 17.2 GB  ·  pressure warning");
    assert_eq!(mem_caption("0.0", PressureLevel::Critical), "swap 0.0 GB  ·  pressure critical");
}

#[test]
fn an_error_shows_until_the_next_good_sample() {
    let mut p: PanelState<u32, u32> = PanelState::new();
    assert_eq!(HISTORY_POINTS, 60);
    p.push_sample(1, 10);
    p.show_error("sampler failed");
    assert_eq!(p.error.as_deref(), Some("sampler failed"));
    assert_eq!(p.snapshot, Some(1));
    p.clear_history();
    assert_eq!(p.error.as_deref(), Some("sampler failed"));
    assert_eq!(p.cpu_history.len(), 0);
    p.show(2);
    assert!(p.error.is_none());
    assert_eq!(p.cpu_history.len(), 0, "show paints without extending the sparkline");
    for v in 0..70 {
        p.push_sample(3, v);
    }
    assert_eq!(p.cpu_history.len(), 60);
    assert_eq!(p.cpu_history.iter().next(), Some(&10));
}

#[test]
fn update_items_name_the_version() {
    let v = Version { major: 0, minor: 3, patch: 1 };
    assert_eq!(update_row_title(v), "● Update to Vitals 0.3.1…");
    assert_eq!(offer_title(v), "Vitals 0.3.1 is available");
    assert_eq!(check_item(true), ("Checking…", false));
    assert_eq!(check_item(false), ("Check for Updates…", true));
}

#[test]
fn a_manual_check_always_answers_and_an_automatic_one_only_logs_failures() {
    let v = Version { major: 0, minor: 1, patch: 0 };
    let failed = CheckOutcome::Failed("offline".into());
    assert_eq!(report_for(&failed, false), Report::Log("vitals: update check failed: offline".into()));
    assert_eq!(report_for(&failed, true), Report::Alert("Couldn't check for updates".into(), "offline".into()));
    let same = CheckOutcome::UpToDate(v);
    assert_eq!(report_for(&same, false), Report::Nothing);
    assert_eq!(report_for(&same, true), Report::Alert("You're up to date".into(), "Vitals 0.1.0 is the latest.".into()));
}

#[test]
fn a_check_does_not_start_while_one_runs_or_an_install_does() {
    let mut s = UpdateState::default();
    assert!(s.begin_check());
    assert!(s.checking);
    assert!(!s.begin_check());
    let mut t = UpdateState { installing: true, ..Default::default() };
    assert!(!t.begin_check());
    assert!(!t.checking);
}

#[test]
fn requests_carry_exactly_their_headers() {
    assert_eq!(user_agent(), "vitals/0.1.0");
    let f = fetch_headers();
    assert_eq!(
        f,
        vec![
            ("Accept".to_string(), "application/vnd.github+json".to_string()),
            ("X-GitHub-Api-Version".to_string(), "2022-11-28".to_string()),
            ("User-Agent".to_string(), "vitals/0.1.0".to_string()),
        ]
    );
    let d = download_headers();
    assert_eq!(
        d,
        vec![
            ("User-Agent".to_string(), "vitals/0.1.0".to_string()),
            ("Accept".to_string(), "application/octet-stream".to_string()),
        ]
    );
}

#[test]
fn downloads_are_named_after_the_url() {
    assert_eq!(file_name_of("http://x/releases/download/v0.2.0/SHA256SUMS").unwrap(), "SHA256SUMS");
    assert_eq!(
        file_name_of("http://x/d/"),
        Err(UpdateError::Http("no file name at the end of http://x/d/".into()))
    );
    assert!(file_name_of("http://x/d/a?b").is_err());
    assert_eq!(file_name_of("plain").unwrap(), "plain");
}

#[test]
fn fetch_reports_404_and_403_by_status() {
    assert_eq!(status_outcome(200), Ok(()));
    assert_eq!(status_outcome(299), Ok(()));
    assert_eq!(status_outcome(404), Err("HTTP 404".into()));
    assert_eq!(status_outcome(403), Err("HTTP 403".into()));
    assert_eq!(status_outcome(-1), Err("HTTP -1".into()));
    let e = request_failed("http://127.0.0.1:1/releases/latest", "HTTP 404");
    assert_eq!(e.message(), "http://127.0.0.1:1/releases/latest: HTTP 404");
}

#[test]
fn the_relaunch_helper_refuses_what_is_not_a_bundle() {
    assert_eq!(launch_precheck("/x/Foo.app", false, false), Err("/x/Foo.app does not exist".into()));
    assert_eq!(launch_precheck("/x/Foo", true, false), Err("/x/Foo is not an app bundle".into()));
    assert_eq!(launch_precheck("/x/Foo.app", true, true), Ok(()));
    assert_eq!(launch_timed_out("/A.app"), "LaunchServices did not answer within 30s for /A.app");
}
