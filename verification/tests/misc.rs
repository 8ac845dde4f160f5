use vitals::history::{usable_baseline, Observation, MAX_AGE_S};
use vitals::schema::{now_rfc3339, rfc3339_of, PressureLevel};
use vitals::sysctl::level_from_raw;

fn obs(unix_s: u64, swap: u64) -> Observation {
    Observation { schema_version: 1, unix_s, mem_used_mb: 1000, mem_total_mb: 36864, swap_used_mb: swap }
}

#[test]
fn raw_values_map_to_the_documented_levels() {
    assert_eq!(level_from_raw(1), PressureLevel::Normal);
    assert_eq!(level_from_raw(2), PressureLevel::Warning);
    assert_eq!(level_from_raw(4), PressureLevel::Critical);
    assert_eq!(level_from_raw(3), PressureLevel::Unknown);
    assert_eq!(level_from_raw(0), PressureLevel::Unknown);
}

#[test]
fn now_rfc3339_ends_in_z() {
    let s = now_rfc3339();
    assert!(s.ends_with('Z'), "expected UTC timestamp, got {s}");
    assert_eq!(s.len(), 20, "expected second precision, got {s}");
}

#[test]
fn rfc3339_of_formats_whole_seconds() {
    assert_eq!(rfc3339_of(0), "1970-01-01T00:00:00Z");
    assert_eq!(rfc3339_of(1_788_818_645), "2026-09-07T22:04:05Z");
    assert_eq!(rfc3339_of(i64::MAX), "1970-01-01T00:00:00Z");
    assert_eq!(rfc3339_of(-1), "1969-12-31T23:59:59Z");
    assert_eq!(rfc3339_of(-62_167_219_200), "0000-01-01T00:00:00Z");
}

#[test]
fn stale_observations_are_rejected() {
    let o = obs(1_000_000, 512);
    assert!(usable_baseline(Some(o), 1_000_000 + MAX_AGE_S + 1).is_none());
    assert!(usable_baseline(Some(o), 1_000_000 + MAX_AGE_S - 1).is_some());
    assert!(usable_baseline(Some(o), 1_000_000 + MAX_AGE_S).is_some());
}

#[test]
fn future_timestamps_are_rejected() {
    assert!(usable_baseline(Some(obs(2_000_000, 512)), 1_000_000).is_none());
}

#[test]
fn mismatched_schema_version_is_rejected() {
    let mut bad = obs(1_000_000, 512);
    bad.schema_version = 999;
    assert!(usable_baseline(Some(bad), 1_000_010).is_none());
}

#[test]
fn a_missing_file_is_no_baseline() {
    assert!(usable_baseline(None, 1_000_010).is_none());
    assert_eq!(usable_baseline(Some(obs(1_000_000, 7)), 1_000_010), Some(obs(1_000_000, 7)));
}
