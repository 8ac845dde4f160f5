use vitals::cadence::{interval_for, Cadence, TrayState};
use vitals::pressure::join_with_and;
use vitals::procs::app_name;
use vitals::ring::Ring;
use vitals::schema::{Severity, ThermalState};
use vitals::thermal::state_from_raw;

#[test]
fn interval_follows_the_documented_table() {
    assert_eq!(interval_for(TrayState { menu_open: true, on_battery: false, low_power: false, display_asleep: false }), 1_000);
    assert_eq!(interval_for(TrayState { menu_open: false, on_battery: false, low_power: false, display_asleep: false }), 5_000);
    assert_eq!(interval_for(TrayState { menu_open: false, on_battery: true, low_power: false, display_asleep: false }), 15_000);
    assert_eq!(interval_for(TrayState { menu_open: false, on_battery: true, low_power: true, display_asleep: false }), 30_000);
}

#[test]
fn an_open_menu_wins_over_every_power_saving_state() {
    let s = TrayState { menu_open: true, on_battery: true, low_power: true, display_asleep: false };
    assert_eq!(interval_for(s), 1_000, "the user is looking at it; sample fast");
}

#[test]
fn parking_and_unparking_round_trips() {
    let c = Cadence::new(5_000);
    assert!(!c.is_parked());
    c.park();
    assert!(c.is_parked());
    c.unpark();
    assert!(!c.is_parked());
}

#[test]
fn setting_the_state_updates_the_interval() {
    let c = Cadence::new(5_000);
    c.set_state(TrayState { menu_open: true, on_battery: false, low_power: false, display_asleep: false });
    assert_eq!(c.interval_ms(), 1_000);
    c.set_state(TrayState { menu_open: false, on_battery: false, low_power: false, display_asleep: true });
    assert!(c.is_parked(), "a sleeping display parks the worker instead of slowing it");
}

#[test]
fn join_with_and_reads_like_english() {
    assert_eq!(join_with_and(&["a".into()]), "a");
    assert_eq!(join_with_and(&["a".into(), "b".into()]), "a and b");
    assert_eq!(join_with_and(&["a".into(), "b".into(), "c".into()]), "a, b and c");
}

#[test]
fn app_name_extracts_the_bundle() {
    assert_eq!(
        app_name("/Applications/Google Chrome.app/Contents/MacOS/Google Chrome"),
        Some("Google Chrome".to_string())
    );
}

#[test]
fn app_name_prefers_the_outermost_bundle() {
    let exe = "/Applications/Google Chrome.app/Contents/Frameworks/\
               Google Chrome Framework.framework/Versions/1/Helpers/\
               Google Chrome Helper.app/Contents/MacOS/Google Chrome Helper";
    assert_eq!(app_name(exe), Some("Google Chrome".to_string()));
}

#[test]
fn app_name_rejects_non_bundle_paths() {
    assert_eq!(app_name("/usr/bin/ssh"), None);
    assert_eq!(app_name("/Applications/Xcode.app/Contents/Developer/usr/bin/clang"), None);
    assert_eq!(app_name(""), None);
}

#[test]
fn ring_keeps_only_the_most_recent_values() {
    let mut r: Ring<f32> = Ring::new(3);
    for v in [1.0, 2.0, 3.0, 4.0] {
        r.push(v);
    }
    assert_eq!(r.len(), 3);
    assert_eq!(r.iter().copied().collect::<Vec<f32>>(), vec![2.0, 3.0, 4.0]);
}

#[test]
fn a_fresh_ring_is_empty_and_iterates_nothing() {
    let r: Ring<f32> = Ring::new(4);
    assert_eq!(r.len(), 0);
    assert_eq!(r.iter().count(), 0);
}

#[test]
fn clear_drops_everything_without_reallocating() {
    let mut r: Ring<f32> = Ring::new(2);
    r.push(1.0);
    r.clear();
    assert_eq!(r.len(), 0);
    r.push(9.0);
    assert_eq!(r.iter().copied().collect::<Vec<f32>>(), vec![9.0]);
}

#[test]
fn a_zero_capacity_ring_still_keeps_one_value() {
    let mut r: Ring<u32> = Ring::new(0);
    assert!(r.is_empty());
    r.push(1);
    r.push(2);
    assert_eq!(r.iter().copied().collect::<Vec<u32>>(), vec![2]);
    assert!(!r.is_empty());
}

#[test]
fn severity_orders_nominal_below_critical() {
    assert!(Severity::Nominal < Severity::Warning);
    assert!(Severity::Warning < Severity::Critical);
}

#[test]
fn raw_values_map_to_the_documented_states() {
    assert_eq!(state_from_raw(0), ThermalState::Nominal);
    assert_eq!(state_from_raw(1), ThermalState::Fair);
    assert_eq!(state_from_raw(2), ThermalState::Serious);
    assert_eq!(state_from_raw(3), ThermalState::Critical);
    assert_eq!(state_from_raw(9), ThermalState::Unknown);
}
