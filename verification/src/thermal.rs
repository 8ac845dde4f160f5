//! `NSProcessInfo.thermalState`'s raw values (0 nominal, 1 fair,
//! 2 serious, 3 critical), and what the power source's name says.
use crate::schema::ThermalState;
use crate::text;
use vstd::prelude::*;

verus! {

/// The documented meaning of each raw value; anything newer is unknown.
pub open spec fn state_of(v: isize) -> ThermalState {
    if v == 0 {
        ThermalState::Nominal
    } else if v == 1 {
        ThermalState::Fair
    } else if v == 2 {
        ThermalState::Serious
    } else if v == 3 {
        ThermalState::Critical
    } else {
        ThermalState::Unknown
    }
}

/// The thermal state a raw value stands for.
pub fn state_from_raw(v: isize) -> (s: ThermalState)
    ensures
        s == state_of(v),
{
    match v {
        0 => ThermalState::Nominal,
        1 => ThermalState::Fair,
        2 => ThermalState::Serious,
        3 => ThermalState::Critical,
        _ => ThermalState::Unknown,
    }
}

/// Whether the machine runs on battery, by the name of what currently
/// supplies it ("AC Power", "Battery Power", "UPS Power"); an unreadable
/// name counts as wall power, so sampling goes on normally.
pub fn on_battery_from(source: Option<&str>) -> (b: bool)
    ensures
        b == (source matches Some(s) && text::starts_with(s@, "Battery"@)),
{
    match source {
        Some(s) => {
            let cs = text::chars_of(s);
            let p = text::chars_of("Battery");
            text::starts_with_chars(&cs, &p)
        },
        None => false,
    }
}

} // verus!
