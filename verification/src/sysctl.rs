//! The kernel's own memory-pressure verdict, `kern.memorystatus_vm_pressure_level`:
//! 1 normal, 2 warning, 4 critical.
use crate::schema::PressureLevel;
use vstd::prelude::*;

verus! {

/// The documented meaning of each raw value.
pub open spec fn level_of(v: i32) -> PressureLevel {
    if v == 1 {
        PressureLevel::Normal
    } else if v == 2 {
        PressureLevel::Warning
    } else if v == 4 {
        PressureLevel::Critical
    } else {
        PressureLevel::Unknown
    }
}

/// The pressure level a raw `sysctl` value stands for.
pub fn level_from_raw(v: i32) -> (l: PressureLevel)
    ensures
        l == level_of(v),
{
    match v {
        1 => PressureLevel::Normal,
        2 => PressureLevel::Warning,
        4 => PressureLevel::Critical,
        _ => PressureLevel::Unknown,
    }
}

/// The level a `sysctlbyname` read gives: `Unknown` when the call failed
/// (`rc` non-zero), else the level its value stands for.
pub fn level_from_sysctl(rc: i32, value: i32) -> (l: PressureLevel)
    ensures
        l == if rc != 0 {
            PressureLevel::Unknown
        } else {
            level_of(value)
        },
{
    if rc != 0 {
        PressureLevel::Unknown
    } else {
        level_from_raw(value)
    }
}

} // verus!
