//! The dashboard window's process: which parent it may signal.
use vstd::prelude::*;

verus! {

/// The pid `quitVitals:` may send `SIGTERM` to: never 0 (no parent
/// recorded) and never 1 (`launchd`).
pub fn quit_target(parent: u32) -> (r: Option<i32>)
    ensures
        r == (if parent > 1 { Some(parent as i32) } else { None::<i32> }),
{
    if parent > 1 {
        Some(parent as i32)
    } else {
        None
    }
}

} // verus!
