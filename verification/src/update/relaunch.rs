//! What the hidden `vitals relaunch` helper refuses to hand LaunchServices,
//! and how long it waits for an answer.
use crate::text;
use vstd::prelude::*;

verus! {

/// How long, in seconds, to wait for LaunchServices to answer once the old
/// process is gone. It normally answers within a second.
pub const LAUNCH_TIMEOUT_S: u64 = 30;

/// Whether the path shown as `app` may be handed to LaunchServices: it
/// must exist and look like an app bundle, since LaunchServices answers
/// anything else with a modal dialog no one is there to dismiss.
pub fn launch_precheck(app: &str, exists: bool, is_bundle: bool) -> (r: Result<(), String>)
    ensures
        !exists ==> (r matches Err(m) && m@ == app@ + " does not exist"@),
        exists && !is_bundle ==> (r matches Err(m) && m@ == app@ + " is not an app bundle"@),
        exists && is_bundle ==> r is Ok,
{
    if !exists {
        let mut m = text::owned(app);
        text::push_str(&mut m, " does not exist");
        return Err(m);
    }
    if !is_bundle {
        let mut m = text::owned(app);
        text::push_str(&mut m, " is not an app bundle");
        return Err(m);
    }
    Ok(())
}

/// The failure when LaunchServices has not answered in time.
pub fn launch_timed_out(app: &str) -> (m: String)
    ensures
        m@ == "LaunchServices did not answer within "@ + text::decimal(LAUNCH_TIMEOUT_S as nat)
            + "s for "@ + app@,
{
    let mut m = text::owned("LaunchServices did not answer within ");
    text::push_decimal(&mut m, LAUNCH_TIMEOUT_S);
    text::push_str(&mut m, "s for ");
    text::push_str(&mut m, app);
    m
}

} // verus!
