//! Start at Login: the menu item's state for each registration status.
use vstd::prelude::*;

verus! {

/// The login item's registration, as ServiceManagement reports it.
#[derive(Debug, Clone, Copy, PartialEq, Eq, Structural)]
pub enum LoginStatus {
    Enabled,
    NotRegistered,
    /// Registered, but macOS wants the user to approve it in System
    /// Settings before it takes effect.
    RequiresApproval,
    /// Not a bundle, or the bundle cannot be a login item.
    NotFound,
}

/// `(title, checked, enabled)` of the *Start at Login* item.
pub open spec fn login_row(status: LoginStatus) -> (Seq<char>, bool, bool) {
    match status {
        LoginStatus::Enabled => ("Start at Login"@, true, true),
        LoginStatus::NotRegistered => ("Start at Login"@, false, true),
        LoginStatus::RequiresApproval => ("Start at Login — approve in System Settings…"@, false, true),
        LoginStatus::NotFound => ("Start at Login"@, false, false),
    }
}

/// `(title, checked, enabled)` for the *Start at Login* menu item.
pub fn menu_state(status: LoginStatus) -> (r: (&'static str, bool, bool))
    ensures
        (r.0@, r.1, r.2) == login_row(status),
{
    match status {
        LoginStatus::Enabled => ("Start at Login", true, true),
        LoginStatus::NotRegistered => ("Start at Login", false, true),
        LoginStatus::RequiresApproval => ("Start at Login — approve in System Settings…", false, true),
        LoginStatus::NotFound => ("Start at Login", false, false),
    }
}

} // verus!
