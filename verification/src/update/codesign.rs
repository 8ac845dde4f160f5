//! The code-signing requirement an update is held to.
use crate::text;
use vstd::prelude::*;

verus! {

/// The designated requirement an update must satisfy: a Developer ID
/// signature by a leaf certificate of this team.
pub open spec fn requirement_text(team_id: Seq<char>) -> Seq<char> {
    "anchor apple generic and certificate leaf[subject.OU] = \""@ + team_id + "\""@
}

/// The code requirement for `team_id`.
pub fn requirement_for(team_id: &str) -> (s: String)
    ensures
        s@ == requirement_text(team_id@),
{
    let mut s = text::owned("anchor apple generic and certificate leaf[subject.OU] = \"");
    text::push_str(&mut s, team_id);
    text::push_str(&mut s, "\"");
    s
}

} // verus!
