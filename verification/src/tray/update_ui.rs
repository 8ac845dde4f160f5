//! What the menu says about updates: the update row, the check item, and
//! what a finished check reports.
use crate::text;
use crate::update::checker::CheckOutcome;
use crate::update::release::{self, Version};
use vstd::prelude::*;

verus! {

/// Longest release-notes text the alert shows before cutting.
pub const NOTES_LIMIT: usize = 1_500;

/// Release notes as the alert shows them: trimmed, and cut to
/// `NOTES_LIMIT` characters followed by `…` when longer.
pub open spec fn shown_notes(notes: Seq<char>) -> Seq<char> {
    let t = text::trim(notes);
    if t.len() <= NOTES_LIMIT {
        t
    } else {
        t.take(NOTES_LIMIT as int).push('…')
    }
}

/// Release notes as the alert shows them: at most 1,500 characters, then `…`.
pub fn truncate_notes(notes: &str) -> (s: String)
    ensures
        s@ == shown_notes(notes@),
{
    let cs = text::chars_of(notes);
    let (lo, hi) = text::trim_bounds(&cs);
    if hi - lo <= NOTES_LIMIT {
        let t = text::slice_chars(&cs, lo, hi);
        return text::string_of(&t);
    }
    let cut = text::slice_chars(&cs, lo, lo + NOTES_LIMIT);
    assert(cut@ =~= cs@.subrange(lo as int, hi as int).take(NOTES_LIMIT as int));
    let mut s = text::string_of(&cut);
    text::push_char(&mut s, '…');
    s
}

/// `● Update to Vitals x.y.z…`, the row shown while an update is available.
pub fn update_row_title(v: Version) -> (s: String)
    ensures
        s@ == "● Update to Vitals "@ + release::version_text(v) + "…"@,
{
    let mut s = text::owned("● Update to Vitals ");
    let t = v.to_text();
    text::push_str(&mut s, t.as_str());
    text::push_str(&mut s, "…");
    s
}

/// `(title, enabled)` of the check item: disabled while a check runs.
pub fn check_item(checking: bool) -> (r: (&'static str, bool))
    ensures
        r.0@ == (if checking {
            "Checking…"@
        } else {
            "Check for Updates…"@
        }),
        r.1 == !checking,
{
    if checking {
        ("Checking…", false)
    } else {
        ("Check for Updates…", true)
    }
}

/// The title of the alert offering a release.
pub fn offer_title(v: Version) -> (s: String)
    ensures
        s@ == "Vitals "@ + release::version_text(v) + " is available"@,
{
    let mut s = text::owned("Vitals ");
    let t = v.to_text();
    text::push_str(&mut s, t.as_str());
    text::push_str(&mut s, " is available");
    s
}

/// What a finished check tells the user.
#[derive(Debug, PartialEq, Eq)]
pub enum Report {
    /// Nothing: an automatic check that succeeded.
    Nothing,
    /// One line on stderr: an automatic check that failed.
    Log(String),
    /// An alert with a message and informative text.
    Alert(String, String),
    /// The offer of the release found.
    Offer,
}

/// `Report` with its texts as characters.
pub enum ReportView {
    Nothing,
    Log(Seq<char>),
    Alert(Seq<char>, Seq<char>),
    Offer,
}

impl View for Report {
    type V = ReportView;

    open spec fn view(&self) -> ReportView {
        match self {
            Report::Nothing => ReportView::Nothing,
            Report::Log(l) => ReportView::Log(l@),
            Report::Alert(m, i) => ReportView::Alert(m@, i@),
            Report::Offer => ReportView::Offer,
        }
    }
}

/// A manual check always says what happened; an automatic one only logs a
/// failure.
pub open spec fn report_of(outcome: CheckOutcome, manual: bool) -> ReportView {
    match outcome {
        CheckOutcome::Failed(reason) => if manual {
            ReportView::Alert("Couldn't check for updates"@, reason@)
        } else {
            ReportView::Log("vitals: update check failed: "@ + reason@)
        },
        CheckOutcome::UpToDate(latest) => if manual {
            ReportView::Alert(
                "You're up to date"@,
                "Vitals "@ + release::version_text(latest) + " is the latest."@,
            )
        } else {
            ReportView::Nothing
        },
        CheckOutcome::Available(_) => if manual {
            ReportView::Offer
        } else {
            ReportView::Nothing
        },
    }
}

/// What to tell the user about a finished check.
pub fn report_for(outcome: &CheckOutcome, manual: bool) -> (r: Report)
    ensures
        r@ == report_of(*outcome, manual),
{
    match outcome {
        CheckOutcome::Failed(reason) => if manual {
            Report::Alert(text::owned("Couldn't check for updates"), reason.clone())
        } else {
            let mut l = text::owned("vitals: update check failed: ");
            text::push_str(&mut l, reason.as_str());
            Report::Log(l)
        },
        CheckOutcome::UpToDate(latest) => if manual {
            let mut i = text::owned("Vitals ");
            let t = latest.to_text();
            text::push_str(&mut i, t.as_str());
            text::push_str(&mut i, " is the latest.");
            Report::Alert(text::owned("You're up to date"), i)
        } else {
            Report::Nothing
        },
        CheckOutcome::Available(_) => if manual {
            Report::Offer
        } else {
            Report::Nothing
        },
    }
}

} // verus!
