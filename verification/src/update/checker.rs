//! One update check's outcome, and the state the tray keeps about updates.
use crate::update::release::{self, Release, ReleaseText, Source, UpdateError, Version};
use std::time::Instant;
use vstd::prelude::*;

verus! {

/// `std::time::Instant`, carried opaquely: when a check finished.
#[verifier::external_type_specification]
#[verifier::external_body]
pub struct ExInstant(Instant);

/// What a check found.
#[derive(Debug, Clone, PartialEq, Eq)]
pub enum CheckOutcome {
    /// The latest release is this version, which is not newer than ours.
    UpToDate(Version),
    Available(Release),
    Failed(String),
}

/// `CheckOutcome` with its texts as character sequences.
pub enum OutcomeText {
    UpToDate(Version),
    Available(ReleaseText),
    Failed(Seq<char>),
}

impl View for CheckOutcome {
    type V = OutcomeText;

    open spec fn view(&self) -> OutcomeText {
        match self {
            CheckOutcome::UpToDate(v) => OutcomeText::UpToDate(*v),
            CheckOutcome::Available(r) => OutcomeText::Available(r@),
            CheckOutcome::Failed(s) => OutcomeText::Failed(s@),
        }
    }
}

/// What a check concludes from the `releases/latest` fetch: the response
/// body, or the reason the request failed.
pub open spec fn outcome_of(fetched: Result<Seq<u8>, release::ErrorText>, base: Seq<char>, current: Version) -> OutcomeText {
    match fetched {
        Err(e) => OutcomeText::Failed(release::error_message(e)),
        Ok(body) => match release::latest_outcome(body, base) {
            Ok(r) => if release::newer(r.version, current) {
                OutcomeText::Available(r)
            } else {
                OutcomeText::UpToDate(r.version)
            },
            Err(e) => OutcomeText::Failed(release::error_message(e)),
        },
    }
}

/// A check offers the latest release exactly when its version is the
/// larger one read major first, then minor, then patch; otherwise it
/// reports that version as up to date.
pub proof fn lemma_check_offers_only_later_versions(
    body: Seq<u8>,
    base: Seq<char>,
    current: Version,
)
    ensures
        release::latest_outcome(body, base) matches Ok(r) ==> {
            &&& (outcome_of(Ok(body), base, current) == OutcomeText::Available(r)) <==> release::version_number(
                r.version,
            ) > release::version_number(current)
            &&& release::version_number(r.version) <= release::version_number(current) ==> outcome_of(
                Ok(body),
                base,
                current,
            ) == OutcomeText::UpToDate(r.version)
        },
{
    if let Ok(r) = release::latest_outcome(body, base) {
        release::lemma_newer_is_larger_number(r.version, current);
    }
}

/// Compare the release `source` reports as latest with `current`, given
/// what fetching `source.api_latest` returned.
pub fn check_now(source: &Source, current: Version, fetched: Result<Vec<u8>, UpdateError>) -> (o: CheckOutcome)
    ensures
        o@ == outcome_of(
            match fetched {
                Ok(b) => Ok(b@),
                Err(e) => Err(e@),
            },
            source.download_base@,
            current,
        ),
{
    let body = match fetched {
        Ok(b) => b,
        Err(e) => {
            return CheckOutcome::Failed(e.message());
        },
    };
    match release::parse_latest(body.as_slice(), source) {
        Ok(r) => if r.version.is_newer_than(&current) {
            CheckOutcome::Available(r)
        } else {
            CheckOutcome::UpToDate(r.version)
        },
        Err(e) => CheckOutcome::Failed(e.message()),
    }
}

/// What the tray knows about updates.
#[derive(Debug)]
pub struct UpdateState {
    /// A release newer than the running one, if the last successful check
    /// found one.
    pub available: Option<Release>,
    pub checking: bool,
    pub installing: bool,
    pub last_check: Option<(Instant, Result<(), String>)>,
}

impl Default for UpdateState {
    /// No update known, nothing running, never checked.
    fn default() -> (s: Self)
        ensures
            s.available is None,
            !s.checking,
            !s.installing,
            s.last_check is None,
    {
        UpdateState { available: None, checking: false, installing: false, last_check: None }
    }
}

impl UpdateState {
    /// Start a check unless one is already running or an install is;
    /// whether it started.
    pub fn begin_check(&mut self) -> (started: bool)
        ensures
            started == !(old(self).checking || old(self).installing),
            final(self).checking == (old(self).checking || started),
            final(self).installing == old(self).installing,
            final(self).available == old(self).available,
            final(self).last_check == old(self).last_check,
    {
        if self.checking || self.installing {
            return false;
        }
        self.checking = true;
        true
    }

    /// Fold a finished check in. A newer "latest" replaces `available`; an
    /// equal or older one clears it; a failure leaves it alone. Every
    /// outcome ends the check.
    pub fn apply(&mut self, outcome: CheckOutcome, now: Instant)
        ensures
            !final(self).checking,
            final(self).installing == old(self).installing,
            match outcome {
                CheckOutcome::Available(r) => {
                    &&& final(self).available == Some(r)
                    &&& final(self).last_check matches Some((t, res)) && t == now && res is Ok
                },
                CheckOutcome::UpToDate(_) => {
                    &&& final(self).available is None
                    &&& final(self).last_check matches Some((t, res)) && t == now && res is Ok
                },
                CheckOutcome::Failed(reason) => {
                    &&& final(self).available == old(self).available
                    &&& final(self).last_check matches Some((t, res)) && t == now && (res
                        matches Err(m) && m@ == reason@)
                },
            },
    {
        self.checking = false;
        match outcome {
            CheckOutcome::Available(release) => {
                self.available = Some(release);
                self.last_check = Some((now, Ok(())));
            },
            CheckOutcome::UpToDate(_) => {
                self.available = None;
                self.last_check = Some((now, Ok(())));
            },
            CheckOutcome::Failed(reason) => {
                self.last_check = Some((now, Err(reason)));
            },
        }
    }
}

} // verus!
