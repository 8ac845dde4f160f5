//! What the menu bar item decides about the sampler's output: how often to
//! poll it, what an error does to the display, and which rows the dropdown
//! shows.
use crate::text;
use vstd::prelude::*;

verus! {

/// Floor on the poll period: the worker never produces samples faster than
/// once a second, so polling faster only burns wakeups.
pub const MIN_POLL_MS: u32 = 1_000;

/// The error the sampler handle reports once the worker is gone; the only
/// one that never clears.
pub const SAMPLER_STOPPED: &'static str = "sampler thread stopped";

/// Shown in the menu bar before the first sample lands.
pub const PLACEHOLDER_TITLE: &'static str = "…";

/// Shown in the menu bar once the worker is gone for good: stale numbers
/// that never move again are worse than no numbers.
pub const FAILED_TITLE: &'static str = "⚠";

/// Number of informational rows above the separator.
pub const ROWS: usize = 4;

/// How often to poll the worker, or `None` for not at all: never once the
/// worker is dead or parked, every `MIN_POLL_MS` until the first sample is
/// on screen, then at the worker's own cadence but no faster.
pub open spec fn poll_period(dead: bool, parked: bool, has_snapshot: bool, interval_ms: u32) -> Option<u32> {
    if dead || parked {
        None
    } else if !has_snapshot {
        Some(MIN_POLL_MS)
    } else if interval_ms < MIN_POLL_MS {
        Some(MIN_POLL_MS)
    } else {
        Some(interval_ms)
    }
}

/// The poll period for the current state.
pub fn desired_poll_ms(dead: bool, parked: bool, has_snapshot: bool, interval_ms: u32) -> (p: Option<u32>)
    ensures
        p == poll_period(dead, parked, has_snapshot, interval_ms),
{
    if dead || parked {
        None
    } else if !has_snapshot {
        Some(MIN_POLL_MS)
    } else if interval_ms < MIN_POLL_MS {
        Some(MIN_POLL_MS)
    } else {
        Some(interval_ms)
    }
}

/// What an error from the worker changes.
#[derive(Debug, Clone, Copy, PartialEq, Eq, Structural)]
pub enum ErrorEffect {
    /// Nothing: the worker is already known dead, or the same transient
    /// error is already shown.
    Unchanged,
    /// A new transient error is shown in the menu; the numbers in the menu
    /// bar stay, seconds old rather than wrong.
    Shown,
    /// The worker is gone for good: the menu bar shows `FAILED_TITLE` and
    /// the poll timer is retired.
    Retired,
}

/// What the tray knows about the worker's output.
pub struct Feed {
    /// Latched once the worker is gone.
    pub sampler_dead: bool,
    /// The error shown in the menu, until a sample clears it.
    pub last_error: Option<String>,
    /// A sample has been shown.
    pub has_snapshot: bool,
}

/// `Feed` with the error as characters.
pub struct FeedView {
    pub dead: bool,
    pub error: Option<Seq<char>>,
    pub has_snapshot: bool,
}

impl View for Feed {
    type V = FeedView;

    open spec fn view(&self) -> FeedView {
        FeedView {
            dead: self.sampler_dead,
            error: match self.last_error {
                Some(e) => Some(e@),
                None => None,
            },
            has_snapshot: self.has_snapshot,
        }
    }
}

/// What an error message does to the feed. The worker sends its real
/// failure just before it stops, so when the stop arrives an error already
/// shown is the cause, and is kept.
pub open spec fn after_error(f: FeedView, message: Seq<char>) -> (FeedView, ErrorEffect) {
    if message == SAMPLER_STOPPED@ {
        if f.dead {
            (f, ErrorEffect::Unchanged)
        } else {
            (
                FeedView {
                    dead: true,
                    error: if f.error is None {
                        Some(message)
                    } else {
                        f.error
                    },
                    ..f
                },
                ErrorEffect::Retired,
            )
        }
    } else if f.error == Some(message) {
        (f, ErrorEffect::Unchanged)
    } else {
        (FeedView { error: Some(message), ..f }, ErrorEffect::Shown)
    }
}

/// `["⚠  <error>", "", "", ""]`, `lines` for a snapshot, or
/// `["sampling…", "", "", ""]` before the first one.
pub open spec fn rows_of(f: FeedView, lines: Option<Seq<Seq<char>>>) -> Seq<Seq<char>> {
    match f.error {
        Some(e) => seq!["⚠  "@ + e, Seq::empty(), Seq::empty(), Seq::empty()],
        None => match lines {
            Some(l) => l,
            None => seq!["sampling…"@, Seq::empty(), Seq::empty(), Seq::empty()],
        },
    }
}

impl Feed {
    /// Nothing received yet.
    pub fn new() -> (f: Feed)
        ensures
            f@ == (FeedView { dead: false, error: None, has_snapshot: false }),
    {
        Feed { sampler_dead: false, last_error: None, has_snapshot: false }
    }

    /// A sample arrived: it clears any transient error.
    pub fn on_sample(&mut self)
        ensures
            final(self)@ == (FeedView { error: None, has_snapshot: true, ..old(self)@ }),
    {
        self.last_error = None;
        self.has_snapshot = true;
    }

    /// An error arrived; handled exactly once.
    pub fn on_error(&mut self, message: String) -> (effect: ErrorEffect)
        ensures
            (final(self)@, effect) == after_error(old(self)@, message@),
    {
        let cs = text::chars_of(message.as_str());
        let stopped = text::chars_eq_str(&cs, SAMPLER_STOPPED);
        if stopped {
            if self.sampler_dead {
                return ErrorEffect::Unchanged;
            }
            self.sampler_dead = true;
            if self.last_error.is_none() {
                self.last_error = Some(message);
            }
            return ErrorEffect::Retired;
        }
        let same = match &self.last_error {
            Some(e) => {
                let ec = text::chars_of(e.as_str());
                text::chars_eq(&ec, &cs)
            },
            None => false,
        };
        if same {
            return ErrorEffect::Unchanged;
        }
        self.last_error = Some(message);
        ErrorEffect::Shown
    }

    /// How often to poll, for a worker parked or not and sampling every
    /// `interval_ms`.
    pub fn poll_ms(&self, parked: bool, interval_ms: u32) -> (p: Option<u32>)
        ensures
            p == poll_period(self.sampler_dead, parked, self.has_snapshot, interval_ms),
    {
        desired_poll_ms(self.sampler_dead, parked, self.has_snapshot, interval_ms)
    }

    /// The rows the dropdown shows, given the rows of the snapshot on
    /// screen, if there is one.
    pub fn rows(&self, lines: Option<Vec<String>>) -> (r: Vec<String>)
        ensures
            r@.map_values(|s: String| s@) == rows_of(
                self@,
                match lines {
                    Some(l) => Some(l@.map_values(|s: String| s@)),
                    None => None,
                },
            ),
    {
        match &self.last_error {
            Some(e) => {
                let mut first = text::owned("⚠  ");
                text::push_str(&mut first, e.as_str());
                let r = vec![first, String::new(), String::new(), String::new()];
                assert(r@.map_values(|s: String| s@) =~= rows_of(
                    self@,
                    match lines {
                        Some(l) => Some(l@.map_values(|s: String| s@)),
                        None => None,
                    },
                ));
                r
            },
            None => match lines {
                Some(l) => l,
                None => {
                    let r = vec![text::owned("sampling…"), String::new(), String::new(), String::new()];
                    assert(r@.map_values(|s: String| s@) =~= rows_of(self@, None));
                    r
                },
            },
        }
    }
}

/// A dead worker stays dead: no error revives it, the poll timer stays
/// retired, and every later error changes nothing.
pub proof fn lemma_dead_is_final(f: FeedView, message: Seq<char>, parked: bool, interval_ms: u32)
    requires
        f.dead,
    ensures
        after_error(f, message).0.dead,
        poll_period(f.dead, parked, f.has_snapshot, interval_ms) is None,
        message == SAMPLER_STOPPED@ ==> after_error(f, message) == (f, ErrorEffect::Unchanged),
{
}

/// When the worker stops, an error already shown is its cause and is kept.
pub proof fn lemma_cause_is_kept(f: FeedView)
    requires
        f.error is Some,
    ensures
        after_error(f, SAMPLER_STOPPED@).0.error == f.error,
{
}

} // verus!
