//! The dropdown panel's state and the decisions behind its colours and
//! captions. Drawing is AppKit's; what is drawn is decided here.
use crate::ring::{self, Ring};
use crate::schema::PressureLevel;
use crate::text;
use vstd::prelude::*;

verus! {

/// How many CPU readings the sparkline keeps.
pub const HISTORY_POINTS: usize = 60;

/// How loudly a headline value should be coloured.
#[derive(Debug, Clone, Copy, PartialEq, Eq, Structural)]
pub enum Level {
    Normal,
    Warn,
    Crit,
}

/// The memory headline's level: the kernel's own pressure signal when it
/// has one, and only otherwise `used_level`, the level of the used
/// fraction (`Normal` when the total is unknown, i.e. 0).
pub open spec fn mem_level_of(total_mb: u64, pressure: PressureLevel, used_level: Level) -> Level {
    match pressure {
        PressureLevel::Critical => Level::Crit,
        PressureLevel::Warning => Level::Warn,
        PressureLevel::Normal => Level::Normal,
        PressureLevel::Unknown => if total_mb == 0 {
            Level::Normal
        } else {
            used_level
        },
    }
}

/// Memory is judged by the kernel's pressure signal first — that is what
/// actually makes a Mac feel slow — and by the used fraction, whose level
/// the caller passes as `used_level`, only when the signal is unavailable.
pub fn mem_level(total_mb: u64, pressure: PressureLevel, used_level: Level) -> (l: Level)
    ensures
        l == mem_level_of(total_mb, pressure, used_level),
{
    match pressure {
        PressureLevel::Critical => Level::Crit,
        PressureLevel::Warning => Level::Warn,
        PressureLevel::Normal => Level::Normal,
        PressureLevel::Unknown => if total_mb == 0 {
            Level::Normal
        } else {
            used_level
        },
    }
}

/// What the memory caption adds for a pressure level.
pub open spec fn pressure_note_of(p: PressureLevel) -> Seq<char> {
    match p {
        PressureLevel::Warning => "  ·  pressure warning"@,
        PressureLevel::Critical => "  ·  pressure critical"@,
        _ => Seq::empty(),
    }
}

/// The memory caption: the swap figure, then the kernel's pressure when it
/// is not normal.
pub fn mem_caption(swap_gb: &str, pressure: PressureLevel) -> (c: String)
    ensures
        c@ == "swap "@ + swap_gb@ + " GB"@ + pressure_note_of(pressure),
{
    let mut c = text::owned("swap ");
    text::push_str(&mut c, swap_gb);
    text::push_str(&mut c, " GB");
    match pressure {
        PressureLevel::Warning => text::push_str(&mut c, "  ·  pressure warning"),
        PressureLevel::Critical => text::push_str(&mut c, "  ·  pressure critical"),
        _ => {
            assert(c@ == c@ + Seq::<char>::empty());
        },
    }
    c
}

/// The strings every header row shows, top to bottom.
pub struct HeaderText {
    pub cpu: String,
    pub cores_legend: String,
    pub gpu: String,
    pub mem: String,
    pub mem_caption: String,
    pub power: String,
}

/// State backing the dropdown view: the snapshot shown, a sampling failure
/// shown in its place until the next good sample, and the CPU sparkline.
pub struct PanelState<S, V> {
    pub snapshot: Option<S>,
    pub error: Option<String>,
    pub cpu_history: Ring<V>,
}

impl<S, V> PanelState<S, V> {
    /// The sparkline's ring is well formed and keeps `HISTORY_POINTS`.
    pub open spec fn wf(&self) -> bool {
        &&& self.cpu_history.wf()
        &&& self.cpu_history.capacity() == HISTORY_POINTS
    }

    /// Nothing shown yet, no history.
    pub fn new() -> (p: Self)
        ensures
            p.wf(),
            p.snapshot is None,
            p.error is None,
            p.cpu_history@ == Seq::<V>::empty(),
    {
        PanelState { snapshot: None, error: None, cpu_history: Ring::new(HISTORY_POINTS) }
    }

    /// Show a snapshot without adding it to the history, clearing any
    /// error.
    pub fn show(&mut self, snapshot: S)
        requires
            old(self).wf(),
        ensures
            final(self).wf(),
            final(self).snapshot == Some(snapshot),
            final(self).error is None,
            final(self).cpu_history@ == old(self).cpu_history@,
    {
        self.snapshot = Some(snapshot);
        self.error = None;
    }

    /// Record a fresh sample: show it, clear any error, and extend the
    /// sparkline with its CPU reading.
    pub fn push_sample(&mut self, snapshot: S, cpu: V)
        requires
            old(self).wf(),
        ensures
            final(self).wf(),
            final(self).snapshot == Some(snapshot),
            final(self).error is None,
            final(self).cpu_history@ == ring::pushed(
                old(self).cpu_history@,
                HISTORY_POINTS as nat,
                cpu,
            ),
    {
        self.cpu_history.push(cpu);
        self.snapshot = Some(snapshot);
        self.error = None;
    }

    /// Replace the numbers with a sampling failure until the next good
    /// sample clears it.
    pub fn show_error(&mut self, message: &str)
        requires
            old(self).wf(),
        ensures
            final(self).wf(),
            final(self).error matches Some(e) && e@ == message@,
            final(self).snapshot == old(self).snapshot,
            final(self).cpu_history@ == old(self).cpu_history@,
    {
        self.error = Some(text::owned(message));
    }

    /// Drop the sparkline history, so a closed dropdown carries nothing
    /// forward.
    pub fn clear_history(&mut self)
        requires
            old(self).wf(),
        ensures
            final(self).wf(),
            final(self).cpu_history@ == Seq::<V>::empty(),
            final(self).snapshot == old(self).snapshot,
            final(self).error == old(self).error,
    {
        self.cpu_history.clear();
    }
}

} // verus!
