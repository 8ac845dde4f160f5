//! Adaptive sampling cadence.
use std::sync::atomic::{AtomicBool, AtomicU32, Ordering};
use std::sync::{Condvar, Mutex, MutexGuard};
use vstd::prelude::*;

verus! {

/// What the tray knows about its surroundings.
#[derive(Debug, Clone, Copy, PartialEq, Eq, Structural)]
pub struct TrayState {
    pub menu_open: bool,
    pub on_battery: bool,
    pub low_power: bool,
    pub display_asleep: bool,
}

/// The documented cadence table, in milliseconds.
pub open spec fn spec_interval_for(s: TrayState) -> u32 {
    if s.menu_open {
        1_000
    } else if s.low_power {
        30_000
    } else if s.on_battery {
        15_000
    } else {
        5_000
    }
}

/// Milliseconds between samples for a given state. A sleeping display is not
/// represented here: it parks the worker instead.
pub fn interval_for(s: TrayState) -> (ms: u32)
    ensures
        ms == spec_interval_for(s),
{
    if s.menu_open {
        1_000
    } else if s.low_power {
        30_000
    } else if s.on_battery {
        15_000
    } else {
        5_000
    }
}

/// What a tray state asks of the worker: its interval, and whether it
/// parks (a sleeping display parks it rather than slowing it).
pub fn settings_for(s: TrayState) -> (r: (u32, bool))
    ensures
        r == (spec_interval_for(s), s.display_asleep),
{
    (interval_for(s), s.display_asleep)
}

/// `std::sync::Mutex`, carried opaquely: the worker sleeps under it.
/// The cadence table. An open menu samples every second whatever else
/// holds; with the menu closed, Low Power Mode alone gives 30 s, on battery
/// or not; otherwise battery power gives 15 s, and wall power 5 s.
pub proof fn lemma_cadence_table(s: TrayState)
    ensures
        s.menu_open ==> spec_interval_for(s) == 1_000,
        !s.menu_open && s.low_power ==> spec_interval_for(s) == 30_000,
        !s.menu_open && !s.low_power && s.on_battery ==> spec_interval_for(s) == 15_000,
        !s.menu_open && !s.low_power && !s.on_battery ==> spec_interval_for(s) == 5_000,
{
}

/// Saving power never samples faster: turning on Low Power Mode or going
/// on battery never shortens the interval, an open menu gives the shortest
/// interval there is, and Low Power Mode with the menu closed the longest.
/// Whether the display sleeps does not change the interval.
pub proof fn lemma_cadence_saves_power(s: TrayState, t: TrayState)
    ensures
        t.menu_open == s.menu_open && t.on_battery == s.on_battery && !s.low_power && t.low_power
            ==> spec_interval_for(s) <= spec_interval_for(t),
        t.menu_open == s.menu_open && t.low_power == s.low_power && !s.on_battery && t.on_battery
            ==> spec_interval_for(s) <= spec_interval_for(t),
        s.menu_open ==> spec_interval_for(s) <= spec_interval_for(t),
        !s.menu_open && s.low_power ==> spec_interval_for(t) <= spec_interval_for(s),
        t.menu_open == s.menu_open && t.low_power == s.low_power && t.on_battery == s.on_battery
            ==> spec_interval_for(s) == spec_interval_for(t),
{
}

#[verifier::external_type_specification]
#[verifier::external_body]
#[verifier::reject_recursive_types(T)]
pub struct ExMutex<T: ?Sized>(Mutex<T>);

/// `std::sync::MutexGuard`, carried opaquely.
#[verifier::external_type_specification]
#[verifier::external_body]
#[verifier::reject_recursive_types(T)]
pub struct ExMutexGuard<'a, T: ?Sized + 'a>(MutexGuard<'a, T>);

/// `std::sync::Condvar`, carried opaquely: it wakes the parked worker.
#[verifier::external_type_specification]
#[verifier::external_body]
pub struct ExCondvar(Condvar);

/// `Mutex::new`, for the lock the parked worker sleeps under.
#[verifier::external_body]
fn new_lock() -> Mutex<()> {
    Mutex::new(())
}

/// `Condvar::new`.
#[verifier::external_body]
fn new_condvar() -> Condvar {
    Condvar::new()
}

/// `Mutex::lock`; `None` when the lock is poisoned.
#[verifier::external_body]
fn acquire(lock: &Mutex<()>) -> Option<MutexGuard<'_, ()>> {
    lock.lock().ok()
}

/// `Condvar::notify_all`.
#[verifier::external_body]
fn wake_all(cv: &Condvar) {
    cv.notify_all()
}

/// `Condvar::wait_while`, re-checking `Cadence::is_parked` after each wakeup.
/// Another thread can park the cadence again at any moment, so nothing is
/// promised about the flag once this returns.
#[verifier::external_body]
fn sleep_while_parked<'a>(cadence: &Cadence, guard: MutexGuard<'a, ()>) {
    let _guard = cadence.cv.wait_while(guard, |_| cadence.is_parked());
}

/// Shared between the thread that changes the tray's state and the sampler
/// worker that reads the interval and sleeps while parked. Every read goes
/// through an atomic another thread may write at any time, so no read
/// promises a value; what `set_state` writes is `settings_for` its state.
pub struct Cadence {
    interval_ms: AtomicU32,
    parked: AtomicBool,
    lock: Mutex<()>,
    cv: Condvar,
}

impl Cadence {
    /// Unparked, sampling every `initial_ms`.
    pub fn new(initial_ms: u32) -> (c: Self) {
        Cadence {
            interval_ms: AtomicU32::new(initial_ms),
            parked: AtomicBool::new(false),
            lock: new_lock(),
            cv: new_condvar(),
        }
    }

    /// The interval last stored.
    pub fn interval_ms(&self) -> u32 {
        self.interval_ms.load(Ordering::Relaxed)
    }

    /// Whether the worker is parked.
    pub fn is_parked(&self) -> bool {
        self.parked.load(Ordering::Relaxed)
    }

    /// Park the worker: it sleeps at its next `wait_while_parked`.
    pub fn park(&self) {
        self.parked.store(true, Ordering::Relaxed);
    }

    /// Unpark the worker and wake it.
    pub fn unpark(&self) {
        self.parked.store(false, Ordering::Relaxed);
        let _guard = acquire(&self.lock);
        wake_all(&self.cv);
    }

    /// Store the interval and park flag `settings_for(s)` gives, waking the
    /// worker when it is unparked.
    pub fn set_state(&self, s: TrayState) {
        let (ms, park) = settings_for(s);
        self.interval_ms.store(ms, Ordering::Relaxed);
        if park {
            self.park();
        } else {
            self.unpark();
        }
    }

    /// Block until unparked. Called only by the worker. If the lock is
    /// poisoned the worker does not wait at all.
    pub fn wait_while_parked(&self) {
        if let Some(guard) = acquire(&self.lock) {
            sleep_while_parked(self, guard);
        }
    }
}

} // verus!
