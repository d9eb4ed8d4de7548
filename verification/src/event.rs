use vstd::prelude::*;

verus! {

/// A power or session transition delivered by a watcher.
///
/// Events are transitions only. Starting a watcher does not emit the
/// current lock or sleep state.
#[derive(Debug, Clone, Copy, PartialEq, Eq, Hash, Structural)]
pub enum PowerEvent {
    /// The system is going to sleep.
    Suspend,
    /// The system has finished waking.
    Resume,
    /// The session screen was locked.
    ScreenLocked,
    /// The session screen was unlocked.
    ScreenUnlocked,
    /// The system is shutting down.
    ///
    /// Best-effort: emitted on Linux via logind. Not available through the
    /// IOKit power API used on macOS.
    Shutdown,
}

} // verus!
