//! Sets the shared window up again when it has been overwritten.

use vstd::prelude::*;

verus! {

/// Milliseconds during which the window is left alone after a start.
pub const WRITE_GATE_MS: u64 = 3000;

/// Most times that the window is set up again.
pub const HEAL_LIMIT: u32 = 8;

/// Looks at the window once a second.
#[derive(Debug, Clone, Copy, PartialEq, Eq, Structural)]
pub struct Watchdog {
    /// Times that the window was set up again.
    pub heals: u32,
    /// Seconds since the first look.
    pub secs: u64,
}

/// What a look at the window asks for.
#[derive(Debug, Clone, Copy, PartialEq, Eq, Structural)]
pub struct Verdict {
    /// Set the window up again.
    pub heal: bool,
    /// Log that the watchdog is alive.
    pub alive: bool,
}

impl Watchdog {
    /// Before the first look.
    pub fn new() -> (r: Watchdog)
        ensures
            r == (Watchdog { heals: 0, secs: 0 }),
    {
        Watchdog { heals: 0, secs: 0 }
    }

    /// One second later: decides by whether the window is valid.
    pub fn tick(&mut self, valid: bool) -> (r: Verdict)
        requires
            old(self).heals <= HEAL_LIMIT,
            old(self).secs < u64::MAX,
        ensures
            r.heal == (!valid && old(self).heals < HEAL_LIMIT),
            r.alive == (final(self).secs % 10 == 0),
            final(self).secs == old(self).secs + 1,
            final(self).heals == old(self).heals + (if r.heal {
                1int
            } else {
                0
            }),
            final(self).heals <= HEAL_LIMIT,
    {
        self.secs = self.secs + 1;
        let heal = !valid && self.heals < HEAL_LIMIT;
        if heal {
            self.heals = self.heals + 1;
        }
        Verdict { heal, alive: self.secs % 10 == 0 }
    }
}

} // verus!
