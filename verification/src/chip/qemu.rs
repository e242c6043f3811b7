//! The board that runs in an emulator: two cores share one interrupt
//! controller, and the other core clears all priorities when it starts.

use crate::chip::reg::RegWrite;
use vstd::prelude::*;

verus! {

/// Priority of the console's interrupt.
pub const TARGET_PRIO: u32 = 2;

/// Seconds after which the other core has started.
pub const HART0_BOOT_SECS: u64 = 3;

/// Times that the priority is set before it is given up.
pub const MAX_CONFIRM_RETRIES: u32 = 20;

/// Spins between two tries.
pub const CONFIRM_PAUSE: u32 = 50_000;

/// The addresses of the board.
#[derive(Debug, Clone, Copy, PartialEq, Eq, Structural)]
pub struct QemuVirtRt {
    /// The software interrupts, the other core's first.
    pub clint_base: u64,
    /// The interrupt controller.
    pub plic_base: u64,
    /// The interrupt of the console.
    pub uart1_irq: u32,
}

impl QemuVirtRt {
    /// The write that wakes the other core. What was written to the shared
    /// window is made visible before it.
    pub fn send_ipi_to_linux(&self) -> (r: RegWrite)
        ensures
            r == (RegWrite { addr: self.clint_base, value: 1 }),
    {
        RegWrite { addr: self.clint_base, value: 1 }
    }

    /// The write that takes the wake back.
    pub fn clear_ipi_to_linux(&self) -> (r: RegWrite)
        ensures
            r == (RegWrite { addr: self.clint_base, value: 0 }),
    {
        RegWrite { addr: self.clint_base, value: 0 }
    }

    /// Where the priority of the console's interrupt is read back.
    pub fn priority_addr(&self) -> (r: u64)
        requires
            self.plic_base + 4 * self.uart1_irq <= u64::MAX,
        ensures
            r == self.plic_base + 4 * self.uart1_irq,
    {
        self.plic_base + 4 * self.uart1_irq as u64
    }
}

/// How far the setup of the console's interrupt has come.
#[derive(Debug, Clone, Copy, PartialEq, Eq, Structural)]
pub enum ConsoleIrq {
    /// The other core may still be starting; the time is read again.
    Waiting {
        /// When the wait began.
        start: u64,
        /// How long it takes.
        ticks: u64,
    },
    /// The priority is set and read back; this many tries are left. The
    /// interrupt is enabled before the first one.
    Confirm(u32),
    /// The priority was read back.
    Stable,
    /// The priority was never read back.
    Unstable,
}

/// The wait for the other core is over.
pub open spec fn waited(start: u64, ticks: u64, now: u64) -> bool {
    (now - start) % 0x1_0000_0000_0000_0000 >= ticks
}

/// What follows a priority that was read back.
pub open spec fn confirmed(s: ConsoleIrq, prio: u32) -> ConsoleIrq {
    match s {
        ConsoleIrq::Confirm(n) => if prio == TARGET_PRIO {
            ConsoleIrq::Stable
        } else if n <= 1 {
            ConsoleIrq::Unstable
        } else {
            ConsoleIrq::Confirm((n - 1) as u32)
        },
        other => other,
    }
}

impl ConsoleIrq {
    /// Starts to set the console's interrupt up, on a clock of `freq` Hz.
    pub fn setup_console_irq(freq: u32, now: u64) -> (r: Self)
        ensures
            r == (ConsoleIrq::Waiting { start: now, ticks: (3 * freq) as u64 }),
    {
        ConsoleIrq::Waiting { start: now, ticks: freq as u64 * HART0_BOOT_SECS }
    }

    /// The time was read.
    pub fn wait(self, now: u64) -> (r: Self)
        ensures
            r == match self {
                ConsoleIrq::Waiting { start, ticks } => if waited(start, ticks, now) {
                    ConsoleIrq::Confirm(20)
                } else {
                    self
                },
                other => other,
            },
    {
        match self {
            ConsoleIrq::Waiting { start, ticks } => if now.wrapping_sub(start) < ticks {
                self
            } else {
                ConsoleIrq::Confirm(MAX_CONFIRM_RETRIES)
            },
            other => other,
        }
    }

    /// The priority was set, and read back as `prio`.
    pub fn confirm(self, prio: u32) -> (r: Self)
        ensures
            r == confirmed(self, prio),
    {
        match self {
            ConsoleIrq::Confirm(n) => if prio == TARGET_PRIO {
                ConsoleIrq::Stable
            } else if n <= 1 {
                ConsoleIrq::Unstable
            } else {
                ConsoleIrq::Confirm(n - 1)
            },
            other => other,
        }
    }
}

/// What a series of priorities that were read back comes to.
pub open spec fn settled(s: ConsoleIrq, prios: Seq<u32>) -> ConsoleIrq
    decreases prios.len(),
{
    if prios.len() == 0 {
        s
    } else {
        settled(confirmed(s, prios[0]), prios.drop_first())
    }
}

proof fn lemma_stays(s: ConsoleIrq, prios: Seq<u32>)
    requires
        !(s is Confirm),
    ensures
        settled(s, prios) == s,
    decreases prios.len(),
{
    if prios.len() > 0 {
        lemma_stays(s, prios.drop_first());
    }
}

/// The setup ends after as many tries as are left: stable where one of those
/// reads gave the priority, and unstable otherwise.
pub proof fn law_setup_is_decided(n: u32, prios: Seq<u32>)
    requires
        1 <= n <= prios.len(),
    ensures
        settled(ConsoleIrq::Confirm(n), prios) == if exists|i: int|
            0 <= i < n && #[trigger] prios[i] == TARGET_PRIO {
            ConsoleIrq::Stable
        } else {
            ConsoleIrq::Unstable
        },
    decreases n,
{
    let rest = prios.drop_first();
    let next = confirmed(ConsoleIrq::Confirm(n), prios[0]);
    if next is Confirm {
        law_setup_is_decided((n - 1) as u32, rest);
        if exists|i: int| 0 <= i < n && #[trigger] prios[i] == TARGET_PRIO {
            let i = choose|i: int| 0 <= i < n && #[trigger] prios[i] == TARGET_PRIO;
            assert(rest[i - 1] == TARGET_PRIO);
        }
        if exists|i: int| 0 <= i < n - 1 && #[trigger] rest[i] == TARGET_PRIO {
            let i = choose|i: int| 0 <= i < n - 1 && #[trigger] rest[i] == TARGET_PRIO;
            assert(prios[i + 1] == TARGET_PRIO);
        }
    } else {
        lemma_stays(next, rest);
        if prios[0] == TARGET_PRIO {
            assert(next == ConsoleIrq::Stable);
        }
    }
}

} // verus!
