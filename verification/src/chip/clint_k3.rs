//! The system timer and the software interrupt of a core.
//!
//! Each core has a window of its own; the count of the timer is shared.

use crate::chip::reg::RegWrite;
use vstd::prelude::*;

verus! {

/// Base of the timer.
pub const SYSTIMER_BASE: u64 = 0xe400_0000;

/// Distance of the windows of two cores.
pub const HART_STRIDE: u64 = 0x0800_0000;

/// The software interrupt, in a window.
pub const OFF_MSIP: u64 = 0x0;

/// The deadline, in a window.
pub const OFF_MTIMECMP: u64 = 0x4000;

/// The count, from the base.
pub const OFF_MTIME: u64 = 0xbff8;

/// Ticks per second.
pub const FREQ_HZ: u32 = 24_000_000;

/// The window of a core.
pub open spec fn window_of(base: u64, hart: u32) -> int {
    base + hart * HART_STRIDE
}

/// The window of a core.
pub fn window(base: u64, hart: u32) -> (r: u64)
    requires
        window_of(base, hart) <= u64::MAX,
    ensures
        r == window_of(base, hart),
{
    base + hart as u64 * HART_STRIDE
}

/// The window of this core, which the timer and the software interrupt share.
pub struct HartWindow {
    /// Where it is; 0 until either was found.
    win: u64,
}

impl HartWindow {
    /// The window of the core.
    pub closed spec fn at(&self) -> u64 {
        self.win
    }

    /// Every register of the window has an address.
    pub open spec fn mapped(&self) -> bool {
        self.at() + OFF_MTIMECMP + 4 <= u64::MAX
    }

    /// A window that was not found yet.
    pub fn new() -> (r: Self)
        ensures
            r.at() == 0,
    {
        HartWindow { win: 0 }
    }

    /// Whether every register of the window has an address.
    pub fn is_mapped(&self) -> (r: bool)
        ensures
            r == self.mapped(),
    {
        self.win <= u64::MAX - OFF_MTIMECMP - 4
    }
}

/// The timer of a core.
pub struct K3SysTimer;

/// The deadline that a comparator holds after a series of writes, given what it
/// held before.
pub open spec fn deadline_after(addr: int, writes: Seq<RegWrite>, before: u64) -> int
    decreases writes.len(),
{
    if writes.len() == 0 {
        before as int
    } else {
        let d = deadline_after(addr, writes.drop_last(), before);
        let w = writes.last();
        if w.addr == addr {
            d / 0x1_0000_0000 * 0x1_0000_0000 + w.value
        } else if w.addr == addr + 4 {
            w.value * 0x1_0000_0000 + d % 0x1_0000_0000
        } else {
            d
        }
    }
}

impl K3SysTimer {
    /// The devices that the driver serves.
    pub fn compatible(&self) -> (r: (&'static str, &'static str))
        ensures
            r.0@ == "spacemit,k3-systimer"@,
            r.1@ == "riscv,clint0"@,
    {
        ("spacemit,k3-systimer", "riscv,clint0")
    }

    /// The timer was found at `base`, on core `hart`.
    pub fn probe(&self, win: &mut HartWindow, base: u64, hart: u32)
        requires
            window_of(base, hart) <= u64::MAX,
        ensures
            final(win).at() == window_of(base, hart),
    {
        win.win = window(base, hart);
    }

    /// Ticks per second.
    pub fn freq_hz(&self) -> (r: u32)
        ensures
            r == 24_000_000,
    {
        FREQ_HZ
    }

    /// Where the count is read.
    pub fn now(&self) -> (r: u64)
        ensures
            r == SYSTIMER_BASE + OFF_MTIME,
    {
        SYSTIMER_BASE + OFF_MTIME
    }

    /// The writes that set the next deadline, the high half first.
    pub fn set_deadline(&self, win: &HartWindow, tick: u64) -> (r: Vec<RegWrite>)
        requires
            win.mapped(),
        ensures
            r@ == deadline_writes((win.at() + OFF_MTIMECMP) as u64, tick),
    {
        let addr: u64 = win.win + OFF_MTIMECMP;
        let r = vec![
            RegWrite { addr: addr + 4, value: (tick / 0x1_0000_0000) as u32 },
            RegWrite { addr, value: (tick % 0x1_0000_0000) as u32 },
        ];
        assert(r@ =~= deadline_writes(addr, tick));
        r
    }
}

/// The two writes of a deadline.
pub open spec fn deadline_writes(addr: u64, tick: u64) -> Seq<RegWrite> {
    seq![
        RegWrite { addr: (addr + 4) as u64, value: (tick / 0x1_0000_0000) as u32 },
        RegWrite { addr, value: (tick % 0x1_0000_0000) as u32 },
    ]
}

/// After both writes the comparator holds the deadline, and between them its
/// high half is already the deadline's: it is never earlier than the start of
/// the deadline's 32-bit period, whatever it held before.
pub proof fn law_deadline_not_early(addr: u64, tick: u64, before: u64)
    requires
        addr + 4 <= u64::MAX,
    ensures
        deadline_after(addr as int, deadline_writes(addr, tick), before) == tick,
        deadline_after(addr as int, deadline_writes(addr, tick).take(1), before)
            >= tick / 0x1_0000_0000 * 0x1_0000_0000,
{
    let w = deadline_writes(addr, tick);
    reveal_with_fuel(deadline_after, 3);
    assert(w.drop_last() =~= w.take(1));
    assert(w.take(1).drop_last() =~= seq![]);
}

/// The software interrupt of a core.
pub struct K3MsIP;

impl K3MsIP {
    /// The devices that the driver serves.
    pub fn compatible(&self) -> (r: (&'static str, &'static str))
        ensures
            r.0@ == "spacemit,k3-systimer-msip"@,
            r.1@ == "riscv,clint0-msip"@,
    {
        ("spacemit,k3-systimer-msip", "riscv,clint0-msip")
    }

    /// The interrupt was found at `base`, on core `hart`.
    pub fn probe(&self, win: &mut HartWindow, base: u64, hart: u32)
        requires
            window_of(base, hart) <= u64::MAX,
        ensures
            final(win).at() == window_of(base, hart),
    {
        win.win = window(base, hart);
    }

    /// The write that raises the interrupt; none before the window was found.
    pub fn send(&self, win: &HartWindow) -> (r: Option<RegWrite>)
        ensures
            r == if win.at() == 0 {
                None
            } else {
                Some(RegWrite { addr: win.at(), value: 1 })
            },
    {
        if win.win == 0 {
            None
        } else {
            Some(RegWrite { addr: win.win + OFF_MSIP, value: 1 })
        }
    }

    /// The write that takes the interrupt back; none before the window was found.
    pub fn clear(&self, win: &HartWindow) -> (r: Option<RegWrite>)
        ensures
            r == if win.at() == 0 {
                None
            } else {
                Some(RegWrite { addr: win.at(), value: 0 })
            },
    {
        if win.win == 0 {
            None
        } else {
            Some(RegWrite { addr: win.win + OFF_MSIP, value: 0 })
        }
    }
}

} // verus!
