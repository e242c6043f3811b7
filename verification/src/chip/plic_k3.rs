//! The interrupt controller. Priorities and enables are kept per core.

use crate::chip::clint_k3::window;
use crate::chip::reg::RegWrite;
use vstd::prelude::*;

verus! {

/// Base of the controller.
pub const PLIC_BASE: u64 = 0xe000_0000;

/// The enables, in a window.
pub const ENABLE_BASE: u64 = 0x2000;

/// The threshold, in a window.
pub const THRESHOLD_OFFSET: u64 = 0x20_0000;

/// Where interrupts are claimed and completed, in a window.
pub const CLAIM_OFFSET: u64 = 0x20_0004;

/// The controller, as one core sees it. Its window is 0 until it was found.
pub struct PlicK3 {
    win: u64,
}

/// The bit of an interrupt in its enable register.
pub open spec fn bit_of(irq: u32) -> u32 {
    1u32 << (irq % 32)
}

/// The enable register of an interrupt.
pub open spec fn enable_of(win: u64, irq: u32) -> int {
    win + ENABLE_BASE + irq / 32 * 4
}

impl PlicK3 {
    /// The window of the core.
    pub closed spec fn at(&self) -> u64 {
        self.win
    }

    /// Every register of the core has an address.
    pub open spec fn wf(&self) -> bool {
        self.at() + 0x4_0000_0000 <= u64::MAX
    }

    /// A controller that was not found yet.
    pub fn new() -> (r: Self)
        ensures
            r.at() == 0,
            r.wf(),
    {
        PlicK3 { win: 0 }
    }

    /// The device that the driver serves.
    pub fn compatible(&self) -> (r: &'static str)
        ensures
            r@ == "riscv,plic0"@,
    {
        "riscv,plic0"
    }

    /// The controller was found at `base`, on core `hart`: no interrupt is
    /// masked by its priority.
    pub fn probe(&mut self, base: u64, hart: u32) -> (r: RegWrite)
        requires
            crate::chip::clint_k3::window_of(base, hart) + 0x4_0000_0000 <= u64::MAX,
        ensures
            final(self).at() == crate::chip::clint_k3::window_of(base, hart),
            final(self).wf(),
            r == (RegWrite { addr: (final(self).at() + THRESHOLD_OFFSET) as u64, value: 0 }),
    {
        self.win = window(base, hart);
        self.set_threshold(0)
    }

    /// Where the enable of an interrupt is kept.
    pub fn enable_addr(&self, irq: u32) -> (r: u64)
        requires
            self.wf(),
        ensures
            r == enable_of(self.at(), irq),
    {
        self.win + ENABLE_BASE + (irq / 32) as u64 * 4
    }

    /// The write that enables an interrupt, given what its register holds.
    pub fn enable_irq(&self, irq: u32, held: u32) -> (r: RegWrite)
        requires
            self.wf(),
        ensures
            r.addr == enable_of(self.at(), irq),
            r.value == held | bit_of(irq),
    {
        RegWrite { addr: self.enable_addr(irq), value: held | (1u32 << (irq % 32)) }
    }

    /// The write that disables an interrupt, given what its register holds.
    pub fn disable_irq(&self, irq: u32, held: u32) -> (r: RegWrite)
        requires
            self.wf(),
        ensures
            r.addr == enable_of(self.at(), irq),
            r.value == held & !bit_of(irq),
    {
        RegWrite { addr: self.enable_addr(irq), value: held & !(1u32 << (irq % 32)) }
    }

    /// The write that sets the priority of an interrupt on this core.
    pub fn set_priority(&self, irq: u32, prio: u32) -> (r: RegWrite)
        requires
            self.wf(),
        ensures
            r.addr == self.at() + irq * 4,
            r.value == prio,
    {
        RegWrite { addr: self.win + irq as u64 * 4, value: prio }
    }

    /// The write that sets the priority above which interrupts come through.
    pub fn set_threshold(&self, thr: u32) -> (r: RegWrite)
        requires
            self.wf(),
        ensures
            r == (RegWrite { addr: (self.at() + THRESHOLD_OFFSET) as u64, value: thr }),
    {
        RegWrite { addr: self.win + THRESHOLD_OFFSET, value: thr }
    }

    /// Where the interrupt that is claimed is read.
    pub fn claim(&self) -> (r: u64)
        requires
            self.wf(),
        ensures
            r == self.at() + CLAIM_OFFSET,
    {
        self.win + CLAIM_OFFSET
    }

    /// The write that completes an interrupt.
    pub fn complete(&self, irq: u32) -> (r: RegWrite)
        requires
            self.wf(),
        ensures
            r == (RegWrite { addr: (self.at() + CLAIM_OFFSET) as u64, value: irq }),
    {
        RegWrite { addr: self.win + CLAIM_OFFSET, value: irq }
    }
}

/// Enabling an interrupt sets its bit and disabling clears it; every other
/// interrupt of the register stays as it was.
pub proof fn law_enable_touches_one(irq: u32, other: u32, held: u32)
    requires
        irq % 32 != other % 32,
    ensures
        (held | bit_of(irq)) & bit_of(irq) != 0,
        (held & !bit_of(irq)) & bit_of(irq) == 0,
        (held | bit_of(irq)) & bit_of(other) == held & bit_of(other),
        (held & !bit_of(irq)) & bit_of(other) == held & bit_of(other),
{
    let i = irq % 32;
    let o = other % 32;
    assert((held | (1u32 << i)) & (1u32 << i) != 0 && (held & !(1u32 << i)) & (1u32 << i) == 0 && (
    held | (1u32 << i)) & (1u32 << o) == held & (1u32 << o) && (held & !(1u32 << i)) & (1u32 << o)
        == held & (1u32 << o)) by (bit_vector)
        requires
            i < 32,
            o < 32,
            i != o,
    ;
}

} // verus!
