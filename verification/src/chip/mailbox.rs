//! The mailboxes through which the cores wake each other.
//!
//! A mailbox has four channels, each a queue of words with an interrupt of its
//! own, and two users. A word that one user writes raises the other's
//! interrupt.

use crate::chip::reg::RegWrite;
use vstd::prelude::*;

verus! {

/// Channels of a mailbox.
pub const NUM_CHANNELS: u8 = 4;

/// Mailboxes that are used.
pub const POOL_SIZE: usize = 2;

/// The queues, one register for each channel.
pub const MBOX_MSG: u64 = 0x40;

/// The states of the queues.
pub const FIFO_STATUS: u64 = 0x80;

/// The numbers of words in the queues.
pub const MSG_STATUS: u64 = 0xc0;

/// The interrupts, sixteen bytes for each user: raised, clear, enable, disable.
pub const MBOX_IRQ: u64 = 0x100;

/// The thresholds, sixteen bytes for each user.
pub const MBOX_THRESH: u64 = 0x180;

/// State of a queue: full.
pub const IS_FULL: u32 = 1;

/// State of a queue: empty.
pub const IS_EMPTY: u32 = 2;

/// The bit of a channel's interrupt for a new word.
pub open spec fn mask(ch: u8) -> u32 {
    1u32 << (2 * ch) as u32
}

/// The bit of a channel's interrupt for a new word.
pub fn new_msg_mask(ch: u8) -> (r: u32)
    requires
        ch < NUM_CHANNELS,
    ensures
        r == mask(ch),
{
    1u32 << (2 * ch as u32)
}

/// A mailbox.
#[derive(Debug, Clone, Copy, PartialEq, Eq, Structural)]
pub struct MboxK3 {
    /// Base of the registers; 0 until it was found.
    base: u64,
    irq: u32,
    /// This core is the second user, and the other core the first.
    second: bool,
    /// An interrupt was served that nobody has waited for.
    served: bool,
}

/// A mailbox.
pub struct Mbox {
    /// Base of the registers; 0 until it was found.
    pub base: u64,
    /// Its interrupt.
    pub irq: u32,
    /// This core is the second user.
    pub second: bool,
    /// An interrupt was served that nobody has waited for.
    pub served: bool,
}

impl Mbox {
    /// This core's user.
    pub open spec fn local(self) -> u64 {
        if self.second {
            1
        } else {
            0
        }
    }

    /// The other core's user.
    pub open spec fn remote(self) -> u64 {
        if self.second {
            0
        } else {
            1
        }
    }

    /// A register of a user's interrupts.
    pub open spec fn irq_reg(self, user: u64, offset: int) -> int {
        self.base + MBOX_IRQ + 16 * user + offset
    }

    /// A register of a channel.
    pub open spec fn channel_reg(self, group: u64, ch: u8) -> int {
        self.base + group + 4 * ch
    }

    /// Every register has an address, and the mailbox was found.
    pub open spec fn found(self) -> bool {
        0 < self.base && self.base + 0x400 <= u64::MAX
    }
}

impl View for MboxK3 {
    type V = Mbox;

    closed spec fn view(&self) -> Mbox {
        Mbox { base: self.base, irq: self.irq, second: self.second, served: self.served }
    }
}

/// What is done about a channel whose interrupt is up.
#[derive(Debug, Clone, Copy, PartialEq, Eq, Structural)]
pub struct Drain {
    /// The channel.
    pub ch: u8,
    /// Where a word is read, and dropped.
    pub queue: u64,
    /// The write that follows, which clears the interrupt.
    pub clear: RegWrite,
}

/// The channels, of the first `n`, that are pending.
pub open spec fn raised(pending: u32, n: int) -> Seq<u8>
    decreases n,
{
    if n <= 0 {
        seq![]
    } else {
        let before = raised(pending, n - 1);
        if pending & mask((n - 1) as u8) != 0 {
            before.push((n - 1) as u8)
        } else {
            before
        }
    }
}

impl MboxK3 {
    /// A mailbox that was not found yet; this core is its first user.
    pub fn new() -> (r: Self)
        ensures
            r@ == (Mbox { base: 0, irq: 0, second: false, served: false }),
    {
        MboxK3 { base: 0, irq: 0, second: false, served: false }
    }

    /// Whether the mailbox was found.
    pub fn is_found(&self) -> (r: bool)
        ensures
            r == self@.found(),
    {
        self.base > 0 && self.base <= u64::MAX - 0x400
    }

    fn local(&self) -> (r: u64)
        ensures
            r == self@.local(),
    {
        if self.second {
            1
        } else {
            0
        }
    }

    /// Where the state of a queue is read.
    pub fn fifo_status(&self, channel: u8) -> (r: u64)
        requires
            self@.found(),
            channel < NUM_CHANNELS,
        ensures
            r == self@.channel_reg(FIFO_STATUS, channel),
    {
        self.base + FIFO_STATUS + 4 * channel as u64
    }

    /// Where words are read from a queue, and written to it.
    pub fn ack(&self, channel: u8) -> (r: u64)
        requires
            self@.found(),
            channel < NUM_CHANNELS,
        ensures
            r == self@.channel_reg(MBOX_MSG, channel),
    {
        self.base + MBOX_MSG + 4 * channel as u64
    }

    /// Where the number of words in a queue is read.
    pub fn msg_status(&self, channel: u8) -> (r: u64)
        requires
            self@.found(),
            channel < NUM_CHANNELS,
        ensures
            r == self@.channel_reg(MSG_STATUS, channel),
    {
        self.base + MSG_STATUS + 4 * channel as u64
    }

    /// Where this core's interrupts that were raised are read.
    pub fn irq_status(&self) -> (r: u64)
        requires
            self@.found(),
        ensures
            r == self@.irq_reg(self@.local(), 0),
    {
        self.base + MBOX_IRQ + 16 * self.local()
    }

    /// Where this core's interrupts that are enabled are read.
    pub fn irq_en(&self) -> (r: u64)
        requires
            self@.found(),
        ensures
            r == self@.irq_reg(self@.local(), 8),
    {
        self.base + MBOX_IRQ + 16 * self.local() + 8
    }

    /// Whether a queue is empty, given its state.
    pub fn fifo_is_empty(&self, status: u32) -> (r: bool)
        ensures
            r == (status & IS_EMPTY != 0),
    {
        status & IS_EMPTY != 0
    }

    /// Whether a queue is full, given its state.
    pub fn fifo_is_full(&self, status: u32) -> (r: bool)
        ensures
            r == (status & IS_FULL != 0),
    {
        status & IS_FULL != 0
    }

    /// The number of words in a queue, given its register: the low four bits.
    pub fn msg_count(&self, status: u32) -> (r: u32)
        ensures
            r == status % 16,
    {
        status % 16
    }

    /// Whether a channel's interrupt is enabled, given the enables.
    pub fn irq_enabled(&self, enabled: u32, channel: u8) -> (r: bool)
        requires
            channel < NUM_CHANNELS,
        ensures
            r == (enabled & mask(channel) != 0),
    {
        enabled & new_msg_mask(channel) != 0
    }

    /// Whether a channel's interrupt was raised, given those that were.
    pub fn irq_pending_raw(&self, raw: u32, channel: u8) -> (r: bool)
        requires
            channel < NUM_CHANNELS,
        ensures
            r == (raw & mask(channel) != 0),
    {
        raw & new_msg_mask(channel) != 0
    }

    /// The write that clears a channel's interrupt.
    pub fn clear_irq_pending(&self, channel: u8) -> (r: RegWrite)
        requires
            self@.found(),
            channel < NUM_CHANNELS,
        ensures
            r.addr == self@.irq_reg(self@.local(), 4),
            r.value == mask(channel),
    {
        RegWrite {
            addr: self.base + MBOX_IRQ + 16 * self.local() + 4,
            value: new_msg_mask(channel),
        }
    }

    /// The write that raises a channel's interrupt on this core.
    pub fn trigger_local_irq(&self, channel: u8) -> (r: RegWrite)
        requires
            self@.found(),
            channel < NUM_CHANNELS,
        ensures
            r.addr == self@.irq_reg(self@.local(), 0),
            r.value == mask(channel),
    {
        RegWrite { addr: self.irq_status(), value: new_msg_mask(channel) }
    }

    /// The writes that wake the other core: its interrupt is enabled before the
    /// word is written.
    pub fn signal(&self, channel: u8) -> (r: (RegWrite, RegWrite))
        requires
            self@.found(),
            channel < NUM_CHANNELS,
        ensures
            r.0.addr == self@.irq_reg(self@.remote(), 8),
            r.0.value == mask(channel),
            r.1.addr == self@.channel_reg(MBOX_MSG, channel),
            r.1.value == 1,
    {
        let remote: u64 = 1 - self.local();
        let enable = RegWrite {
            addr: self.base + MBOX_IRQ + 16 * remote + 8,
            value: new_msg_mask(channel),
        };
        (enable, RegWrite { addr: self.ack(channel), value: 1 })
    }

    /// The interrupt.
    pub fn irq(&self) -> (r: u32)
        ensures
            r == self@.irq,
    {
        self.irq
    }

    /// The write that enables a channel's interrupt on this core.
    pub fn enable_new_msg_irq(&self, channel: u8) -> (r: RegWrite)
        requires
            self@.found(),
            channel < NUM_CHANNELS,
        ensures
            r.addr == self@.irq_reg(self@.local(), 8),
            r.value == mask(channel),
    {
        RegWrite { addr: self.irq_en(), value: new_msg_mask(channel) }
    }

    /// The write that disables a channel's interrupt on this core.
    pub fn disable_new_msg_irq(&self, channel: u8) -> (r: RegWrite)
        requires
            self@.found(),
            channel < NUM_CHANNELS,
        ensures
            r.addr == self@.irq_reg(self@.local(), 12),
            r.value == mask(channel),
    {
        RegWrite {
            addr: self.base + MBOX_IRQ + 16 * self.local() + 12,
            value: new_msg_mask(channel),
        }
    }

    /// One round of the interrupt handler, given the interrupts that were
    /// raised and those that are enabled. None of both: the handler is done and
    /// who waits is woken. Otherwise the channels among them are drained, and
    /// another round follows.
    pub fn mbox_isr(&mut self, raw: u32, enabled: u32) -> (r: Option<Vec<Drain>>)
        requires
            old(self)@.found(),
        ensures
            r is None <==> raw & enabled == 0,
            r is None ==> final(self)@ == (Mbox { served: true, ..old(self)@ }),
            match r {
                None => true,
                Some(drains) => {
                    &&& final(self)@ == old(self)@
                    &&& drains@.len() == raised(raw & enabled, 4).len()
                    &&& forall|i: int|
                        #![trigger drains@[i]]
                        0 <= i < drains@.len() ==> {
                            let ch = raised(raw & enabled, 4)[i];
                            &&& drains@[i].ch == ch
                            &&& drains@[i].queue == old(self)@.channel_reg(MBOX_MSG, ch)
                            &&& drains@[i].clear.addr == old(self)@.irq_reg(old(self)@.local(), 4)
                            &&& drains@[i].clear.value == mask(ch)
                        }
                },
            },
    {
        let pending: u32 = raw & enabled;
        if pending == 0 {
            self.served = true;
            return None;
        }
        let mut drains: Vec<Drain> = Vec::new();
        let mut ch: u8 = 0;
        while ch < NUM_CHANNELS
            invariant
                ch <= NUM_CHANNELS,
                pending == raw & enabled,
                self@ == old(self)@,
                self@.found(),
                drains@.len() == raised(pending, ch as int).len(),
                forall|i: int|
                    #![trigger drains@[i]]
                    0 <= i < drains@.len() ==> {
                        let c = raised(pending, ch as int)[i];
                        &&& drains@[i].ch == c
                        &&& drains@[i].queue == self@.channel_reg(MBOX_MSG, c)
                        &&& drains@[i].clear.addr == self@.irq_reg(self@.local(), 4)
                        &&& drains@[i].clear.value == mask(c)
                    },
            decreases NUM_CHANNELS - ch,
        {
            if pending & new_msg_mask(ch) != 0 {
                drains.push(
                    Drain { ch, queue: self.ack(ch), clear: self.clear_irq_pending(ch) },
                );
            }
            ch = ch + 1;
        }
        Some(drains)
    }

    /// Whether an interrupt was served since the last time this was asked.
    pub fn recv(&mut self) -> (r: bool)
        ensures
            r == old(self)@.served,
            final(self)@ == (Mbox { served: false, ..old(self)@ }),
    {
        let r = self.served;
        self.served = false;
        r
    }
}

/// The mailboxes, in the order in which the device tree names them: first the
/// one to this core, then the one from it.
pub struct MboxDriver {
    boxes: [MboxK3; 2],
    irqs: [Option<u32>; 2],
}

/// What is done to let a mailbox's interrupts through.
#[derive(Debug, Clone, Copy, PartialEq, Eq, Structural)]
pub struct Setup {
    /// The interrupt, whose handler is [`MboxK3::mbox_isr`].
    pub irq: u32,
    /// Its priority in the interrupt controller.
    pub priority: u32,
    /// The write that enables the first channel, once the controller lets the
    /// interrupt through.
    pub enable: RegWrite,
}

impl View for MboxDriver {
    type V = Seq<MboxK3>;

    closed spec fn view(&self) -> Seq<MboxK3> {
        self.boxes@
    }
}

impl MboxDriver {
    /// The interrupt that each mailbox was registered for, where
    /// [`MboxDriver::setup_interrupts`] has done so.
    pub closed spec fn registered(&self) -> Seq<Option<u32>> {
        self.irqs@
    }

    /// No mailbox was found.
    pub fn new() -> (r: Self)
        ensures
            r@.len() == POOL_SIZE,
            r.registered() == seq![None::<u32>, None::<u32>],
            forall|i: int|
                0 <= i < POOL_SIZE ==> (#[trigger] r@[i])@ == (Mbox {
                    base: 0,
                    irq: 0,
                    second: false,
                    served: false,
                }),
    {
        let r = MboxDriver { boxes: [MboxK3::new(), MboxK3::new()], irqs: [None, None] };
        assert(r.registered() =~= seq![None::<u32>, None::<u32>]);
        r
    }

    /// The device that the driver serves.
    pub fn compatible(&self) -> (r: &'static str)
        ensures
            r@ == "spacemit,k3-mailbox"@,
    {
        "spacemit,k3-mailbox"
    }

    /// A mailbox.
    pub fn get(&self, i: usize) -> (r: MboxK3)
        requires
            i < POOL_SIZE,
        ensures
            self@.len() == POOL_SIZE,
            r == self@[i as int],
    {
        self.boxes[i]
    }

    /// Stores a mailbox back.
    pub fn put(&mut self, i: usize, mbox: MboxK3)
        requires
            i < POOL_SIZE,
        ensures
            final(self)@ == old(self)@.update(i as int, mbox),
            final(self).registered() == old(self).registered(),
    {
        self.boxes[i] = mbox;
    }

    /// A mailbox was found: it gets the first free place. With `rcpu_communicate`
    /// this core is its second user. Its queues are drained by the caller; the
    /// write then lets every word raise an interrupt.
    pub fn probe(&mut self, base: u64, irq: u32, rcpu_communicate: bool) -> (r: Option<
        (usize, RegWrite),
    >)
        requires
            base + 0x400 <= u64::MAX,
        ensures
            old(self)@.len() == POOL_SIZE,
            final(self)@.len() == POOL_SIZE,
            r is None <==> old(self)@[0]@.base != 0 && old(self)@[1]@.base != 0,
            r is None ==> final(self)@ == old(self)@,
            final(self).registered() == old(self).registered(),
            match r {
                None => true,
                Some((i, threshold)) => {
                    let m = final(self)@[i as int]@;
                    &&& i < POOL_SIZE
                    &&& old(self)@[i as int]@.base == 0
                    &&& i == 1 ==> old(self)@[0]@.base != 0
                    &&& m.base == base && m.irq == irq && m.second == rcpu_communicate
                    &&& m.served == old(self)@[i as int]@.served
                    &&& final(self)@[1 - i] == old(self)@[1 - i]
                    &&& threshold.addr == base + MBOX_THRESH + 16 * m.local()
                    &&& threshold.value == 0
                },
            },
    {
        let i: usize = if self.boxes[0].base == 0 {
            0
        } else if self.boxes[1].base == 0 {
            1
        } else {
            return None;
        };
        let m = MboxK3 { base, irq, second: rcpu_communicate, served: self.boxes[i].served };
        self.boxes[i] = m;
        let local: u64 = m.local();
        Some((i, RegWrite { addr: base + MBOX_THRESH + 16 * local, value: 0 }))
    }

    /// Registers the mailboxes that were found for their interrupts; returned is
    /// what lets these through, in order. A mailbox that was not found stays as
    /// it was.
    pub fn setup_interrupts(&mut self) -> (r: Vec<Setup>)
        requires
            forall|i: int|
                0 <= i < POOL_SIZE ==> (#[trigger] old(self)@[i])@.base == 0 || old(
                    self,
                )@[i]@.found(),
        ensures
            final(self)@ == old(self)@,
            old(self)@.len() == POOL_SIZE,
            r@ == setups(old(self)@),
            old(self).registered().len() == POOL_SIZE,
            final(self).registered() == Seq::new(
                POOL_SIZE as nat,
                |i: int|
                    if old(self)@[i]@.base != 0 {
                        Some(old(self)@[i]@.irq)
                    } else {
                        old(self).registered()[i]
                    },
            ),
    {
        let mut r: Vec<Setup> = Vec::new();
        let mut i: usize = 0;
        while i < POOL_SIZE
            invariant
                i <= POOL_SIZE,
                self@ == old(self)@,
                self@.len() == POOL_SIZE,
                old(self).registered().len() == POOL_SIZE,
                self.registered().len() == POOL_SIZE,
                forall|j: int|
                    0 <= j < POOL_SIZE ==> (#[trigger] self@[j])@.base == 0 || self@[j]@.found(),
                forall|j: int|
                    0 <= j < POOL_SIZE ==> (#[trigger] self.registered()[j]) == (if j < i && old(
                        self,
                    )@[j]@.base != 0 {
                        Some(old(self)@[j]@.irq)
                    } else {
                        old(self).registered()[j]
                    }),
                r@ == setups(self@.take(i as int)),
            decreases POOL_SIZE - i,
        {
            let m = self.boxes[i];
            assert(self@[i as int] == m);
            assert(self@.take(i + 1).drop_last() =~= self@.take(i as int));
            if m.base != 0 {
                self.irqs[i] = Some(m.irq);
                r.push(Setup { irq: m.irq, priority: 1, enable: m.enable_new_msg_irq(0) });
            }
            i = i + 1;
        }
        assert(self@.take(2) =~= self@);
        r
    }

    /// The mailbox that an interrupt belongs to: the last one that was
    /// registered for it.
    pub fn instance_for_irq(&self, irq: u32) -> (r: Option<usize>)
        ensures
            self.registered().len() == POOL_SIZE,
            r == (if self.registered()[1] == Some(irq) {
                Some(1usize)
            } else if self.registered()[0] == Some(irq) {
                Some(0usize)
            } else {
                None
            }),
    {
        if let Some(n) = self.irqs[1] {
            if n == irq {
                return Some(1);
            }
        }
        if let Some(n) = self.irqs[0] {
            if n == irq {
                return Some(0);
            }
        }
        None
    }
}

/// What lets the interrupts of some mailboxes through.
pub open spec fn setups(boxes: Seq<MboxK3>) -> Seq<Setup>
    decreases boxes.len(),
{
    if boxes.len() == 0 {
        seq![]
    } else {
        let m = boxes.last()@;
        let before = setups(boxes.drop_last());
        if m.base == 0 {
            before
        } else {
            before.push(
                Setup {
                    irq: m.irq,
                    priority: 1,
                    enable: RegWrite { addr: m.irq_reg(m.local(), 8) as u64, value: mask(0) },
                },
            )
        }
    }
}

/// A channel is drained in a round of the handler exactly where its interrupt
/// is up, and then once.
pub proof fn law_drained_once(pending: u32, n: int, ch: u8)
    requires
        0 <= n <= 4,
        0 <= ch < 4,
    ensures
        raised(pending, n).contains(ch) <==> ch < n && pending & mask(ch) != 0,
        raised(pending, n).no_duplicates(),
        forall|i: int| 0 <= i < raised(pending, n).len() ==> raised(pending, n)[i] < n,
    decreases n,
{
    if n > 0 {
        law_drained_once(pending, n - 1, ch);
        let before = raised(pending, n - 1);
        let now = raised(pending, n);
        if pending & mask((n - 1) as u8) != 0 {
            assert(now[now.len() - 1] == (n - 1) as u8);
            if before.contains(ch) {
                let i = choose|i: int| 0 <= i < before.len() && before[i] == ch;
                assert(now[i] == ch);
            }
        }
    }
}

} // verus!
