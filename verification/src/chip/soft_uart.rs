//! A serial transmitter that drives a pin from a timer interrupt, one bit at a
//! time.

use crate::chip::reg::RegWrite;
use vstd::prelude::*;

verus! {

/// Base of the pin registers.
pub const RGPIO_BASE: u64 = 0xc088_9400;

/// Base of the timer registers.
pub const AON_TMR1_BASE: u64 = 0xc088_9000;

/// The output pin, as a bit of its port: pin 30.
pub const LINE_BIT: u32 = 0x4000_0000;

/// Bits per second.
pub const BAUD: u32 = 115_200;

/// Timer ticks per second.
pub const TICK_HZ: u32 = 2_000_000;

/// Interrupt of the timer.
pub const TIMER_IRQ: u32 = 9;

/// Interrupt that is held off while bytes are sent.
pub const MAILBOX_IRQ: u32 = 69;

/// Most bytes that wait to be sent.
pub const RING_CAP: usize = 128;

/// Offsets of the registers used.
pub const GPIO_PDR: u64 = 0x04;

/// Sets the pin.
pub const GPIO_PSR: u64 = 0x08;

/// Clears the pin.
pub const GPIO_PCR: u64 = 0x0c;

/// Counter enable.
pub const TMR_CER: u64 = 0x00;

/// Counter mode.
pub const TMR_CMR: u64 = 0x04;

/// Comparator of the second counter.
pub const TMR_T1_M0: u64 = 0x20;

/// Preload control of the second counter.
pub const TMR_PLCR1: u64 = 0x54;

/// Interrupt enable of the second counter.
pub const TMR_IER1: u64 = 0x64;

/// Interrupt clear of the second counter.
pub const TMR_ICR1: u64 = 0x74;

/// The second counter.
pub const TMR_TCR1: u64 = 0x94;

/// Bytes that wait to be sent.
pub struct TxRing {
    slots: [u8; 128],
    head: usize,
    len: usize,
    dropped: u32,
}

impl View for TxRing {
    type V = Seq<u8>;

    /// The bytes, oldest first.
    closed spec fn view(&self) -> Seq<u8> {
        Seq::new(
            self.len as nat,
            |i: int|
                self.slots@[if self.head + i < 128 {
                    self.head + i
                } else {
                    self.head + i - 128
                }],
        )
    }
}

/// One more, modulo 2^32.
pub open spec fn bumped(n: u32) -> u32 {
    if n == u32::MAX {
        0
    } else {
        (n + 1) as u32
    }
}

impl TxRing {
    /// No more bytes wait than there are slots.
    pub closed spec fn wf(&self) -> bool {
        self.head < 128 && self.len <= 128
    }

    /// Bytes that found no room, modulo 2^32.
    pub closed spec fn lost(&self) -> u32 {
        self.dropped
    }

    /// Nothing waits.
    pub fn new() -> (r: TxRing)
        ensures
            r.wf(),
            r@ == Seq::<u8>::empty(),
            r.lost() == 0,
    {
        let r = TxRing { slots: [0u8; 128], head: 0, len: 0, dropped: 0 };
        proof {
            assert(r@ =~= Seq::<u8>::empty());
        }
        r
    }

    /// Adds a byte. `false` when there is no room: the byte is then dropped
    /// and counted.
    pub fn push(&mut self, b: u8) -> (r: bool)
        requires
            old(self).wf(),
        ensures
            final(self).wf(),
            r == (old(self)@.len() < RING_CAP),
            final(self)@ == (if r {
                old(self)@.push(b)
            } else {
                old(self)@
            }),
            final(self).lost() == (if r {
                old(self).lost()
            } else {
                bumped(old(self).lost())
            }),
    {
        if self.len >= 128 {
            self.dropped = self.dropped.wrapping_add(1);
            return false;
        }
        let at: usize = if self.head + self.len < 128 {
            self.head + self.len
        } else {
            self.head + self.len - 128
        };
        self.slots[at] = b;
        self.len = self.len + 1;
        proof {
            assert(self@ =~= old(self)@.push(b));
        }
        true
    }

    /// Takes the oldest byte.
    pub fn pop(&mut self) -> (r: Option<u8>)
        requires
            old(self).wf(),
        ensures
            final(self).wf(),
            final(self).lost() == old(self).lost(),
            r == (if old(self)@.len() > 0 {
                Some(old(self)@[0])
            } else {
                None
            }),
            final(self)@ == (if old(self)@.len() > 0 {
                old(self)@.skip(1)
            } else {
                old(self)@
            }),
    {
        if self.len == 0 {
            return None;
        }
        let b: u8 = self.slots[self.head];
        self.head = if self.head == 127 {
            0
        } else {
            self.head + 1
        };
        self.len = self.len - 1;
        proof {
            assert(self@ =~= old(self)@.skip(1));
        }
        Some(b)
    }

    /// Whether nothing waits.
    pub fn is_empty(&self) -> (r: bool)
        ensures
            r == (self@.len() == 0),
    {
        self.len == 0
    }
}

/// The sum modulo 2^32.
pub open spec fn plus(a: u32, b: int) -> u32 {
    ((a + b) % 0x1_0000_0000) as u32
}

/// The number of ticks of the next bit, given the remainder left over.
pub open spec fn bit_ticks(acc: u32) -> int {
    if acc + 41_600 >= 115_200 {
        18
    } else {
        17
    }
}

/// The remainder left over after the next bit.
pub open spec fn bit_rest(acc: u32) -> u32 {
    if acc + 41_600 >= 115_200 {
        (acc + 41_600 - 115_200) as u32
    } else {
        (acc + 41_600) as u32
    }
}

/// Moves the deadline on by one bit.
pub fn step_bit(dl: u32, acc: u32) -> (r: (u32, u32))
    requires
        acc < BAUD,
    ensures
        r == (plus(dl, bit_ticks(acc)), bit_rest(acc)),
        r.1 < BAUD,
{
    let acc2: u32 = acc + 41_600;
    if acc2 >= 115_200 {
        (dl.wrapping_add(18), acc2 - 115_200)
    } else {
        (dl.wrapping_add(17), acc2)
    }
}

/// The ticks of `n` bits, from the remainder `acc` on, and the remainder after
/// them.
pub open spec fn bits_ticks(acc: u32, n: nat) -> (int, u32)
    decreases n,
{
    if n == 0 {
        (0, acc)
    } else {
        let (t, a) = bits_ticks(acc, (n - 1) as nat);
        (t + bit_ticks(a), bit_rest(a))
    }
}

/// The bit rate is exact: `n` bits take `n * TICK_HZ / BAUD` ticks to within
/// one tick, however many bits there are.
pub proof fn law_bit_rate_exact(acc: u32, n: nat)
    requires
        acc < BAUD,
    ensures
        ({
            let (t, a) = bits_ticks(acc, n);
            &&& a < BAUD
            &&& BAUD * t + a == TICK_HZ * n + acc
        }),
    decreases n,
{
    if n > 0 {
        law_bit_rate_exact(acc, (n - 1) as nat);
    }
}

/// The comparator value for the deadline `dl` when the counter stands at
/// `now`: the deadline, or two ticks ahead where it is too near or past.
pub open spec fn guarded(dl: u32, now: u32) -> u32 {
    let ahead = plus(dl, -(now as int));
    if ahead < 2 || ahead > 0x8000_0000 {
        plus(now, 2)
    } else {
        dl
    }
}

/// The comparator value for the deadline `dl` when the counter stands at
/// `now`.
pub fn match_guarded(dl: u32, now: u32) -> (r: u32)
    ensures
        r == guarded(dl, now),
{
    let ahead: u32 = dl.wrapping_sub(now);
    proof {
        assert(ahead == plus(dl, -(now as int)));
    }
    if ahead < 2 || ahead > 0x8000_0000 {
        now.wrapping_add(2)
    } else {
        dl
    }
}

/// The comparator is never missed: it lies at least two ticks ahead.
pub proof fn law_match_is_ahead(dl: u32, now: u32)
    ensures
        2 <= plus(guarded(dl, now), -(now as int)) <= 0x8000_0000,
{
}

/// The level of the line in phase `phase` of byte `b`: low for the start bit,
/// the bits from the lowest on, high for the stop bit.
pub open spec fn level(b: u8, phase: int) -> bool {
    if phase == 0 {
        false
    } else if phase <= 8 {
        (b >> (phase - 1) as u8) & 1 == 1
    } else {
        true
    }
}

/// The transmitter.
pub struct SoftUart {
    running: bool,
    cur: u8,
    phase: u8,
    acc: u32,
    dl: u32,
    frames: u32,
    ring: TxRing,
}

/// The transmitter as a mathematical value.
#[verifier::ext_equal]
pub struct Tx {
    /// A byte is being sent.
    pub running: bool,
    /// That byte.
    pub cur: u8,
    /// Its phase: 0 start, 1 to 8 data, 9 stop.
    pub phase: int,
    /// The remainder of the bit clock.
    pub acc: u32,
    /// The next deadline.
    pub dl: u32,
    /// Times that everything was sent, modulo 2^32.
    pub frames: u32,
    /// Bytes that wait.
    pub queue: Seq<u8>,
    /// Bytes that found no room, modulo 2^32.
    pub lost: u32,
}

impl View for SoftUart {
    type V = Tx;

    closed spec fn view(&self) -> Tx {
        Tx {
            running: self.running,
            cur: self.cur,
            phase: self.phase as int,
            acc: self.acc,
            dl: self.dl,
            frames: self.frames,
            queue: self.ring@,
            lost: self.ring.lost(),
        }
    }
}

/// What the sender has to do.
#[derive(Debug, Clone, Copy, PartialEq, Eq, Structural)]
pub struct Sent {
    /// Bytes that found room.
    pub accepted: usize,
    /// Hold the other interrupt off and start the transmitter.
    pub start: bool,
}

/// What the interrupt handler has to do, after it cleared the interrupt.
#[derive(Debug, Clone, Copy, PartialEq, Eq, Structural)]
pub struct Tick {
    /// The level to put on the line.
    pub line: Option<bool>,
    /// The comparator value to write.
    pub compare: Option<u32>,
    /// Switch the timer interrupt off.
    pub disable: bool,
    /// Let the other interrupt through again.
    pub release: bool,
}

/// The transmitter after a timer interrupt at counter value `now`.
pub open spec fn ticked(t: Tx, now: u32) -> (Tick, Tx) {
    let dl = plus(t.dl, bit_ticks(t.acc));
    let acc = bit_rest(t.acc);
    if !t.running {
        (Tick { line: None, compare: None, disable: true, release: false }, t)
    } else if t.phase + 1 <= 9 {
        (
            Tick {
                line: Some(level(t.cur, t.phase + 1)),
                compare: Some(guarded(dl, now)),
                disable: false,
                release: false,
            },
            Tx { phase: t.phase + 1, dl, acc, ..t },
        )
    } else if t.queue.len() > 0 {
        (
            Tick {
                line: Some(false),
                compare: Some(guarded(dl, now)),
                disable: false,
                release: false,
            },
            Tx { cur: t.queue[0], phase: 0, queue: t.queue.skip(1), dl, acc, ..t },
        )
    } else {
        (
            Tick { line: None, compare: None, disable: true, release: true },
            Tx { running: false, frames: bumped(t.frames), ..t },
        )
    }
}

impl SoftUart {
    /// The phase and the remainder are in range.
    pub closed spec fn wf(&self) -> bool {
        self.phase <= 9 && self.acc < BAUD && self.ring.wf()
    }

    /// Nothing to send.
    pub fn new() -> (r: SoftUart)
        ensures
            r.wf(),
            r@ == (Tx {
                running: false,
                cur: 0,
                phase: 0,
                acc: 0,
                dl: 0,
                frames: 0,
                queue: Seq::empty(),
                lost: 0,
            }),
    {
        SoftUart {
            running: false,
            cur: 0,
            phase: 0,
            acc: 0,
            dl: 0,
            frames: 0,
            ring: TxRing::new(),
        }
    }

    /// Queues bytes, as many as fit, and says whether the transmitter has to
    /// be started. The others are dropped and counted.
    pub fn send(&mut self, bytes: &[u8]) -> (r: Sent)
        requires
            old(self).wf(),
        ensures
            final(self).wf(),
            ({
                let room = RING_CAP - old(self)@.queue.len();
                let n = if bytes@.len() <= room {
                    bytes@.len() as int
                } else {
                    room
                };
                &&& r.accepted == n
                &&& r.start == (bytes@.len() > 0 && !old(self)@.running)
                &&& final(self)@ == (Tx {
                    queue: old(self)@.queue + bytes@.take(n),
                    lost: plus(old(self)@.lost, bytes@.len() - n),
                    ..old(self)@
                })
            }),
    {
        let ghost q = self.ring@;
        let mut n: usize = 0;
        let mut i: usize = 0;
        proof {
            assert(q + bytes@.take(0) =~= q);
        }
        while i < bytes.len()
            invariant
                n <= i <= bytes@.len(),
                self.wf(),
                q == old(self)@.queue,
                q.len() + n <= 128,
                n < i ==> q.len() + n == 128,
                self@ == (Tx {
                    queue: q + bytes@.take(n as int),
                    lost: plus(old(self)@.lost, i - n),
                    ..old(self)@
                }),
            decreases bytes@.len() - i,
        {
            let b: u8 = bytes[i];
            if self.ring.push(b) {
                proof {
                    assert((q + bytes@.take(n as int)).push(b) =~= q + bytes@.take(n + 1));
                }
                n = n + 1;
            }
            i = i + 1;
        }
        Sent { accepted: n, start: bytes.len() > 0 && !self.running }
    }

    /// Starts the transmitter at counter value `now`: the start bit is put on
    /// the line at once, and the comparator is set to the value returned, which
    /// is ahead of `later`, a reading made just before it is written. `None` when
    /// nothing waits.
    pub fn kick(&mut self, now: u32, later: u32) -> (r: Option<u32>)
        requires
            old(self).wf(),
            !old(self)@.running,
        ensures
            final(self).wf(),
            if old(self)@.queue.len() > 0 {
                let dl = plus(now, 17);
                &&& r == Some(guarded(dl, later))
                &&& final(self)@ == (Tx {
                    running: true,
                    cur: old(self)@.queue[0],
                    phase: 0,
                    acc: 41_600,
                    dl,
                    queue: old(self)@.queue.skip(1),
                    ..old(self)@
                })
            } else {
                r is None && final(self)@ == old(self)@
            },
    {
        match self.ring.pop() {
            None => None,
            Some(b) => {
                self.cur = b;
                self.phase = 0;
                let (dl, acc) = step_bit(now, 0);
                self.dl = dl;
                self.acc = acc;
                self.running = true;
                Some(match_guarded(dl, later))
            },
        }
    }

    /// The timer interrupt came, at counter value `now`.
    pub fn on_timer_irq(&mut self, now: u32) -> (r: Tick)
        requires
            old(self).wf(),
        ensures
            final(self).wf(),
            (r, final(self)@) == ticked(old(self)@, now),
    {
        if !self.running {
            return Tick { line: None, compare: None, disable: true, release: false };
        }
        let phase: u8 = self.phase + 1;
        let line = if phase <= 8 {
            let bit: u8 = (self.cur >> (phase - 1)) & 1;
            self.phase = phase;
            bit == 1
        } else if phase == 9 {
            self.phase = phase;
            true
        } else {
            match self.ring.pop() {
                Some(b) => {
                    self.cur = b;
                    self.phase = 0;
                    false
                },
                None => {
                    self.running = false;
                    self.frames = self.frames.wrapping_add(1);
                    return Tick { line: None, compare: None, disable: true, release: true };
                },
            }
        };
        let (dl, acc) = step_bit(self.dl, self.acc);
        self.dl = dl;
        self.acc = acc;
        Tick {
            line: Some(line),
            compare: Some(match_guarded(dl, now)),
            disable: false,
            release: false,
        }
    }

    /// Whether nothing is being sent and nothing waits.
    pub fn idle(&self) -> (r: bool)
        ensures
            r == (!self@.running && self@.queue.len() == 0),
    {
        !self.running && self.ring.is_empty()
    }

    /// Times that everything was sent, and bytes that found no room.
    pub fn stats(&self) -> (r: (u32, u32))
        ensures
            r == (self@.frames, self@.lost),
    {
        (self.frames, self.ring.dropped_count())
    }
}

impl TxRing {
    /// Bytes that found no room.
    pub fn dropped_count(&self) -> (r: u32)
        ensures
            r == self.lost(),
    {
        self.dropped
    }
}

/// The eight data levels of a byte, weighed by their place, give the byte
/// back; the start bit before them is low and the stop bit after them high.
pub proof fn law_waveform(b: u8)
    ensures
        !level(b, 0),
        level(b, 9),
        b == weigh(level(b, 1), 1) + weigh(level(b, 2), 2) + weigh(level(b, 3), 4) + weigh(
            level(b, 4),
            8,
        ) + weigh(level(b, 5), 16) + weigh(level(b, 6), 32) + weigh(level(b, 7), 64) + weigh(
            level(b, 8),
            128,
        ),
{
    assert(b == ((b >> 0u8) & 1) + 2 * ((b >> 1u8) & 1) + 4 * ((b >> 2u8) & 1) + 8 * ((b >> 3u8) & 1)
        + 16 * ((b >> 4u8) & 1) + 32 * ((b >> 5u8) & 1) + 64 * ((b >> 6u8) & 1) + 128 * ((b >> 7u8)
        & 1)) by (bit_vector);
    assert(forall|k: u8| #![trigger b >> k] (b >> k) & 1 == 0 || (b >> k) & 1 == 1)
        by (bit_vector);
}

/// The weight of a level.
pub open spec fn weigh(high: bool, w: int) -> int {
    if high {
        w
    } else {
        0
    }
}

/// What a series of interrupts puts on the line, and the transmitter after
/// them.
pub open spec fn ticked_all(t: Tx, nows: Seq<u32>) -> (Seq<Option<bool>>, Tx)
    decreases nows.len(),
{
    if nows.len() == 0 {
        (seq![], t)
    } else {
        let (lines, u) = ticked_all(t, nows.drop_last());
        let (k, v) = ticked(u, nows.last());
        (lines.push(k.line), v)
    }
}

/// After its start bit, a byte takes nine interrupts: each puts the next level
/// of the byte on the line, the last one the stop bit, and no byte that waits
/// is touched meanwhile.
pub proof fn law_byte_is_sent(t: Tx, nows: Seq<u32>)
    requires
        t.running,
        t.phase == 0,
        nows.len() <= 9,
    ensures
        ({
            let (lines, u) = ticked_all(t, nows);
            &&& lines.len() == nows.len()
            &&& forall|i: int|
                0 <= i < lines.len() ==> #[trigger] lines[i] == Some(level(t.cur, i + 1))
            &&& u.running && u.cur == t.cur && u.phase == nows.len()
            &&& u.queue == t.queue
        }),
    decreases nows.len(),
{
    if nows.len() > 0 {
        law_byte_is_sent(t, nows.drop_last());
    }
}

/// The writes that set the pin and the timer up, from what their registers
/// hold.
pub fn probe_writes(pdr: u32, cmr: u32, cer: u32, ier: u32) -> (r: Vec<RegWrite>)
    ensures
        r@ == seq![
            RegWrite { addr: (RGPIO_BASE + GPIO_PDR) as u64, value: pdr | LINE_BIT },
            RegWrite { addr: (RGPIO_BASE + GPIO_PSR) as u64, value: LINE_BIT },
            RegWrite { addr: (AON_TMR1_BASE + TMR_CMR) as u64, value: cmr | 2 },
            RegWrite { addr: (AON_TMR1_BASE + TMR_PLCR1) as u64, value: 0 },
            RegWrite { addr: (AON_TMR1_BASE + TMR_CER) as u64, value: cer | 2 },
            RegWrite { addr: (AON_TMR1_BASE + TMR_ICR1) as u64, value: 1 },
            RegWrite { addr: (AON_TMR1_BASE + TMR_IER1) as u64, value: ier & !1u32 },
        ],
{
    let mut out: Vec<RegWrite> = Vec::new();
    out.push(RegWrite { addr: RGPIO_BASE + GPIO_PDR, value: pdr | LINE_BIT });
    out.push(RegWrite { addr: RGPIO_BASE + GPIO_PSR, value: LINE_BIT });
    out.push(RegWrite { addr: AON_TMR1_BASE + TMR_CMR, value: cmr | 2 });
    out.push(RegWrite { addr: AON_TMR1_BASE + TMR_PLCR1, value: 0 });
    out.push(RegWrite { addr: AON_TMR1_BASE + TMR_CER, value: cer | 2 });
    out.push(RegWrite { addr: AON_TMR1_BASE + TMR_ICR1, value: 1 });
    out.push(RegWrite { addr: AON_TMR1_BASE + TMR_IER1, value: ier & !1u32 });
    out
}

/// The write that puts a level on the line.
pub fn set_line(high: bool) -> (r: RegWrite)
    ensures
        r == (RegWrite {
            addr: (RGPIO_BASE + (if high {
                GPIO_PSR
            } else {
                GPIO_PCR
            })) as u64,
            value: LINE_BIT,
        }),
{
    if high {
        RegWrite { addr: RGPIO_BASE + GPIO_PSR, value: LINE_BIT }
    } else {
        RegWrite { addr: RGPIO_BASE + GPIO_PCR, value: LINE_BIT }
    }
}

} // verus!
