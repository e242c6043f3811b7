//! The serial ports of the real-time domain.
//!
//! The ports keep the order in which the device tree names them: the console
//! first, then the chassis, then the arm.

use crate::chip::reg::RegWrite;
use vstd::prelude::*;

verus! {

/// Number of ports.
pub const PORT_COUNT: usize = 3;

/// Divisor for 115200 baud: 14.48 MHz / (16 * 115200).
pub const DIVISOR: u32 = 8;

/// Data register; low half of the divisor while the latch is open.
pub const THR: u64 = 0x00;

/// Interrupt enable; high half of the divisor while the latch is open.
pub const IER: u64 = 0x04;

/// Control of the queues.
pub const FCR: u64 = 0x08;

/// Line control.
pub const LCR: u64 = 0x0c;

/// Modem control.
pub const MCR: u64 = 0x10;

/// Line status.
pub const LSR: u64 = 0x14;

/// Line control: the divisor latch is open.
pub const LCR_DLAB: u32 = 0x80;

/// Line control: eight data bits, no parity, one stop bit.
pub const LCR_8N1: u32 = 0x03;

/// Queue control: both queues enabled and emptied.
pub const FCR_ENABLE_CLEAR: u32 = 0x07;

/// Interrupt enable: the unit itself is on.
pub const IER_UUE: u32 = 0x40;

/// Modem control: the second output.
pub const MCR_OUT2: u32 = 0x08;

/// Status: a byte was received.
pub const LSR_DR: u32 = 0x01;

/// Status: the data register takes a byte.
pub const LSR_THRE: u32 = 0x20;

/// Status: the last byte has left the line.
pub const LSR_TEMT: u32 = 0x40;

/// A write to the register at `offset` of the port at `base`.
pub open spec fn reg(base: u64, offset: u64, value: u32) -> RegWrite {
    RegWrite { addr: (base + offset) as u64, value }
}

/// The writes that set a port up for a divisor: open the latch, store both
/// halves of the divisor, close the latch, empty the queues, and only then turn
/// the unit on.
pub open spec fn line_setup_of(base: u64, divisor: u32) -> Seq<RegWrite> {
    seq![
        reg(base, LCR, LCR_DLAB),
        reg(base, THR, divisor % 256),
        reg(base, IER, (divisor / 256) % 256),
        reg(base, LCR, LCR_8N1),
        reg(base, FCR, FCR_ENABLE_CLEAR),
        reg(base, IER, IER_UUE),
        reg(base, MCR, MCR_OUT2),
    ]
}

/// The writes that set the port at `base` up.
pub fn line_setup(base: u64, divisor: u32) -> (writes: Vec<RegWrite>)
    requires
        base + MCR <= u64::MAX,
    ensures
        writes@ == line_setup_of(base, divisor),
{
    let writes = vec![
        RegWrite { addr: base + LCR, value: LCR_DLAB },
        RegWrite { addr: base + THR, value: divisor % 256 },
        RegWrite { addr: base + IER, value: (divisor / 256) % 256 },
        RegWrite { addr: base + LCR, value: LCR_8N1 },
        RegWrite { addr: base + FCR, value: FCR_ENABLE_CLEAR },
        RegWrite { addr: base + IER, value: IER_UUE },
        RegWrite { addr: base + MCR, value: MCR_OUT2 },
    ];
    assert(writes@ =~= line_setup_of(base, divisor));
    writes
}

/// The divisor that a port holds after a series of writes: what was last
/// written to the data and the enable register while the latch was open.
pub open spec fn latched(base: u64, writes: Seq<RegWrite>, open: bool, low: u32, high: u32) -> int
    decreases writes.len(),
{
    if writes.len() == 0 {
        high * 256 + low
    } else {
        let w = writes[0];
        let rest = writes.drop_first();
        if w.addr == base + LCR {
            latched(base, rest, w.value == LCR_DLAB, low, high)
        } else if open && w.addr == base + THR {
            latched(base, rest, open, w.value, high)
        } else if open && w.addr == base + IER {
            latched(base, rest, open, low, w.value)
        } else {
            latched(base, rest, open, low, high)
        }
    }
}

/// Whatever a port held before, its divisor after the setup is the one that was
/// asked for, if that fits in the two registers.
pub proof fn law_setup_latches_divisor(base: u64, divisor: u32, low: u32, high: u32)
    requires
        base + MCR <= u64::MAX,
        divisor <= 0xffff,
    ensures
        latched(base, line_setup_of(base, divisor), false, low, high) == divisor,
{
    let s = line_setup_of(base, divisor);
    reveal_with_fuel(latched, 8);
    let s1 = s.drop_first();
    let s2 = s1.drop_first();
    let s3 = s2.drop_first();
    let s4 = s3.drop_first();
    let s5 = s4.drop_first();
    let s6 = s5.drop_first();
    assert(s6.drop_first().len() == 0);
    assert(s1[0] == s[1] && s2[0] == s[2] && s3[0] == s[3]);
    assert(s4[0] == s[4] && s5[0] == s[5] && s6[0] == s[6]);
}

/// The ports that were found so far.
pub struct Ports {
    bases: [u64; 3],
}

/// A port that was found.
#[derive(Debug, Clone, Copy, PartialEq, Eq, Structural)]
pub struct PxaUart {
    slot: usize,
    base: u64,
}

/// The driver that is told of the ports.
pub struct PxaUartDriver;

impl View for Ports {
    type V = Seq<u64>;

    /// The base of each port; 0 where none was found yet.
    closed spec fn view(&self) -> Seq<u64> {
        self.bases@
    }
}

/// The first free place is `slot`.
pub open spec fn first_free(bases: Seq<u64>, slot: int) -> bool {
    &&& 0 <= slot < bases.len()
    &&& bases[slot] == 0
    &&& forall|i: int| 0 <= i < slot ==> bases[i] != 0
}

impl Ports {
    /// No port was found.
    pub fn new() -> (r: Self)
        ensures
            r@ == seq![0u64, 0, 0],
    {
        let r = Ports { bases: [0, 0, 0] };
        assert(r.bases@ =~= seq![0u64, 0, 0]);
        r
    }

    /// The port in a place, if one was found there.
    pub fn port(&self, slot: usize) -> (r: Option<PxaUart>)
        ensures
            self@.len() == PORT_COUNT,
            r is Some <==> slot < PORT_COUNT && self@[slot as int] != 0,
            r is Some ==> r->0.at() == self@[slot as int] && r->0.place() == slot,
    {
        if slot < PORT_COUNT && self.bases[slot] != 0 {
            Some(PxaUart { slot, base: self.bases[slot] })
        } else {
            None
        }
    }
}

impl PxaUartDriver {
    /// The device that the driver serves.
    pub fn compatible(&self) -> (r: &'static str)
        ensures
            r@ == "spacemit,pxa-uart0"@,
    {
        "spacemit,pxa-uart0"
    }

    /// A port was found at `base`: it gets the first free place, if there is
    /// one. The writes set it up.
    pub fn probe(&self, ports: &mut Ports, base: u64) -> (r: Option<(PxaUart, Vec<RegWrite>)>)
        requires
            base + MCR <= u64::MAX,
        ensures
            old(ports)@.len() == PORT_COUNT,
            final(ports)@.len() == PORT_COUNT,
            r is None <==> (forall|i: int| 0 <= i < PORT_COUNT ==> old(ports)@[i] != 0),
            r is None ==> final(ports)@ == old(ports)@,
            match r {
                None => true,
                Some((port, writes)) => {
                    &&& first_free(old(ports)@, port.place() as int)
                    &&& port.at() == base
                    &&& writes@ == line_setup_of(base, DIVISOR)
                    &&& final(ports)@ == old(ports)@.update(port.place() as int, base)
                },
            },
    {
        let mut slot: usize = 0;
        while slot < PORT_COUNT
            invariant
                slot <= PORT_COUNT,
                ports@ == old(ports)@,
                ports@.len() == PORT_COUNT,
                base + MCR <= u64::MAX,
                forall|i: int| 0 <= i < slot ==> ports@[i] != 0,
            decreases PORT_COUNT - slot,
        {
            if ports.bases[slot] == 0 {
                assert(ports@[slot as int] == 0);
                ports.bases[slot] = base;
                return Some((PxaUart { slot, base }, line_setup(base, DIVISOR)));
            }
            slot = slot + 1;
        }
        None
    }
}

/// The text that goes out for a text: each line feed is preceded by a carriage
/// return.
pub open spec fn terminal(text: Seq<u8>) -> Seq<u8>
    decreases text.len(),
{
    if text.len() == 0 {
        seq![]
    } else {
        let before = terminal(text.drop_last());
        if text.last() == 10 {
            before.push(13).push(10)
        } else {
            before.push(text.last())
        }
    }
}

impl PxaUart {
    /// Base of the registers.
    pub closed spec fn at(&self) -> u64 {
        self.base
    }

    /// The place of the port.
    pub closed spec fn place(&self) -> usize {
        self.slot
    }

    /// The place of the port.
    pub fn slot(&self) -> (r: usize)
        ensures
            r == self.place(),
    {
        self.slot
    }

    /// Base of the registers.
    pub fn base(&self) -> (r: u64)
        ensures
            r == self.at(),
    {
        self.base
    }

    /// What a poll does about the next byte of a frame: it is written where the
    /// status `lsr` says that the data register takes a byte, and waits
    /// otherwise. The byte goes out as it is.
    pub fn write_raw(&self, lsr: u32, byte: u8) -> (r: Option<RegWrite>)
        requires
            self.at() + THR <= u64::MAX,
        ensures
            r == if lsr & LSR_THRE != 0 {
                Some(reg(self.at(), THR, byte as u32))
            } else {
                None
            },
    {
        if lsr & LSR_THRE != 0 {
            Some(RegWrite { addr: self.base + THR, value: byte as u32 })
        } else {
            None
        }
    }

    /// The bytes that are written raw, in order, for a text.
    pub fn write(&self, text: &[u8]) -> (out: Vec<u8>)
        ensures
            out@ == terminal(text@),
    {
        let mut out: Vec<u8> = Vec::new();
        let mut i: usize = 0;
        while i < text.len()
            invariant
                i <= text@.len(),
                out@ == terminal(text@.take(i as int)),
            decreases text@.len() - i,
        {
            assert(text@.take(i + 1).drop_last() =~= text@.take(i as int));
            if text[i] == 10 {
                out.push(13);
            }
            out.push(text[i]);
            i = i + 1;
        }
        assert(text@.take(text@.len() as int) =~= text@);
        out
    }

    /// Whether the status `lsr` says that a byte was received.
    pub fn has_data(&self, lsr: u32) -> (r: bool)
        ensures
            r == (lsr & LSR_DR != 0),
    {
        lsr & LSR_DR != 0
    }

    /// The byte received, if the status `lsr` says that there is one: the low
    /// byte of what the data register, which is read only then, gave.
    pub fn read_raw(&self, lsr: u32, data: u32) -> (r: Option<u8>)
        ensures
            r == if lsr & LSR_DR != 0 {
                Some((data % 256) as u8)
            } else {
                None
            },
    {
        if self.has_data(lsr) {
            Some((data % 256) as u8)
        } else {
            None
        }
    }
}

/// A text without line feeds goes out as it is.
pub proof fn law_plain_text_unchanged(text: Seq<u8>)
    requires
        forall|i: int| 0 <= i < text.len() ==> text[i] != 10,
    ensures
        terminal(text) == text,
    decreases text.len(),
{
    if text.len() > 0 {
        law_plain_text_unchanged(text.drop_last());
        assert(text.drop_last().push(text.last()) =~= text);
    } else {
        assert(terminal(text) =~= text);
    }
}

} // verus!
