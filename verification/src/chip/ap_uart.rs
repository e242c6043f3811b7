//! A serial transmitter of the application processor's domain that this core
//! uses.
//!
//! Its clock may come from either of two dividers, and the other side may take
//! its pin away at any time: both are looked at before bytes are sent.

use crate::chip::pxa_uart::{line_setup, LSR_TEMT, LSR_THRE, THR};
use crate::chip::reg::{RegStep, RegWrite};
use vstd::prelude::*;

verus! {

/// Base of the registers.
pub const BASE: u64 = 0xd401_7400;

/// Clock and reset of this port.
pub const APBC_UART5: u64 = 0xd401_5074;

/// Clock and reset of the console, whose source is known to be alive.
pub const APBC_UART0: u64 = 0xd401_5000;

/// The first divider, from 153.6 MHz.
pub const MPMU_SUCCR: u64 = 0xd405_0014;

/// The second divider, from 614.4 MHz.
pub const MPMU_SUCCR_1: u64 = 0xd405_10b0;

/// Input of the first divider.
pub const FIN_1: u64 = 153_600_000;

/// Input of the second divider.
pub const FIN_2: u64 = 614_400_000;

/// The first divider at 24 / 250 of its input.
pub const SUCCR_14P7456M: u32 = 0x007d_0018;

/// Input of one baud unit: 16 * 115200 Hz.
pub const UNIT: u64 = 1_843_200;

/// Multiplexer of the pin.
pub const PAD83: u64 = 0xd401_e14c;

/// Value of the multiplexer with which the pin is the transmitter's.
pub const PAD83_EXPECT: u32 = 0xd044;

/// Most times that a status is read in one wait.
pub const POLL_LIMIT: u32 = 200_000;

/// The output of a divider whose register holds `reg` and whose input is `fin`
/// Hz: `fin * den / (2 * num)`, and nothing where either number is 0.
pub open spec fn rate(reg: u32, fin: u64) -> int {
    let num = (reg / 65536) % 8192;
    let den = reg % 8192;
    if num == 0 || den == 0 {
        0
    } else {
        fin * den / (2 * num)
    }
}

/// The output of a divider.
pub fn ddn_rate(reg: u32, fin_hz: u64) -> (r: u64)
    requires
        fin_hz * 8191 <= u64::MAX,
    ensures
        r == rate(reg, fin_hz),
{
    let num: u64 = ((reg / 65536) % 8192) as u64;
    let den: u64 = (reg % 8192) as u64;
    if num == 0 || den == 0 {
        return 0;
    }
    assert(fin_hz * den <= fin_hz * 8191) by (nonlinear_arith)
        requires
            den <= 8191,
    ;
    fin_hz * den / (2 * num)
}

/// `dll` is the divisor for a clock of `f` Hz: the nearest whole number of baud
/// units, which fits in the two registers and is off by at most two percent.
pub open spec fn fits(f: int, dll: int) -> bool {
    &&& 1 <= dll <= 0xffff
    &&& dll * UNIT - UNIT / 2 <= f < dll * UNIT + UNIT / 2
    &&& 50 * (f - dll * UNIT) <= f
    &&& 50 * (dll * UNIT - f) <= f
}

/// The divisor for a clock of `f` Hz, where there is one.
pub open spec fn divisor(f: int) -> Option<u32> {
    let dll = (f + 921_600) / 1_843_200;
    if fits(f, dll) {
        Some(dll as u32)
    } else {
        None
    }
}

/// The divisor for a clock of `f` Hz.
pub fn dll_for(f: u64) -> (r: Option<u32>)
    requires
        f + UNIT / 2 <= u64::MAX,
    ensures
        r == divisor(f as int),
        match r {
            Some(dll) => fits(f as int, dll as int),
            None => forall|dll: int| #![trigger fits(f as int, dll)] !fits(f as int, dll),
        },
{
    proof {
        assert forall|dll: int| #[trigger] fits(f as int, dll) implies dll == (f + 921_600)
            / 1_843_200 by {}
    }
    if f == 0 {
        return None;
    }
    let dll: u64 = (f + 921_600) / 1_843_200;
    if dll == 0 || dll > 0xffff {
        return None;
    }
    let whole: u64 = dll * 1_843_200;
    let err: u64 = if f >= whole { f - whole } else { whole - f };
    if err * 50 > f {
        return None;
    }
    Some(dll as u32)
}

/// Where the clock of the port comes from.
#[derive(Debug, Clone, Copy, PartialEq, Eq, Structural)]
pub enum Source {
    /// The console's source, which is alive.
    Console,
    /// A divider that runs at a rate that fits.
    Alive,
    /// Neither: the first divider is programmed.
    Programmed,
}

/// The clock of the port.
#[derive(Debug, Clone, Copy, PartialEq, Eq, Structural)]
pub struct Clock {
    /// The divider: 1 or 2.
    pub sel: u32,
    /// The divisor of the port.
    pub dll: u32,
    /// Why this divider.
    pub source: Source,
}

/// The clock that is chosen, given the console's register and both dividers.
pub open spec fn chosen(apbc0: u32, succr: u32, succr_1: u32) -> Clock {
    let one = divisor(rate(succr, FIN_1));
    let two = divisor(rate(succr_1, FIN_2));
    let console = (apbc0 / 16) % 8;
    if console == 1 && one is Some {
        Clock { sel: 1, dll: one->0, source: Source::Console }
    } else if console == 2 && two is Some {
        Clock { sel: 2, dll: two->0, source: Source::Console }
    } else if one is Some {
        Clock { sel: 1, dll: one->0, source: Source::Alive }
    } else if two is Some {
        Clock { sel: 2, dll: two->0, source: Source::Alive }
    } else {
        Clock { sel: 1, dll: 8, source: Source::Programmed }
    }
}

proof fn lemma_rate_bound(reg: u32, fin: u64)
    requires
        fin <= FIN_2,
    ensures
        0 <= rate(reg, fin) <= 614_400_000 * 8191,
{
    let num = ((reg / 65536) % 8192) as int;
    let den = (reg % 8192) as int;
    if num != 0 && den != 0 {
        assert(0 <= fin * den <= 614_400_000 * 8191) by (nonlinear_arith)
            requires
                0 <= fin <= 614_400_000,
                0 <= den <= 8191,
        ;
        let p = fin * den;
        let q = 2 * num;
        assert(0 <= p / q <= p) by (nonlinear_arith)
            requires
                0 <= p,
                q >= 1,
        ;
    }
}

/// The clock that is chosen: the console's divider where it fits, else any
/// divider that fits, the first one before the second, else the first one,
/// programmed.
pub fn choose_clock(apbc0: u32, succr: u32, succr_1: u32) -> (r: Clock)
    ensures
        r == chosen(apbc0, succr, succr_1),
{
    proof {
        lemma_rate_bound(succr, FIN_1);
        lemma_rate_bound(succr_1, FIN_2);
    }
    let one: Option<u32> = dll_for(ddn_rate(succr, FIN_1));
    let two: Option<u32> = dll_for(ddn_rate(succr_1, FIN_2));
    let console: u32 = (apbc0 / 16) % 8;
    if console == 1 {
        if let Some(dll) = one {
            return Clock { sel: 1, dll, source: Source::Console };
        }
    } else if console == 2 {
        if let Some(dll) = two {
            return Clock { sel: 2, dll, source: Source::Console };
        }
    }
    if let Some(dll) = one {
        return Clock { sel: 1, dll, source: Source::Alive };
    }
    if let Some(dll) = two {
        return Clock { sel: 2, dll, source: Source::Alive };
    }
    Clock { sel: 1, dll: 8, source: Source::Programmed }
}

/// The rate of the divider that a clock uses, once it was programmed if need
/// be.
pub open spec fn source_rate(c: Clock, succr: u32, succr_1: u32) -> int {
    if c.source == Source::Programmed {
        rate(SUCCR_14P7456M, FIN_1)
    } else if c.sel == 1 {
        rate(succr, FIN_1)
    } else {
        rate(succr_1, FIN_2)
    }
}

/// Whatever the registers hold, the clock that is chosen gives 115200 baud to
/// within two percent.
pub proof fn law_baud_within_two_percent(apbc0: u32, succr: u32, succr_1: u32)
    ensures
        ({
            let c = chosen(apbc0, succr, succr_1);
            fits(source_rate(c, succr, succr_1), c.dll as int)
        }),
{
    law_programmed_rate_exact();
}

/// The rate that the first divider is programmed to is eight baud units without
/// any error.
pub proof fn law_programmed_rate_exact()
    ensures
        rate(SUCCR_14P7456M, FIN_1) == 8 * UNIT,
{
    assert((SUCCR_14P7456M / 65536) % 8192 == 125);
    assert(SUCCR_14P7456M % 8192 == 24);
    assert(153_600_000int * 24 / 250 == 14_745_600);
}

/// The pin was taken away: it is multiplexed back.
pub fn pad83_heal(pad: u32) -> (r: Option<RegWrite>)
    ensures
        r == if pad == PAD83_EXPECT {
            None
        } else {
            Some(RegWrite { addr: PAD83, value: PAD83_EXPECT })
        },
{
    if pad != PAD83_EXPECT {
        Some(RegWrite { addr: PAD83, value: PAD83_EXPECT })
    } else {
        None
    }
}

/// Spins between holding the reset and releasing it.
pub const RESET_SPINS: u32 = 16;

/// The steps that bring the port up with a clock: program the divider if need
/// be, open both gates with the reset held, wait a little, release the reset, and
/// set the line up.
pub open spec fn bring_up(c: Clock) -> Seq<RegStep> {
    let on = c.sel * 16 + 3;
    let program = RegStep::Write(RegWrite { addr: MPMU_SUCCR, value: SUCCR_14P7456M });
    let gates = seq![
        RegStep::Write(RegWrite { addr: APBC_UART5, value: (on + 4) as u32 }),
        RegStep::Spin(RESET_SPINS),
        RegStep::Write(RegWrite { addr: APBC_UART5, value: on as u32 }),
    ];
    (if c.source == Source::Programmed { seq![program] } else { seq![] }) + gates
        + crate::chip::pxa_uart::line_setup_of(BASE, c.dll).map_values(
        |w: RegWrite| RegStep::Write(w),
    )
}

/// The transmitter.
pub struct ApUart {
    inited: bool,
}

/// A transfer that is under way.
#[derive(Debug, Clone, Copy, PartialEq, Eq, Structural)]
pub struct Transfer {
    /// Bytes written.
    pub pos: usize,
    /// Times that the status was read in this wait.
    pub spins: u32,
}

/// What comes next in a transfer.
#[derive(Debug, Clone, Copy, PartialEq, Eq, Structural)]
pub enum Step {
    /// Read the status again.
    Poll,
    /// Write a byte, then read the status again.
    Put(RegWrite),
    /// The transfer is over; this many bytes were sent.
    Done(usize),
}

/// One step of a transfer: with bytes left, a byte is written once the data
/// register takes one; with none left, the transfer is over once the line is
/// idle. A wait that lasts too long ends the transfer with nothing sent.
pub open spec fn step(t: Transfer, buf: Seq<u8>, lsr: u32) -> (Transfer, Step) {
    let ready = if t.pos < buf.len() {
        lsr & LSR_THRE != 0
    } else {
        lsr & LSR_TEMT != 0
    };
    if ready {
        if t.pos < buf.len() {
            let put = RegWrite { addr: BASE, value: buf[t.pos as int] as u32 };
            (Transfer { pos: (t.pos + 1) as usize, spins: 0 }, Step::Put(put))
        } else {
            (t, Step::Done(buf.len() as usize))
        }
    } else if t.spins + 1 >= POLL_LIMIT {
        (t, Step::Done(0))
    } else {
        (Transfer { spins: (t.spins + 1) as u32, ..t }, Step::Poll)
    }
}

impl ApUart {
    /// Whether the port was brought up.
    pub closed spec fn ready(&self) -> bool {
        self.inited
    }

    /// A port that was not brought up.
    pub fn new() -> (r: Self)
        ensures
            !r.ready(),
    {
        ApUart { inited: false }
    }

    /// The device that the driver serves.
    pub fn compatible(&self) -> (r: &'static str)
        ensures
            r@ == "spacemit,k3-ap-uart"@,
    {
        "spacemit,k3-ap-uart"
    }

    /// Brings the port up, given the console's clock register and both
    /// dividers.
    pub fn probe(&mut self, apbc0: u32, succr: u32, succr_1: u32) -> (r: (Clock, Vec<RegStep>))
        ensures
            final(self).ready(),
            r.0 == chosen(apbc0, succr, succr_1),
            r.1@ == bring_up(r.0),
    {
        let c = choose_clock(apbc0, succr, succr_1);
        let mut steps: Vec<RegStep> = Vec::new();
        if c.source == Source::Programmed {
            steps.push(RegStep::Write(RegWrite { addr: MPMU_SUCCR, value: SUCCR_14P7456M }));
        }
        let on: u32 = c.sel * 16 + 3;
        steps.push(RegStep::Write(RegWrite { addr: APBC_UART5, value: on + 4 }));
        steps.push(RegStep::Spin(RESET_SPINS));
        steps.push(RegStep::Write(RegWrite { addr: APBC_UART5, value: on }));
        let line = line_setup(BASE, c.dll);
        let ghost before = steps@;
        let mut i: usize = 0;
        while i < line.len()
            invariant
                i <= line@.len(),
                steps@ == before + line@.take(i as int).map_values(
                    |w: RegWrite| RegStep::Write(w),
                ),
            decreases line@.len() - i,
        {
            let ghost so_far = steps@;
            steps.push(RegStep::Write(line[i]));
            proof {
                assert(line@.take(i + 1) =~= line@.take(i as int).push(line@[i as int]));
                assert(steps@ =~= before + line@.take(i + 1).map_values(
                    |w: RegWrite| RegStep::Write(w),
                ));
            }
            i = i + 1;
        }
        self.inited = true;
        proof {
            assert(line@.take(i as int) =~= line@);
            assert(steps@ =~= bring_up(c));
        }
        (c, steps)
    }

    /// Starts a transfer, if the port was brought up. The pin is looked at
    /// first: see [`pad83_heal`].
    pub fn send(&self) -> (r: Option<Transfer>)
        ensures
            r == if self.ready() {
                Some(Transfer { pos: 0, spins: 0 })
            } else {
                None
            },
    {
        if self.inited {
            Some(Transfer { pos: 0, spins: 0 })
        } else {
            None
        }
    }
}

impl Transfer {
    /// One step of the transfer of `buf`, given the status.
    pub fn advance(&mut self, buf: &[u8], lsr: u32) -> (r: Step)
        requires
            old(self).spins < POLL_LIMIT,
        ensures
            (*final(self), r) == step(*old(self), buf@, lsr),
            final(self).spins < POLL_LIMIT,
    {
        if self.pos < buf.len() {
            if lsr & LSR_THRE != 0 {
                let put = RegWrite { addr: BASE + THR, value: buf[self.pos] as u32 };
                self.pos = self.pos + 1;
                self.spins = 0;
                return Step::Put(put);
            }
        } else if lsr & LSR_TEMT != 0 {
            return Step::Done(buf.len());
        }
        if self.spins + 1 >= POLL_LIMIT {
            return Step::Done(0);
        }
        self.spins = self.spins + 1;
        Step::Poll
    }
}

/// The bytes that a transfer writes while the statuses are read one after the
/// other, and how many bytes it reports once it is over.
pub open spec fn transferred(t: Transfer, buf: Seq<u8>, statuses: Seq<u32>) -> (Seq<u32>, Option<
    usize,
>)
    decreases statuses.len(),
{
    if statuses.len() == 0 {
        (seq![], None)
    } else {
        let (next, s) = step(t, buf, statuses[0]);
        match s {
            Step::Done(n) => (seq![], Some(n)),
            Step::Poll => transferred(next, buf, statuses.drop_first()),
            Step::Put(w) => {
                let (written, n) = transferred(next, buf, statuses.drop_first());
                (seq![w.value] + written, n)
            },
        }
    }
}

/// What is written are the bytes from the transfer's place on, in order and
/// none twice; a transfer reports all bytes only where all were written, and
/// none otherwise.
pub proof fn law_transfer_in_order(t: Transfer, buf: Seq<u8>, statuses: Seq<u32>)
    requires
        t.pos <= buf.len() <= usize::MAX,
        t.spins < POLL_LIMIT,
    ensures
        ({
            let (written, n) = transferred(t, buf, statuses);
            &&& t.pos + written.len() <= buf.len()
            &&& forall|i: int|
                0 <= i < written.len() ==> #[trigger] written[i] == buf[t.pos + i] as u32
            &&& n is Some ==> n->0 == 0 || (n->0 == buf.len() && t.pos + written.len()
                == buf.len())
        }),
    decreases statuses.len(),
{
    if statuses.len() > 0 {
        let (next, s) = step(t, buf, statuses[0]);
        match s {
            Step::Done(n) => {},
            Step::Poll => law_transfer_in_order(next, buf, statuses.drop_first()),
            Step::Put(w) => {
                law_transfer_in_order(next, buf, statuses.drop_first());
                let (rest, n) = transferred(next, buf, statuses.drop_first());
                let written = seq![w.value] + rest;
                assert forall|i: int| 0 <= i < written.len() implies #[trigger] written[i] == buf[
                    t.pos + i
                ] as u32 by {
                    if i > 0 {
                        assert(written[i] == rest[i - 1]);
                        assert(next.pos + (i - 1) == t.pos + i);
                    }
                }
            },
        }
    }
}

/// A transfer ends, whatever the statuses say: each byte, and the last wait,
/// takes at most as many of them as one wait may.
pub proof fn law_transfer_ends(t: Transfer, buf: Seq<u8>, statuses: Seq<u32>)
    requires
        t.pos <= buf.len() <= usize::MAX,
        t.spins < POLL_LIMIT,
        statuses.len() + t.spins >= (buf.len() - t.pos + 1) * POLL_LIMIT,
    ensures
        transferred(t, buf, statuses).1 is Some,
    decreases statuses.len(),
{
    let (next, s) = step(t, buf, statuses[0]);
    match s {
        Step::Done(n) => {},
        Step::Poll => law_transfer_ends(next, buf, statuses.drop_first()),
        Step::Put(w) => law_transfer_ends(next, buf, statuses.drop_first()),
    }
}

} // verus!
