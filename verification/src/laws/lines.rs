//! The two transmitters: one that drives a pin bit by bit, and one of the application
//! processor's domain.

use crate::chip::ap_uart::{
    choose_clock, ddn_rate, dll_for, pad83_heal, ApUart, Clock, Source, Step, Transfer,
};
use crate::chip::reg::{RegStep, RegWrite};
use crate::chip::soft_uart::{
    match_guarded, probe_writes, set_line, step_bit, SoftUart, Tick, TxRing,
};
use crate::laws::devices::{is_set_up, line_after_all, Line};
use vstd::prelude::*;

verus! {

/// Bytes wait in their order, up to 128 of them; one that finds no room is counted.
pub proof fn law_bytes_to_send_wait(
    a: &mut TxRing,
    x: u8,
    ok: bool,
    b: &mut TxRing,
    r: Option<u8>,
    c: &TxRing,
    empty: bool,
    lost: u32,
)
    requires
        old(a).wf(),
        call_ensures(TxRing::push, (a, x), ok),
        old(b).wf(),
        call_ensures(TxRing::pop, (b,), r),
        call_ensures(TxRing::is_empty, (c,), empty),
        call_ensures(TxRing::dropped_count, (c,), lost),
    ensures
        ok <==> old(a)@.len() < 128,
        ok ==> final(a)@.len() == old(a)@.len() + 1 && final(a)@.drop_last() == old(a)@
            && final(a)@.last() == x && final(a).lost() == old(a).lost(),
        !ok ==> final(a)@ == old(a)@ && final(a).lost() == (old(a).lost() + 1) % 0x1_0000_0000,
        r is None <==> old(b)@.len() == 0,
        r is Some ==> seq![r->0] + final(b)@ == old(b)@,
        r is None ==> final(b)@ == old(b)@,
        empty <==> c@.len() == 0,
        lost == c.lost(),
{
    assert(old(a)@.push(x).drop_last() =~= old(a)@);
    if old(b)@.len() > 0 {
        assert(seq![old(b)@[0]] + old(b)@.skip(1) =~= old(b)@);
    }
}

/// `d` ticks later than `t`, on a counter of 32 bits.
pub open spec fn later(t: u32, d: int) -> int {
    (t + d) % 0x1_0000_0000
}

/// A bit takes as many of the 2000000 ticks of a second as 115200 bits leave it: what is
/// left over is carried on to the next, so that no error adds up.
pub proof fn law_bit_time(dl: u32, acc: u32, r: (u32, u32))
    requires
        acc < 115_200,
        call_ensures(step_bit, (dl, acc), r),
    ensures
        exists|d: int|
            #![trigger later(dl, d)]
            r.0 == later(dl, d) && 115_200 * d + r.1 == 2_000_000 + acc && 0 <= r.1 < 115_200,
{
    let d = crate::chip::soft_uart::bit_ticks(acc);
    assert(r.0 == later(dl, d));
}

/// The comparator is set to the deadline where that is 2 to 2^31 ticks ahead, and 2 ticks
/// ahead where it is too near or past.
pub proof fn law_comparator(dl: u32, now: u32, r: u32)
    requires
        call_ensures(match_guarded, (dl, now), r),
    ensures
        2 <= (dl - now) % 0x1_0000_0000 <= 0x8000_0000 ==> r == dl,
        !(2 <= (dl - now) % 0x1_0000_0000 <= 0x8000_0000) ==> r == later(now, 2),
{
}

/// Bytes are queued as far as there is room for 128; the rest is counted as lost. The
/// transmitter is to be started where it does not run.
pub proof fn law_bytes_are_queued(
    u: &mut SoftUart,
    bytes: &[u8],
    r: crate::chip::soft_uart::Sent,
    idle: bool,
    stats: (u32, u32),
)
    requires
        old(u).wf(),
        call_ensures(SoftUart::send, (u, bytes), r),
        call_ensures(SoftUart::idle, (final(u),), idle),
        call_ensures(SoftUart::stats, (final(u),), stats),
    ensures
        old(u)@.queue.len() + bytes@.len() <= 128 ==> r.accepted == bytes@.len(),
        old(u)@.queue.len() + bytes@.len() > 128 ==> r.accepted == 128 - old(u)@.queue.len(),
        r.accepted >= 0 && r.accepted <= bytes@.len() ==> final(u)@.queue == old(u)@.queue
            + bytes@.take(r.accepted as int),
        stats.1 == later(old(u)@.lost, bytes@.len() - r.accepted),
        stats.0 == old(u)@.frames,
        r.start <==> bytes@.len() > 0 && !old(u)@.running,
        final(u)@.running == old(u)@.running,
        idle <==> !final(u)@.running && final(u)@.queue.len() == 0,
{
}

/// The transmitter starts with the oldest byte and its start bit; the next bit follows a bit
/// time after that.
pub proof fn law_transmitter_starts(u: &mut SoftUart, now: u32, again: u32, r: Option<u32>)
    requires
        old(u).wf(),
        !old(u)@.running,
        call_ensures(SoftUart::kick, (u, now, again), r),
    ensures
        r is Some <==> old(u)@.queue.len() > 0,
        r is Some ==> {
            let v = final(u)@;
            &&& v.running
            &&& v.phase == 0
            &&& seq![v.cur] + v.queue == old(u)@.queue
            &&& v.dl == later(now, 17)
            &&& 115_200 * 17 + v.acc == 2_000_000
        },
        r is Some && (later(now, 17) - again) % 0x1_0000_0000 >= 2 && (later(now, 17) - again)
            % 0x1_0000_0000 <= 0x8000_0000 ==> r->0 == later(now, 17),
        r is None ==> final(u)@ == old(u)@,
{
    let q = old(u)@.queue;
    if q.len() > 0 {
        assert(seq![q[0]] + q.skip(1) =~= q);
    }
}

proof fn lemma_bits(b: u8)
    ensures
        ((b >> 0u8) & 1 == 1) == (b % 2 == 1),
        ((b >> 1u8) & 1 == 1) == (b / 2 % 2 == 1),
        ((b >> 2u8) & 1 == 1) == (b / 4 % 2 == 1),
        ((b >> 3u8) & 1 == 1) == (b / 8 % 2 == 1),
        ((b >> 4u8) & 1 == 1) == (b / 16 % 2 == 1),
        ((b >> 5u8) & 1 == 1) == (b / 32 % 2 == 1),
        ((b >> 6u8) & 1 == 1) == (b / 64 % 2 == 1),
        ((b >> 7u8) & 1 == 1) == (b / 128 % 2 == 1),
{
    assert(((b >> 0u8) & 1 == 1) == (b % 2 == 1) && ((b >> 1u8) & 1 == 1) == (b / 2 % 2 == 1) && ((b
        >> 2u8) & 1 == 1) == (b / 4 % 2 == 1) && ((b >> 3u8) & 1 == 1) == (b / 8 % 2 == 1) && ((b
        >> 4u8) & 1 == 1) == (b / 16 % 2 == 1) && ((b >> 5u8) & 1 == 1) == (b / 32 % 2 == 1) && ((b
        >> 6u8) & 1 == 1) == (b / 64 % 2 == 1) && ((b >> 7u8) & 1 == 1) == (b / 128 % 2 == 1))
        by (bit_vector);
}

/// The level `x` is that of phase `k` of byte `b`: low for the start bit, the eight bits from
/// the lowest on, high for the stop bit.
pub open spec fn level_of(b: u8, k: int, x: bool) -> bool {
    &&& k == 0 ==> !x
    &&& k == 1 ==> x == (b % 2 == 1)
    &&& k == 2 ==> x == (b / 2 % 2 == 1)
    &&& k == 3 ==> x == (b / 4 % 2 == 1)
    &&& k == 4 ==> x == (b / 8 % 2 == 1)
    &&& k == 5 ==> x == (b / 16 % 2 == 1)
    &&& k == 6 ==> x == (b / 32 % 2 == 1)
    &&& k == 7 ==> x == (b / 64 % 2 == 1)
    &&& k == 8 ==> x == (b / 128 % 2 == 1)
    &&& k == 9 ==> x
}

/// A timer interrupt puts the next level of the byte on the line, a bit time after the one
/// before; after the stop bit it starts the next byte, or stops where none waits and lets
/// the other interrupt through again.
pub proof fn law_timer_interrupt(u: &mut SoftUart, now: u32, r: Tick)
    requires
        old(u).wf(),
        call_ensures(SoftUart::on_timer_irq, (u, now), r),
    ensures
        ({
            let a = old(u)@;
            let b = final(u)@;
            &&& !a.running ==> r == (Tick {
                line: None,
                compare: None,
                disable: true,
                release: false,
            }) && b == a
            &&& a.running && 0 <= a.phase < 9 ==> {
                &&& r.line is Some
                &&& level_of(a.cur, a.phase + 1, r.line->0)
                &&& b.phase == a.phase + 1
                &&& b.cur == a.cur && b.queue == a.queue && b.running
            }
            &&& a.running && a.phase == 9 && a.queue.len() > 0 ==> {
                &&& r.line == Some(false)
                &&& b.phase == 0
                &&& seq![b.cur] + b.queue == a.queue
                &&& b.running
            }
            &&& a.running && a.phase == 9 && a.queue.len() == 0 ==> {
                &&& r == (Tick { line: None, compare: None, disable: true, release: true })
                &&& !b.running
                &&& b.frames == (a.frames + 1) % 0x1_0000_0000
            }
            &&& r.line is Some ==> {
                &&& !r.disable && !r.release
                &&& exists|d: int|
                    #![trigger later(a.dl, d)]
                    b.dl == later(a.dl, d) && 115_200 * d + b.acc == 2_000_000 + a.acc
                &&& r.compare is Some
                &&& 2 <= (b.dl - now) % 0x1_0000_0000 <= 0x8000_0000 ==> r.compare->0 == b.dl
                &&& !(2 <= (b.dl - now) % 0x1_0000_0000 <= 0x8000_0000) ==> r.compare->0 == later(
                    now,
                    2,
                )
            }
        }),
{
    let a = old(u)@;
    lemma_bits(a.cur);
    let d = crate::chip::soft_uart::bit_ticks(a.acc);
    assert(r.line is Some ==> final(u)@.dl == later(a.dl, d));
    if a.queue.len() > 0 {
        assert(seq![a.queue[0]] + a.queue.skip(1) =~= a.queue);
    }
}

/// The pin is bit 30: it is set by a 1 in the register at 0xc0889408 and cleared by one in
/// that at 0xc088940c.
pub proof fn law_level_of_the_line(high: bool, r: RegWrite)
    requires
        call_ensures(set_line, (high,), r),
    ensures
        r.value == 0x4000_0000,
        high ==> r.addr == 0xc088_9408,
        !high ==> r.addr == 0xc088_940c,
{
}

/// The writes that set the pin and the timer up: the pin is an output and high before the
/// second counter is made to run freely, without a preload, is enabled, its interrupt
/// cleared and then switched off.
pub proof fn law_pin_and_timer_are_set_up(
    pdr: u32,
    cmr: u32,
    cer: u32,
    ier: u32,
    r: Vec<RegWrite>,
)
    requires
        call_ensures(probe_writes, (pdr, cmr, cer, ier), r),
    ensures
        r@.len() == 7,
        r@[0].addr == 0xc088_9404 && r@[0].value == pdr | 0x4000_0000,
        r@[1].addr == 0xc088_9408 && r@[1].value == 0x4000_0000,
        r@[2].addr == 0xc088_9004 && r@[2].value == cmr | 2,
        r@[3].addr == 0xc088_9054 && r@[3].value == 0,
        r@[4].addr == 0xc088_9000 && r@[4].value == cer | 2,
        r@[5].addr == 0xc088_9074 && r@[5].value == 1,
        r@[6].addr == 0xc088_9064 && r@[6].value == ier & !1u32,
{
}

/// A divider gives `fin * den / (2 * num)`, of the thirteen low bits of the upper and the
/// lower half of its register, and nothing where either is 0.
pub proof fn law_divider(reg: u32, fin: u64, r: u64)
    requires
        fin * 8191 <= u64::MAX,
        call_ensures(ddn_rate, (reg, fin), r),
    ensures
        ({
            let num = reg / 0x1_0000 % 0x2000;
            let den = reg % 0x2000;
            &&& num == 0 || den == 0 ==> r == 0
            &&& num != 0 && den != 0 ==> 2 * num * r <= fin * den < 2 * num * (r + 1)
        }),
{
    let num = (reg / 0x1_0000 % 0x2000) as int;
    let den = (reg % 0x2000) as int;
    if num != 0 && den != 0 {
        let p = fin * den;
        let q = 2 * num;
        assert(p >= 0) by (nonlinear_arith)
            requires
                p == fin * den,
                den >= 0,
        ;
        assert(q * (p / q) <= p < q * (p / q + 1)) by (nonlinear_arith)
            requires
                q > 0,
                p >= 0,
        ;
        assert(2 * num * r == q * (p / q));
        assert(2 * num * (r + 1) == q * (p / q + 1));
    }
}

/// The distance of two numbers.
pub open spec fn apart(a: int, b: int) -> int {
    if a < b {
        b - a
    } else {
        a - b
    }
}

/// A divisor is found where some whole number of baud units (16 * 115200 Hz), of at most
/// sixteen bits, is the clock to within two percent, and then it is the nearest.
pub proof fn law_divisor(f: u64, r: Option<u32>, d: int)
    requires
        f + 921_600 <= u64::MAX,
        call_ensures(dll_for, (f,), r),
    ensures
        r is Some ==> 1 <= r->0 <= 0xffff && 50 * apart(r->0 * 1_843_200, f as int) <= f && 2
            * apart(r->0 * 1_843_200, f as int) <= 1_843_200,
        r is None && 1 <= d <= 0xffff && 2 * apart(d * 1_843_200, f as int) < 1_843_200 ==> 50
            * apart(d * 1_843_200, f as int) > f,
{
    if r is None && 1 <= d <= 0xffff && 2 * apart(d * 1_843_200, f as int) < 1_843_200 && 50
        * apart(d * 1_843_200, f as int) <= f {
        assert(crate::chip::ap_uart::fits(f as int, d));
    }
}

/// The clock is that of the console's divider (1 or 2) where its rate has a divisor, else
/// that of the first divider whose rate has one; where neither has, the first divider is to
/// be programmed, for the divisor 8.
pub proof fn law_clock_is_chosen(
    apbc0: u32,
    s1: u32,
    s2: u32,
    c: Clock,
    f1: u64,
    f2: u64,
    d1: Option<u32>,
    d2: Option<u32>,
)
    requires
        call_ensures(choose_clock, (apbc0, s1, s2), c),
        call_ensures(ddn_rate, (s1, 153_600_000u64), f1),
        call_ensures(ddn_rate, (s2, 614_400_000u64), f2),
        call_ensures(dll_for, (f1,), d1),
        call_ensures(dll_for, (f2,), d2),
    ensures
        ({
            let console = apbc0 / 16 % 8;
            &&& c.source == Source::Console <==> (console == 1 && d1 is Some) || (console == 2
                && d2 is Some)
            &&& c.source == Source::Console ==> c.sel == console
            &&& c.source == Source::Alive ==> c.sel == (if d1 is Some {
                1int
            } else {
                2int
            })
            &&& c.source != Source::Programmed && c.sel == 1 ==> d1 == Some(c.dll)
            &&& c.source != Source::Programmed && c.sel == 2 ==> d2 == Some(c.dll)
            &&& c.source == Source::Programmed <==> d1 is None && d2 is None
            &&& c.source == Source::Programmed ==> c.sel == 1 && c.dll == 8
        }),
{
}

/// A register after some steps.
pub open spec fn kept(steps: Seq<RegStep>, addr: u64, before: u32) -> u32
    decreases steps.len(),
{
    if steps.len() == 0 {
        before
    } else {
        match steps.last() {
            RegStep::Write(w) => if w.addr == addr {
                w.value
            } else {
                kept(steps.drop_last(), addr, before)
            },
            RegStep::Spin(_) => kept(steps.drop_last(), addr, before),
        }
    }
}

/// The port is brought up: with its divider programmed to 24 / 250 where need be, its gates
/// opened with the reset held for sixteen spins and then released, from the divider that
/// was chosen, and last its line is set up. Bytes can be sent from then on, and not before.
pub proof fn law_port_is_brought_up(
    new: ApUart,
    none: Option<Transfer>,
    u: &mut ApUart,
    apbc0: u32,
    s1: u32,
    s2: u32,
    r: (Clock, Vec<RegStep>),
    c: Clock,
    some: Option<Transfer>,
    l: Line,
)
    requires
        call_ensures(ApUart::new, (), new),
        call_ensures(ApUart::send, (&new,), none),
        call_ensures(ApUart::probe, (u, apbc0, s1, s2), r),
        call_ensures(choose_clock, (apbc0, s1, s2), c),
        call_ensures(ApUart::send, (final(u),), some),
    ensures
        none is None,
        some == Some(Transfer { pos: 0, spins: 0 }),
        r.0 == c,
        ({
            let s = r.1@;
            let k = s.len() - 10;
            &&& s.len() == (if c.source == Source::Programmed {
                11int
            } else {
                10int
            })
            &&& c.source == Source::Programmed ==> s[0] == RegStep::Write(
                RegWrite { addr: 0xd405_0014, value: 0x007d_0018 },
            )
            &&& s[k] == RegStep::Write(
                RegWrite { addr: 0xd401_5074, value: (16 * c.sel + 7) as u32 },
            )
            &&& s[k + 1] == RegStep::Spin(16)
            &&& s[k + 2] == RegStep::Write(
                RegWrite { addr: 0xd401_5074, value: (16 * c.sel + 3) as u32 },
            )
            &&& forall|i: int| k + 3 <= i < s.len() ==> #[trigger] s[i] is Write
            &&& is_set_up(
                line_after_all(
                    0xd401_7400,
                    l,
                    Seq::new(7, |i: int| s[k + 3 + i]->Write_0),
                ),
                c.dll as int,
            )
        }),
{
    let s = r.1@;
    let k = s.len() - 10;
    let line = crate::chip::pxa_uart::line_setup_of(0xd401_7400, c.dll);
    crate::laws::devices::lemma_line(0xd401_7400, c.dll, l);
    assert(Seq::new(7, |i: int| s[k + 3 + i]->Write_0) =~= line);
}

/// The pin is multiplexed back where it is not the transmitter's.
pub proof fn law_pin_is_taken_back(pad: u32, r: Option<RegWrite>)
    requires
        call_ensures(pad83_heal, (pad,), r),
    ensures
        r is None <==> pad == 0xd044,
        r is Some ==> r->0.addr == 0xd401_e14c && r->0.value == 0xd044,
{
}

/// A transfer writes the next byte where bit 5 of the status says that the data register
/// takes one, and is over, with all bytes sent, where all are written and bit 6 says that
/// the line is idle. It is given up, with nothing sent, after 200000 looks in one wait.
pub proof fn law_transfer(t: &mut Transfer, buf: &[u8], lsr: u32, r: Step)
    requires
        old(t).spins < 200_000,
        old(t).pos <= buf@.len(),
        call_ensures(Transfer::advance, (t, buf, lsr), r),
    ensures
        old(t).pos < buf@.len() && lsr & 0x20 != 0 ==> r == Step::Put(
            RegWrite { addr: 0xd401_7400, value: buf@[old(t).pos as int] as u32 },
        ) && final(t).pos == old(t).pos + 1 && final(t).spins == 0,
        old(t).pos == buf@.len() && lsr & 0x40 != 0 ==> r == Step::Done(buf@.len() as usize),
        (old(t).pos < buf@.len() && lsr & 0x20 == 0) || (old(t).pos == buf@.len() && lsr & 0x40
            == 0) ==> final(t).pos == old(t).pos && (r == Step::Done(0) <==> old(t).spins == 199_999)
            && (r == Step::Poll <==> old(t).spins < 199_999) && (r == Step::Poll ==> final(t).spins
            == old(t).spins + 1),
{
    assert(buf.len() == buf@.len());
}

} // verus!
