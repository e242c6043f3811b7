//! The small tasks: elastic waiting, the watchdog, waiting for messages and bytes,
//! and the probe of the memory attributes.

use crate::apps::elastic::{Elastic, Event, Order};
use crate::apps::ipc_wait::{WaitForMessage, WaitPoll};
use crate::apps::pbmt_probe::{gated, reset, Probe, Store};
use crate::apps::sched_demo::{print_dec, tick, Turn};
use crate::apps::uart_wait::{RxRing, WaitForByte};
use crate::apps::waking::{WakeEvent, WakeOrder, Waking};
use crate::apps::watchdog::{Verdict, Watchdog};
use crate::laws::texts::spells;
use vstd::prelude::*;
use vstd::string::*;

verus! {

/// A core that wakes processes what waits, counts it as found by an interrupt, and
/// keeps on processing, as found right after others, until nothing is left. Then a
/// spinning window starts.
pub proof fn law_drain_until_nothing_is_left(
    bell: u64,
    start: Elastic,
    e: &mut Elastic,
    n: u64,
)
    requires
        call_ensures(Elastic::begin, (bell,), start),
        old(e).wf(),
        old(e).total + n <= u64::MAX,
        old(e).order == Order::Drain,
        call_ensures(Elastic::advance, (e, Event::Drained(n)), ()),
    ensures
        start.order == Order::Drain,
        start.path == 1,
        start.total == 0,
        start.doorbell == bell,
        !start.redundant,
        final(e).total == old(e).total + n,
        n > 0 ==> final(e).order == Order::Drain && final(e).path == 3,
        n == 0 ==> final(e).order == Order::StartWindow && final(e).path == old(e).path,
        final(e).doorbell == old(e).doorbell,
{
}

/// A spinning window starts at the time that is read and looks up to 100000 times;
/// what it finds is processed as found while spinning.
pub proof fn law_window_of_looks(
    a: &mut Elastic,
    t: u64,
    b: &mut Elastic,
    found: bool,
)
    requires
        old(a).wf(),
        old(a).order == Order::StartWindow,
        call_ensures(Elastic::advance, (a, Event::Time(t)), ()),
        old(b).wf(),
        old(b).order == Order::Look,
        call_ensures(Elastic::advance, (b, Event::Waiting(found)), ()),
    ensures
        final(a).order == Order::Look,
        final(a).spun == 0,
        final(a).window_start == t,
        found ==> final(b).order == Order::Drain && final(b).path == 2 && final(b).spun
            == old(b).spun,
        !found ==> final(b).spun == old(b).spun + 1 && (final(b).order == Order::EndWindow
            <==> final(b).spun >= 100000) && (final(b).order == Order::Look <==> final(b).spun
            < 100000),
        final(b).total == old(b).total,
        final(b).window_start == old(b).window_start,
{
}

/// After a window the time and the last doorbell are read, the busy flag is cleared, and
/// only then the core looks once more; what it finds is processed as found in the
/// last look, and then it sleeps.
pub proof fn law_way_to_sleep(
    a: &mut Elastic,
    t: u64,
    b: &mut Elastic,
    u: u64,
    c: &mut Elastic,
    d: &mut Elastic,
    found: bool,
    e: &mut Elastic,
    n: u64,
)
    requires
        old(a).wf(),
        old(a).order == Order::EndWindow,
        call_ensures(Elastic::advance, (a, Event::Time(t)), ()),
        *old(b) == *final(a),
        old(b).wf(),
        call_ensures(Elastic::advance, (b, Event::Time(u)), ()),
        *old(c) == *final(b),
        old(c).wf(),
        call_ensures(Elastic::advance, (c, Event::Done), ()),
        *old(d) == *final(c),
        old(d).wf(),
        call_ensures(Elastic::advance, (d, Event::Waiting(found)), ()),
        *old(e) == *final(d),
        old(e).wf(),
        old(e).total + n <= u64::MAX,
        call_ensures(Elastic::advance, (e, Event::Drained(n)), ()),
    ensures
        final(a).order == Order::ReadDoorbell,
        final(a).window_end == t,
        final(b).order == Order::ClearBusy,
        final(b).redundant <==> u != old(a).doorbell,
        final(c).order == Order::LastLook,
        !found ==> final(d).order == Order::Sleep && *final(e) == *final(d),
        found ==> final(d).order == Order::LastDrain && final(d).path == 4,
        final(e).order == Order::Sleep,
        final(e).total == old(a).total + (if found {
            n as int
        } else {
            0int
        }),
{
}

/// An event that answers no order changes nothing; a core that sleeps stays asleep.
pub proof fn law_stray_event_is_ignored(e: &mut Elastic, ev: Event)
    requires
        old(e).wf(),
        ev matches Event::Drained(n) ==> old(e).total + n <= u64::MAX,
        call_ensures(Elastic::advance, (e, ev), ()),
        old(e).order == Order::Sleep || (ev is Drained && old(e).order != Order::Drain && old(
            e,
        ).order != Order::LastDrain) || (ev is Waiting && old(e).order != Order::Look && old(
            e,
        ).order != Order::LastLook) || (ev is Done && old(e).order != Order::ClearBusy) || (
        ev is Time && old(e).order != Order::StartWindow && old(e).order != Order::EndWindow
            && old(e).order != Order::ReadDoorbell),
    ensures
        *final(e) == *old(e),
{
}

/// A waking processes urgent messages first, then ordinary ones, and its orders are
/// those of elastic waiting.
pub proof fn law_orders_of_a_waking(bell: u64, start: Waking, w: &Waking, o: WakeOrder, first: WakeOrder)
    requires
        call_ensures(Waking::begin, (bell,), start),
        call_ensures(Waking::order, (&start,), first),
        w.wf(),
        call_ensures(Waking::order, (w,), o),
    ensures
        first == WakeOrder::Process(true),
        start.elastic.doorbell == bell,
        start.elastic.path == 1,
        w.elastic.order == Order::Drain || w.elastic.order == Order::LastDrain ==> o
            == WakeOrder::Process(w.drain.urgent == Some(true)),
        w.elastic.order == Order::StartWindow || w.elastic.order == Order::EndWindow ==> o
            == WakeOrder::ReadClock,
        w.elastic.order == Order::Look ==> o == WakeOrder::Look(true),
        w.elastic.order == Order::LastLook ==> o == WakeOrder::Look(false),
        w.elastic.order == Order::ReadDoorbell ==> o == WakeOrder::ReadDoorbell,
        w.elastic.order == Order::ClearBusy ==> o == WakeOrder::ClearBusy,
        w.elastic.order == Order::Sleep ==> o == WakeOrder::Sleep,
{
}

/// A message that was processed is counted and the next is looked for in the same
/// channel; where none is left, the ordinary channel follows the urgent one, and the
/// round ends after the ordinary one.
pub proof fn law_round_of_a_waking(w: &mut Waking, found: bool)
    requires
        old(w).wf(),
        old(w).fits(WakeEvent::Processed(found)),
        old(w).elastic.order == Order::Drain,
        call_ensures(Waking::advance, (w, WakeEvent::Processed(found)), ()),
    ensures
        final(w).elastic.total + final(w).drain.count == old(w).elastic.total + old(w).drain.count
            + (if found {
            1int
        } else {
            0int
        }),
        found ==> final(w).elastic == old(w).elastic && final(w).drain.urgent == old(
            w,
        ).drain.urgent,
        !found && old(w).drain.urgent == Some(true) ==> final(w).elastic == old(w).elastic
            && final(w).drain.urgent == Some(false),
        !found && old(w).drain.urgent == Some(false) ==> final(w).drain.urgent == Some(true)
            && final(w).drain.count == 0 && (final(w).elastic.order == Order::StartWindow <==> old(
            w,
        ).drain.count == 0) && (final(w).elastic.order == Order::Drain <==> old(w).drain.count
            > 0),
{
}

/// The watchdog looks once a second; it sets a window that is not valid up again, up to
/// eight times, and says every ten seconds that it is alive.
pub proof fn law_watchdog(new: Watchdog, w: &mut Watchdog, valid: bool, v: Verdict)
    requires
        call_ensures(Watchdog::new, (), new),
        old(w).heals <= 8,
        old(w).secs < u64::MAX,
        call_ensures(Watchdog::tick, (w, valid), v),
    ensures
        new.heals == 0 && new.secs == 0,
        v.heal <==> !valid && old(w).heals < 8,
        v.alive <==> (old(w).secs + 1) % 10 == 0,
        final(w).secs == old(w).secs + 1,
        v.heal ==> final(w).heals == old(w).heals + 1,
        !v.heal ==> final(w).heals == old(w).heals,
{
}

/// A task that waits for a message goes on where one is there before or after its waker
/// was stored, and waits with its waker stored otherwise. A doorbell that brings a message
/// wakes it, once.
pub proof fn law_no_message_is_slept_over(
    w: &mut WaitForMessage,
    first: bool,
    second: bool,
    r: WaitPoll,
    x: &mut WaitForMessage,
    pending: bool,
    woken: bool,
)
    requires
        call_ensures(WaitForMessage::poll, (w, first, second), r),
        *old(x) == *final(w),
        call_ensures(WaitForMessage::notify_from_isr, (x, pending), woken),
    ensures
        r is Pending <==> !first && !second,
        r is Pending ==> final(w).has_waker && (woken <==> pending) && r->Pending_0 == old(
            w,
        ).has_waker,
        first ==> r == WaitPoll::Ready && final(w).has_waker == old(w).has_waker,
        !first && second ==> r == WaitPoll::ReadyDropWaker && !final(w).has_waker && !woken,
        woken ==> !final(x).has_waker,
        !pending ==> final(x).has_waker == final(w).has_waker,
{
}

/// Bytes that came are taken in their order; one that comes when 255 wait is dropped.
pub proof fn law_bytes_wait_in_order(
    a: &mut RxRing,
    x: u8,
    b: &mut RxRing,
    r: Option<u8>,
    c: &RxRing,
    n: usize,
    has: bool,
)
    requires
        old(a).wf(),
        call_ensures(RxRing::push_byte, (a, x), ()),
        old(b).wf(),
        call_ensures(RxRing::pop_byte, (b,), r),
        c.wf(),
        call_ensures(RxRing::rx_len, (c,), n),
        call_ensures(RxRing::has_byte, (c,), has),
    ensures
        old(a)@.len() < 255 ==> final(a)@.len() == old(a)@.len() + 1 && final(a)@.drop_last()
            == old(a)@ && final(a)@.last() == x,
        old(a)@.len() >= 255 ==> final(a)@ == old(a)@,
        final(a).waiting() == old(a).waiting(),
        r is None <==> old(b)@.len() == 0,
        r is Some ==> seq![r->0] + final(b)@ == old(b)@,
        r is None ==> final(b)@ == old(b)@,
        n == c@.len(),
        has <==> c@.len() > 0,
{
    assert(old(a)@.push(x).drop_last() =~= old(a)@);
    if old(b)@.len() > 0 {
        assert(seq![old(b)@[0]] + old(b)@.skip(1) =~= old(b)@);
    }
}

/// A task that waits for a byte takes the oldest one, or waits with its waker stored until
/// bytes come.
pub proof fn law_no_byte_is_slept_over(
    a: &mut RxRing,
    r: WaitForByte,
    b: &mut RxRing,
    again: Option<u8>,
    c: &mut RxRing,
    woken: bool,
)
    requires
        old(a).wf(),
        call_ensures(RxRing::poll, (a,), r),
        old(b).wf(),
        old(b).waiting(),
        call_ensures(RxRing::poll_again, (b,), again),
        old(c).wf(),
        call_ensures(RxRing::notify_from_isr, (c,), woken),
    ensures
        r is Ready <==> old(a)@.len() > 0,
        r is Ready ==> seq![r->Ready_0] + final(a)@ == old(a)@ && final(a).waiting() == old(
            a,
        ).waiting(),
        r is Pending ==> final(a).waiting() && r->Pending_0 == old(a).waiting() && final(a)@
            == old(a)@,
        again is Some <==> old(b)@.len() > 0,
        again is Some ==> seq![again->0] + final(b)@ == old(b)@ && !final(b).waiting(),
        again is None ==> final(b).waiting(),
        woken <==> old(c).waiting(),
        !final(c).waiting(),
        final(c)@ == old(c)@,
{
    if old(a)@.len() > 0 {
        assert(seq![old(a)@[0]] + old(a)@.skip(1) =~= old(a)@);
    }
    if old(b)@.len() > 0 {
        assert(seq![old(b)@[0]] + old(b)@.skip(1) =~= old(b)@);
    }
}

/// Nothing is stored in the first three seconds, and then the flag (0x600) and the answer
/// (0x680 and 0x688) are cleared.
pub proof fn law_probe_starts(elapsed: u64, freq: u32, g: bool, r: Vec<Store>)
    requires
        call_ensures(gated, (elapsed, freq), g),
        call_ensures(reset, (), r),
    ensures
        g <==> elapsed < 3 * freq,
        r@.len() == 3,
        forall|i: int| 0 <= i < 3 ==> (#[trigger] r@[i]).value == 0,
        r@[0].off == 0x600,
        r@[1].off == 0x680,
        r@[2].off == 0x688,
{
}

/// A step moves the counter (0x6c0) on by one and notes the time (0x6c8).
pub proof fn law_probe_counts(p: &mut Probe, now: u64, r: Vec<Store>)
    requires
        old(p).seq < u64::MAX,
        call_ensures(Probe::step, (p, now), r),
    ensures
        final(p).seq == old(p).seq + 1,
        r@.len() == 2,
        r@[0] == (Store { off: 0x6c0, value: final(p).seq }),
        r@[1] == (Store { off: 0x6c8, value: now }),
        final(p).next == old(p).next,
{
}

/// A flag whose high half reads "PBMT" is answered with the mark "PBMT_ACK", then
/// with the flag itself, and is cleared last; any other is left alone.
pub proof fn law_probe_answers(p: &Probe, flag: u64, r: Vec<Store>)
    requires
        call_ensures(Probe::reply, (p, flag), r),
    ensures
        0x5042_4d54_0000_0000 <= flag <= 0x5042_4d54_ffff_ffff ==> r@.len() == 3 && r@[0] == (
        Store { off: 0x680, value: 0x5042_4d54_5f41_434b }) && r@[1] == (Store {
            off: 0x688,
            value: flag,
        }) && r@[2] == (Store { off: 0x600, value: 0 }),
        !(0x5042_4d54_0000_0000 <= flag <= 0x5042_4d54_ffff_ffff) ==> r@.len() == 0,
{
}

/// Steps are due every 100 microseconds, counted from the first, and a line is logged
/// every ten seconds.
pub proof fn law_probe_keeps_time(
    now: u64,
    freq: u32,
    p: Probe,
    a: &mut Probe,
    next: u64,
    b: &mut Probe,
    t: u64,
    logs: bool,
)
    requires
        call_ensures(Probe::new, (now, freq), p),
        call_ensures(Probe::due, (a,), next),
        call_ensures(Probe::log_due, (b, t), logs),
    ensures
        p.seq == 0,
        p.next == now,
        p.last_log == now,
        10_000 * p.period <= freq < 10_000 * (p.period + 1),
        p.log_every == 10 * freq,
        next == (old(a).next + old(a).period) % 0x1_0000_0000_0000_0000,
        final(a).next == next,
        old(b).last_log <= t ==> (logs <==> t - old(b).last_log >= old(b).log_every),
        logs ==> final(b).last_log == t,
        !logs ==> final(b).last_log == old(b).last_log,
{
}

/// A task prints its letter on every turn, and on every twentieth a line with the
/// number of the turn.
pub proof fn law_turns_are_printed(turn: Turn, n: u32, out: Vec<u8>, number: Vec<u8>)
    requires
        call_ensures(tick, (turn, n), out),
        call_ensures(print_dec, (n,), number),
    ensures
        spells(number@, n as int),
        n % 20 != 0 && turn == Turn::High ==> out@ == "H".spec_bytes(),
        n % 20 != 0 && turn == Turn::Low ==> out@ == "L".spec_bytes(),
        n % 20 == 0 && turn == Turn::High ==> out@ == "H".spec_bytes() + " [high tick=".spec_bytes()
            + number@ + "]\n".spec_bytes(),
        n % 20 == 0 && turn == Turn::Low ==> out@ == "L".spec_bytes() + " [low tick=".spec_bytes()
            + number@ + "]\n".spec_bytes(),
{
    crate::laws::texts::lemma_digits_spell(n as nat);
}

} // verus!
