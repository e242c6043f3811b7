//! What things are before anything happened to them, and small readings of theirs.

use crate::apps::intercom::RtAsyncRpc;
use crate::apps::intercom_app;
use crate::apps::ipc_wait::WaitForMessage;
use crate::apps::litmus::{L1, L1Stage, L2, L2Stage};
use crate::apps::robot;
use crate::apps::robot::{
    be_i16, be_i32, deadline_ms, rx_room, torque_release, torque_restore, ArmRing,
};
use crate::apps::rtbench::{RoundTrips, Wakes};
use crate::apps::stats;
use crate::apps::stats::Stats;
use crate::apps::uart_wait::RxRing;
use crate::apps::waking::{WakeEvent, Waking};
use crate::chip::mailbox::{MboxDriver, MboxK3};
use crate::chip::pinctrl_k3::PinctrlK3;
use crate::chip::plic_k3::PlicK3;
use crate::chip::soft_uart::{SoftUart, TxRing};
use crate::chip::{ap_uart, plic_k3, pxa_uart, qemu, soft_uart, timer_k3};
use crate::server::RpcServer;
use crate::wire::PingReply;
use vstd::prelude::*;

verus! {

/// Queues are empty at the start, with nothing lost, and nobody waits.
pub proof fn law_queues_start_empty(
    arm: ArmRing,
    rx: RxRing,
    tx: TxRing,
    line: SoftUart,
    wait: WaitForMessage,
    trips: RoundTrips,
    wakes: Wakes,
)
    requires
        call_ensures(ArmRing::new, (), arm),
        call_ensures(RxRing::new, (), rx),
        call_ensures(TxRing::new, (), tx),
        call_ensures(SoftUart::new, (), line),
        call_ensures(WaitForMessage::new, (), wait),
        call_ensures(RoundTrips::new, (), trips),
        call_ensures(Wakes::new, (), wakes),
    ensures
        arm@.len() == 0 && arm.lost() == 0,
        rx@.len() == 0 && !rx.waiting(),
        tx@.len() == 0 && tx.lost() == 0,
        line@.queue.len() == 0 && line@.lost == 0 && !line@.running && line@.frames == 0,
        !wait.has_waker,
        trips.entry@.len() == 0 && trips.miss == 0,
        wakes.late@.len() == 0 && wakes.miss == 0,
{
}

/// Devices are not there before they were found.
pub proof fn law_devices_start_unfound(
    pins: PinctrlK3,
    plic: PlicK3,
    one: MboxK3,
    found: bool,
    pool: MboxDriver,
    i: usize,
    m: MboxK3,
)
    requires
        i < 2,
        call_ensures(PinctrlK3::new, (), pins),
        call_ensures(PlicK3::new, (), plic),
        call_ensures(MboxK3::new, (), one),
        call_ensures(MboxK3::is_found, (&one,), found),
        call_ensures(MboxDriver::new, (), pool),
        call_ensures(MboxDriver::get, (&pool, i), m),
    ensures
        pins.at() == 0,
        plic.at() == 0,
        !found,
        pool@.len() == 2,
        m@.base == 0 && !m@.served,
        pool.registered() == seq![None::<u32>, None::<u32>],
{
}

/// A mailbox that was stored back is found in its place; the other stays.
pub proof fn law_mailbox_is_stored(
    p: &mut MboxDriver,
    i: usize,
    m: MboxK3,
    j: usize,
    before: MboxK3,
    after: MboxK3,
)
    requires
        i < 2,
        j < 2,
        call_ensures(MboxDriver::get, (old(p), j), before),
        call_ensures(MboxDriver::put, (p, i, m), ()),
        call_ensures(MboxDriver::get, (final(p), j), after),
    ensures
        after == (if i == j {
            m
        } else {
            before
        }),
        final(p).registered() == old(p).registered(),
{
}

/// The server of the virtual board is on the usual channels.
pub proof fn law_server_of_the_virtual_board(base: usize, s: RpcServer)
    requires
        call_ensures(intercom_app::server, (base,), s),
    ensures
        s.spec_shm_addr() == base,
        s.req() == 0 && s.resp() == 1 && s.urgent() == 2,
        s.fails() == 0,
{
}

/// The answer to a round trip is the value itself, the way in which the message was found,
/// four times, and four marks, in this order.
pub proof fn law_round_trip_is_answered(h: &RtAsyncRpc, v: u64, r: PingReply)
    requires
        call_ensures(RtAsyncRpc::ping, (h, v), r),
    ensures
        r.0 == v,
        r.1 == h.path,
        r.2 == h.t_isr,
        r.3 == h.t_drain,
        r.4 == h.t_sched,
        r.5 == h.t_seen,
        r.6 == h.marks@[0],
        r.7 == h.marks@[1],
        r.8 == h.marks@[2],
        r.9 == h.marks@[3],
{
}

/// A measurement is kept as the last one, as the shortest where none was shorter, and as
/// the longest where none was longer. No other counter changes.
pub proof fn law_measurement_is_kept(s: &mut Stats, first: u32, v: u64, i: int)
    requires
        first + 2 < 17,
        call_ensures(Stats::sample, (s, first, v), ()),
        0 <= i < 24,
    ensures
        final(s)@[first as int] == v,
        final(s)@[first + 1] == v || (final(s)@[first + 1] == old(s)@[first + 1] && v >= old(
            s,
        )@[first + 1]),
        final(s)@[first + 1] <= v && final(s)@[first + 1] <= old(s)@[first + 1],
        final(s)@[first + 2] == v || (final(s)@[first + 2] == old(s)@[first + 2] && v <= old(
            s,
        )@[first + 2]),
        final(s)@[first + 2] >= v && final(s)@[first + 2] >= old(s)@[first + 2],
        i < first || i > first + 2 ==> final(s)@[i] == old(s)@[i],
{
    broadcast use Stats::lemma_len;

}

/// Signed numbers are read with their most significant byte first: what is read differs
/// from the number of the bytes by a multiple of what they can hold, and is negative where
/// the highest bit is set.
pub proof fn law_signed_numbers_are_read(b: &[u8], at: usize, x: i16, y: i32)
    requires
        at + 4 <= b@.len(),
        call_ensures(be_i16, (b, at), x),
        call_ensures(be_i32, (b, at), y),
    ensures
        ({
            let u = 0x100 * b@[at as int] + b@[at + 1];
            let w = 0x100_0000 * b@[at as int] + 0x1_0000 * b@[at + 1] + 0x100 * b@[at + 2]
                + b@[at + 3];
            &&& x == (if b@[at as int] < 128 {
                u
            } else {
                u - 0x1_0000
            })
            &&& y == (if b@[at as int] < 128 {
                w
            } else {
                w - 0x1_0000_0000
            })
        }),
{
}

/// Servos are let go with "#255PULK" and hold again with "#255PULR".
pub proof fn law_lines_of_the_servos(go: Vec<u8>, hold: Vec<u8>, i: int)
    requires
        call_ensures(torque_release, (), go),
        call_ensures(torque_restore, (), hold),
        0 <= i < 8,
    ensures
        go@.len() == 8 && hold@.len() == 8,
        go@[i] as char == "#255PULK"@[i],
        hold@[i] as char == "#255PULR"@[i],
{
    reveal_strlit("#255PULK");
    reveal_strlit("#255PULR");
    assert(i == 0 || i == 1 || i == 2 || i == 3 || i == 4 || i == 5 || i == 6 || i == 7);
}

/// A wait ends its time after its start, and the buffer takes up to 32 bytes.
pub proof fn law_wait_has_bounds(now: u64, ms: u64, end: u64, buf: &Vec<u8>, room: bool)
    requires
        now + ms <= u64::MAX,
        call_ensures(deadline_ms, (now, ms), end),
        call_ensures(rx_room, (buf,), room),
    ensures
        end - now == ms,
        room <==> buf@.len() < 32,
{
}

/// What an experiment or a waking can take is what its counts have room for.
pub proof fn law_counts_have_room(
    a: &L1,
    b: &L2,
    v: u64,
    x: bool,
    y: bool,
    w: &Waking,
    ev: WakeEvent,
    z: bool,
)
    requires
        w.wf(),
        call_ensures(L1::can_take, (a, v), x),
        call_ensures(L2::can_take, (b, v), y),
        call_ensures(Waking::can_take, (w, ev), z),
    ensures
        x <==> (a.stage == L1Stage::Start ==> v + a.ticks < 0x1_0000_0000_0000_0000) && (a.stage
            == L1Stage::Again ==> a.rounds + 1 < 0x1_0000_0000_0000_0000),
        y <==> (b.stage == L2Stage::Mark ==> v + b.pace < 0x1_0000_0000_0000_0000),
        ev != WakeEvent::Processed(true) ==> z,
        ev == WakeEvent::Processed(true) ==> z == (w.elastic.total + w.drain.count + 1
            < 0x1_0000_0000_0000_0000),
{
}

/// The four time stamps of a dispatch are the counters 20 to 23, and the longest window and
/// the longest service time are the counters 10 and 14.
pub proof fn law_numbers_of_the_counters()
    ensures
        stats::T_CH_ENTER == 20 && stats::T_RECV_DONE == 21 && stats::T_HANDLE_DONE == 22
            && stats::T_RESP_DONE == 23,
        stats::WIN_MAX_NS == 10 && stats::SVC_MAX_NS == 14,
{
}

/// The times of the chassis, in milliseconds: 10 between two looks, 200 to start, 100 for a
/// question and 50 for the second part of its answer.
pub proof fn law_times_of_the_chassis()
    ensures
        robot::TICK_MS == 10,
        robot::START_TIMEOUT_MS == 200,
        robot::QUERY_TIMEOUT_MS == 100,
        robot::SECOND_TIMEOUT_MS == 50,
        robot::PORT_CHASSIS == 0,
{
}

/// Where registers and lines are: the interrupt controller, the timers, the clocks of the
/// line to the other core, and the interrupts of the line.
pub proof fn law_numbers_of_the_devices()
    ensures
        plic_k3::PLIC_BASE == 0xe000_0000,
        timer_k3::TMR1_BASE == 0xd401_6000 && timer_k3::TMR_CR1 == 0xd401_6094,
        ap_uart::APBC_UART0 == 0xd401_5000 && ap_uart::MPMU_SUCCR_1 == 0xd405_10b0,
        soft_uart::TIMER_IRQ == 9 && soft_uart::MAILBOX_IRQ == 69,
        soft_uart::TMR_T1_M0 == 0x20 && soft_uart::TMR_TCR1 == 0x94,
        pxa_uart::LSR == 0x14,
        qemu::CONFIRM_PAUSE == 50_000,
        crate::apps::membench::SHM_SCRATCH_OFF == 0x1_8700,
        crate::apps::pbmt_probe::SHM_SCRATCH_OFF == 0x1_8700,
        crate::apps::uart_wait::BUF_SIZE == 256,
        crate::layout::CACHE_LINE == 64,
{
}

} // verus!
