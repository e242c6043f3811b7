//! Measurements that look at a clock, and the benchmark of the core.

use crate::apps::membench::packed;
use crate::apps::rtbench::{
    calibrate_clock, calibrating, cycles_per_op, ns, per_op, plan, Item, Probe, RoundTrips, Row,
    Rows, Spread, Target, Wakes,
};
use crate::apps::timed::{
    cal_over, gap_plan, hot_plan, kind_of, pause_over, CalRun, CalStage, ClockAccess, ClockOn,
    ClockStage, GapPlan, GapRun, GapStage, HotPlan, HotRun, HotStage, Kind, ScanAccess, ScanRun,
    TimerAccess, TimerSetup,
};
use vstd::prelude::*;

verus! {

/// How a measurement is carried out, by its number.
pub proof fn law_kinds_of_measurements(op: u32, k: Kind)
    requires
        call_ensures(kind_of, (op,), k),
    ensures
        op <= 28 || op == 30 <==> k == Kind::Plain,
        op == 29 <==> k == Kind::Fresh,
        op == 31 || op == 32 || op == 37 <==> k == Kind::Gapped,
        op == 33 || op == 36 <==> k == Kind::Hot,
        op == 34 || op == 38 <==> k == Kind::Calibration,
        op == 35 <==> k == Kind::Setup,
        op == 39 <==> k == Kind::Scan,
        op == 40 <==> k == Kind::ClockOn,
        op > 40 <==> k == Kind::Unknown,
{
}

/// A measurement with pauses makes as many rounds as it is told, 64 of the counter and 200
/// otherwise where it is told none, with pauses of twenty microseconds.
pub proof fn law_plan_with_pauses(op: u32, arg: u32, freq: u32, p: GapPlan, g: GapRun)
    requires
        call_ensures(gap_plan, (op, arg, freq), p),
        call_ensures(GapRun::begin, (p,), g),
    ensures
        p.op == op,
        arg != 0 ==> p.rounds == arg,
        arg == 0 && op == 37 ==> p.rounds == 64,
        arg == 0 && op != 37 ==> p.rounds == 200,
        50_000 * p.gap <= freq < 50_000 * (p.gap + 1),
        g.left == p.rounds && g.total == 0 && g.stage == GapStage::Begin && g.plan == p,
{
}

/// A round with a pause: a time, the pause, with the counter a reading of it, and a time. The
/// pause is over once the clock has passed it; of the cycle counter (32) it is 12000 spins.
/// What passed between the two times is added up.
pub proof fn law_round_with_a_pause(
    s: &mut GapRun,
    v: u64,
    due: Option<crate::apps::timed::Probe>,
)
    requires
        old(s).wf(),
        old(s).stage == GapStage::Begin && old(s).plan.op != 32 ==> v + old(s).plan.gap <= u64::MAX,
        call_ensures(GapRun::due, (old(s),), due),
        call_ensures(GapRun::advance, (s, v), ()),
    ensures
        old(s).left == 0 ==> due is None && *final(s) == *old(s),
        old(s).left > 0 ==> {
            let cycles = old(s).plan.op == 32;
            &&& old(s).stage == GapStage::Begin || old(s).stage == GapStage::End ==> due == Some(
                if cycles {
                    crate::apps::timed::Probe::Cycles
                } else {
                    crate::apps::timed::Probe::Clock
                },
            )
            &&& old(s).stage == GapStage::Pause ==> due == Some(
                if cycles {
                    crate::apps::timed::Probe::Spin(12_000)
                } else {
                    crate::apps::timed::Probe::Clock
                },
            )
            &&& old(s).stage == GapStage::Between ==> due == Some(
                crate::apps::timed::Probe::Counter,
            )
            &&& old(s).stage == GapStage::Begin ==> final(s).t0 == v && final(s).stage
                == GapStage::Pause
            &&& old(s).stage == GapStage::Pause && !cycles && v < old(s).t0 + old(s).plan.gap
                ==> *final(s) == *old(s)
            &&& old(s).stage == GapStage::Pause && (cycles || v >= old(s).t0 + old(s).plan.gap)
                ==> final(s).stage == (if old(s).plan.op == 37 {
                GapStage::Between
            } else {
                GapStage::End
            })
            &&& old(s).stage == GapStage::Between ==> final(s).stage == GapStage::End
            &&& old(s).stage == GapStage::End ==> final(s).stage == GapStage::Begin && final(s).left
                == old(s).left - 1 && final(s).total == (old(s).total + v - old(s).t0)
                % 0x1_0000_0000_0000_0000
            &&& old(s).stage != GapStage::End ==> final(s).left == old(s).left && final(s).total
                == old(s).total
        },
{
}

/// The result of rounds with pauses: the times and one pause in nanoseconds, of 24 ticks a
/// microsecond; of the cycle counter, cycles and spins.
pub proof fn law_result_with_pauses(s: &GapRun, r: (u64, u64))
    requires
        s.wf(),
        s.plan.op != 32 ==> s.total * 1_000_000_000 <= u64::MAX,
        call_ensures(GapRun::finish, (s,), r),
    ensures
        s.plan.op == 32 ==> r == (s.total, 12_000u64),
        s.plan.op != 32 ==> 24 * r.0 <= 1000 * s.total < 24 * (r.0 + 1) && 24 * r.1 <= 1000
            * s.plan.gap < 24 * (r.1 + 1),
{
}

/// Readings without pauses: 1000 of the cycle counter; of the counter (36) as many as it is
/// told, 4000 where it is told none.
pub proof fn law_plan_without_pauses(op: u32, arg: u32, p: HotPlan, h: HotRun)
    requires
        call_ensures(hot_plan, (op, arg), p),
        call_ensures(HotRun::begin, (p,), h),
    ensures
        op == 36 && arg == 0 ==> p.reads == 4000,
        op == 36 && arg != 0 ==> p.reads == arg,
        op == 36 ==> p.told == 4000,
        op != 36 ==> p.reads == 1000 && p.told == 1000,
        p.op == op,
        h.stage == HotStage::First && h.plan == p,
{
}

/// The readings are made between two times: of the counter between two of the clock, of the
/// cycle counter between two of its own.
pub proof fn law_readings_without_pauses(
    s: &mut HotRun,
    v: u64,
    due: Option<crate::apps::timed::Probe>,
)
    requires
        old(s).wf(),
        call_ensures(HotRun::due, (old(s),), due),
        call_ensures(HotRun::advance, (s, v), ()),
    ensures
        ({
            let counter = old(s).plan.op == 36;
            let time = if counter {
                crate::apps::timed::Probe::Clock
            } else {
                crate::apps::timed::Probe::Cycles
            };
            &&& old(s).stage == HotStage::First ==> due == Some(time) && final(s).first == v && (
            old(s).plan.reads > 0 ==> final(s).stage == HotStage::Reads(old(s).plan.reads)) && (old(s).plan.reads == 0 ==> final(s).stage == HotStage::Last)
            &&& old(s).stage matches HotStage::Reads(n) ==> due == Some(
                if counter {
                    crate::apps::timed::Probe::Counter
                } else {
                    crate::apps::timed::Probe::Cycles
                },
            ) && (n > 1 ==> final(s).stage == HotStage::Reads((n - 1) as u64)) && (n == 1 ==> final(s).stage == HotStage::Last)
            &&& old(s).stage == HotStage::Last ==> due == Some(time) && final(s).last == v && final(s).first == old(s).first && final(s).stage == HotStage::Done
            &&& old(s).stage == HotStage::Done ==> due is None && *final(s) == *old(s)
        }),
{
}

/// The result of readings without pauses: what passed between the two times, in nanoseconds
/// of the clock or in cycles, and the usual number of readings.
pub proof fn law_result_without_pauses(s: &HotRun, r: (u64, u64))
    requires
        s.first <= s.last,
        s.plan.op == 36 ==> (s.last - s.first) * 1_000_000_000 <= u64::MAX,
        call_ensures(HotRun::finish, (s,), r),
    ensures
        r.1 == s.plan.told,
        s.plan.op == 36 ==> 24 * r.0 <= 1000 * (s.last - s.first) < 24 * (r.0 + 1),
        s.plan.op != 36 ==> r.0 == s.last - s.first,
{
    let d = crate::apps::membench::wrapping_difference(s.last, s.first);
    assert(d == s.last - s.first);
}

/// A calibration reads the clock and the counter, waits for 120000 ticks, and reads the
/// counter and the clock again; its result is what both advanced by.
pub proof fn law_calibration(
    op: u32,
    first: CalRun,
    s: &mut CalRun,
    v: u64,
    due: Option<crate::apps::timed::Probe>,
    end: &CalRun,
    r: (u64, u64),
    m0: u64,
    now: u64,
    over: bool,
)
    requires
        call_ensures(CalRun::begin, (op,), first),
        old(s).wf(),
        old(s).stage == CalStage::Clock0 ==> v + 120_000 <= u64::MAX,
        call_ensures(CalRun::due, (old(s),), due),
        call_ensures(CalRun::advance, (s, v), ()),
        call_ensures(CalRun::finish, (end,), r),
        m0 + 120_000 <= u64::MAX,
        call_ensures(cal_over, (m0, now), over),
    ensures
        first.stage == CalStage::Clock0 && first.op == op,
        ({
            let count = Some(
                if old(s).op == 34 {
                    crate::apps::timed::Probe::Cycles
                } else {
                    crate::apps::timed::Probe::Counter
                },
            );
            let clock = Some(crate::apps::timed::Probe::Clock);
            &&& old(s).stage == CalStage::Clock0 ==> due == clock && final(s).m0 == v && final(s).stage == CalStage::Count0
            &&& old(s).stage == CalStage::Count0 ==> due == count && final(s).c0 == v && final(s).stage == CalStage::Wait
            &&& old(s).stage == CalStage::Wait ==> due == clock && (v >= old(s).m0 + 120_000
                ==> final(s).stage == CalStage::Count1) && (v < old(s).m0 + 120_000 ==> *final(s)
                == *old(s))
            &&& old(s).stage == CalStage::Count1 ==> due == count && final(s).c1 == v && final(s).stage == CalStage::Clock1
            &&& old(s).stage == CalStage::Clock1 ==> due == clock && final(s).m1 == v && final(s).stage == CalStage::Done
            &&& old(s).stage == CalStage::Done ==> due is None && *final(s) == *old(s)
        }),
        r.0 == (end.c1 - end.c0) % 0x1_0000_0000_0000_0000,
        r.1 == (end.m1 - end.m0) % 0x1_0000_0000_0000_0000,
        over <==> now >= m0 + 120_000,
{
}

/// The look at the other block of counters reads its first counter (0xd4014090), its enables
/// (0xd4014000) and its second counter (0xd4014094), pauses, and reads the first again.
pub proof fn law_scan(
    first: ScanRun,
    s: &mut ScanRun,
    v: u32,
    due: Option<ScanAccess>,
    end: &ScanRun,
    r: (u64, u64),
    t0: u64,
    now: u64,
    over: bool,
)
    requires
        call_ensures(ScanRun::begin, (), first),
        call_ensures(ScanRun::due, (old(s),), due),
        call_ensures(ScanRun::advance, (s, v), ()),
        call_ensures(ScanRun::finish, (end,), r),
        t0 + 24_000 <= u64::MAX,
        call_ensures(pause_over, (t0, now), over),
    ensures
        first.done == 0,
        old(s).done == 0 ==> due == Some(ScanAccess::Read(0xd401_4090)) && final(s).first == v,
        old(s).done == 1 ==> due == Some(ScanAccess::Read(0xd401_4000)) && final(s).cer == v,
        old(s).done == 2 ==> due == Some(ScanAccess::Read(0xd401_4094)) && final(s).cr1 == v,
        old(s).done == 3 ==> due == Some(ScanAccess::Pause),
        old(s).done == 4 ==> due == Some(ScanAccess::Read(0xd401_4090)) && final(s).second == v
            && final(s).first == old(s).first,
        old(s).done < 5 ==> final(s).done == old(s).done + 1,
        old(s).done >= 5 ==> due is None && *final(s) == *old(s),
        r.0 == 0x1_0000_0000 * end.second + end.first,
        r.1 == 0x1_0000_0000 * end.cer + end.cr1,
        over <==> now >= t0 + 24_000,
{
    crate::apps::membench::law_packed(end.second as u64, end.first as u64);
    crate::apps::membench::law_packed(end.cer as u64, end.cr1 as u64);
}

/// The counter is set up: its mode bit (2) is added to the mode register, its preload is
/// cleared, and its enable bit (2) is added and read back, up to eight times.
pub proof fn law_counter_setup(
    first: TimerSetup,
    s: &mut TimerSetup,
    v: u32,
    end: &TimerSetup,
    on: bool,
    ticks: u64,
    r: (u64, u64),
)
    requires
        call_ensures(TimerSetup::begin, (), first),
        old(s).wf(),
        call_ensures(TimerSetup::advance, (s, v), ()),
        call_ensures(TimerSetup::enabled, (end,), on),
        ticks * 1_000_000_000 <= u64::MAX,
        end.retries <= 8,
        call_ensures(TimerSetup::finish, (end, ticks), r),
    ensures
        first.due == Some(TimerAccess::ReadMode) && first.retries == 0,
        old(s).due == Some(TimerAccess::ReadMode) ==> final(s).due == Some(
            TimerAccess::WriteMode(v | 2),
        ),
        old(s).due is Some && old(s).due->0 is WriteMode ==> final(s).due == Some(
            TimerAccess::ClearPreload,
        ),
        old(s).due == Some(TimerAccess::ClearPreload) ==> final(s).due == Some(
            TimerAccess::ReadEnable,
        ),
        old(s).due == Some(TimerAccess::ReadEnable) ==> final(s).due == Some(
            TimerAccess::WriteEnable(v | 2),
        ),
        old(s).due is Some && old(s).due->0 is WriteEnable ==> final(s).due == Some(
            TimerAccess::VerifyEnable,
        ),
        old(s).due == Some(TimerAccess::VerifyEnable) && v & 2 != 0 ==> final(s).due == Some(
            TimerAccess::ReadResult,
        ) && final(s).retries == old(s).retries,
        old(s).due == Some(TimerAccess::VerifyEnable) && v & 2 == 0 ==> final(s).retries == old(s).retries + 1 && (final(s).due == Some(TimerAccess::ReadEnable) <==> final(s).retries < 8)
            && (final(s).due == Some(TimerAccess::ReadResult) <==> final(s).retries >= 8),
        old(s).due == Some(TimerAccess::ReadResult) ==> final(s).due is None && final(s).cer == v,
        old(s).due is None ==> *final(s) == *old(s),
        on <==> end.cer & 2 != 0,
        24 * r.0 <= 1000 * ticks < 24 * (r.0 + 1),
        r.1 == 0x1_0000_0000 * end.cer + end.retries,
{
    crate::apps::membench::law_packed(end.cer as u64, end.retries);
}

/// The clock of the counters is switched on: the three low bits of its register are cleared
/// and set, and where the counter does not take its enable bit then, the lowest two are set.
pub proof fn law_clock_is_switched_on(
    first: ClockOn,
    s: &mut ClockOn,
    v: u32,
    due: Option<ClockAccess>,
    t: &mut TimerSetup,
)
    requires
        call_ensures(ClockOn::begin, (), first),
        old(s).wf(),
        call_ensures(ClockOn::due, (old(s),), due),
        call_ensures(ClockOn::advance, (s, v), ()),
        *old(t) == old(s).timer,
        call_ensures(TimerSetup::advance, (t, v), ()),
    ensures
        first.stage == ClockStage::ReadBefore,
        old(s).stage == ClockStage::ReadBefore ==> due == Some(ClockAccess::ReadGate) && final(s).before == v && final(s).stage == ClockStage::Clear,
        old(s).stage == ClockStage::Clear ==> due is Some && due->0 is WriteGate
            && due->0->WriteGate_0 % 8 == 0 && due->0->WriteGate_0 / 8 == old(s).before / 8 && final(s).stage == ClockStage::SetFirst,
        old(s).stage == ClockStage::SetFirst ==> due is Some && due->0 is WriteGate
            && due->0->WriteGate_0 % 8 == 7 && due->0->WriteGate_0 / 8 == old(s).before / 8 && final(s).stage == ClockStage::EnableFirst && final(s).timer.due == Some(TimerAccess::ReadMode),
        old(s).stage == ClockStage::SetSecond ==> due is Some && due->0 is WriteGate
            && due->0->WriteGate_0 % 8 == 3 && due->0->WriteGate_0 / 8 == old(s).before / 8 && final(s).stage == ClockStage::EnableSecond && final(s).timer.due == Some(TimerAccess::ReadMode),
        old(s).stage == ClockStage::EnableFirst || old(s).stage == ClockStage::EnableSecond ==> {
            &&& due is Some && due->0 is Timer && Some(due->0->Timer_0) == old(s).timer.due
            &&& final(s).timer == *final(t)
            &&& final(t).due is Some ==> final(s).stage == old(s).stage
            &&& final(t).due is None ==> final(s).cer == final(t).cer && final(s).stage == (if old(s).stage == ClockStage::EnableFirst && final(t).cer & 2 == 0 {
                ClockStage::SetSecond
            } else {
                ClockStage::ReadAfter
            }) && final(s).retries == old(s).retries + final(t).retries
        },
        old(s).stage == ClockStage::ReadAfter ==> due == Some(ClockAccess::ReadGate) && final(s).after == v && final(s).stage == ClockStage::Count0,
        old(s).stage == ClockStage::Count0 ==> due == Some(ClockAccess::ReadCounter) && final(s).c0
            == v && final(s).stage == ClockStage::Wait,
        old(s).stage == ClockStage::Wait ==> due == Some(ClockAccess::Pause) && final(s).stage
            == ClockStage::Count1,
        old(s).stage == ClockStage::Count1 ==> due == Some(ClockAccess::ReadCounter) && final(s).c1
            == v && final(s).stage == ClockStage::Done,
        old(s).stage == ClockStage::Done ==> due is None && *final(s) == *old(s),
{
    let b = old(s).before;
    assert((b & !7u32) % 8 == 0 && (b & !7u32) / 8 == b / 8 && ((b & !7u32) | 7) % 8 == 7 && ((b
        & !7u32) | 7) / 8 == b / 8 && ((b & !7u32) | 3) % 8 == 3 && ((b & !7u32) | 3) / 8 == b / 8)
        by (bit_vector);
}

/// The result of switching the clock on: its register, and the enables with what the counter
/// advanced by in the pause.
pub proof fn law_result_of_the_clock(s: &ClockOn, r: (u64, u64))
    requires
        call_ensures(ClockOn::finish, (s,), r),
    ensures
        r.0 == s.after,
        r.1 == 0x1_0000_0000 * s.cer + (s.c1 - s.c0) % 0x1_0000_0000,
{
    let d = crate::apps::membench::wrapping_difference(s.c1 as u64, s.c0 as u64);
    let l = d & 0xffff_ffff;
    assert(d & 0xffff_ffffu64 == d % 0x1_0000_0000u64) by (bit_vector);
    crate::apps::membench::law_packed(s.cer as u64, l);
}

/// The measurement `m` is that of `p` at `t`: repeated as that is, with interrupts on for
/// the critical sections only.
pub open spec fn measures(m: Item, p: Probe, t: Target) -> bool {
    &&& m.probe == p
    &&& m.target == t
    &&& repeated(p, m.iters as int)
    &&& m.live <==> p == Probe::CsLoad || p == Probe::CsRmw || p == Probe::CsReal
}

/// The measurement `p` is repeated `n` times in a row.
pub open spec fn repeated(p: Probe, n: int) -> bool {
    &&& p == Probe::ReadCold ==> n == 20
    &&& p == Probe::ReadLines || p == Probe::ReadStride ==> n == 200
    &&& p == Probe::ReadBlock || p == Probe::PendMasked ==> n == 500
    &&& p == Probe::FenceRRw || p == Probe::FenceRwW || p == Probe::FenceRwRw || p == Probe::FenceIorw || p == Probe::AmoswapRelaxed || p == Probe::AmoswapAq || p == Probe::AmoswapRl || p == Probe::AmoswapAqRl || p == Probe::AmoaddAqRl || p == Probe::AmoorAqRl || p == Probe::LrAq || p == Probe::Cas ==> n == 1000
    &&& p == Probe::TimerSlot || p == Probe::MboxMsgstat || p == Probe::MboxIrqen || p == Probe::MboxEnwr || p == Probe::LdFenceRRw || p == Probe::LdFenceRwRw || p == Probe::LdDelayFence || p == Probe::SdFenceRwRw || p == Probe::FenceRwWSd || p == Probe::SdFenceIorw || p == Probe::CsLoad || p == Probe::CsRmw || p == Probe::CsReal || p == Probe::WriteReadSame || p == Probe::WriteReadApart ==> n == 2000
    &&& p == Probe::MtimeRead || p == Probe::McycleRead || p == Probe::ShmBase || p == Probe::Ld || p == Probe::ReadSame || p == Probe::WriteSame ==> n == 5000
    &&& p == Probe::CallHot || p == Probe::CallSpread ==> n == 20000
    &&& p == Probe::Alu ==> n == 100000
}

/// The measurements of the benchmark, in order.
pub proof fn law_plan_of_the_benchmark(r: Vec<Item>)
    requires
        call_ensures(plan, (), r),
    ensures
        r@.len() == 52,
        measures(r@[0], Probe::MtimeRead, Target::Mtime),
        measures(r@[1], Probe::McycleRead, Target::Nothing),
        measures(r@[2], Probe::TimerSlot, Target::Nothing),
        measures(r@[3], Probe::ShmBase, Target::Nothing),
        measures(r@[4], Probe::MboxMsgstat, Target::Nothing),
        measures(r@[5], Probe::MboxIrqen, Target::Nothing),
        measures(r@[6], Probe::MboxEnwr, Target::Nothing),
        measures(r@[7], Probe::Alu, Target::Nothing),
        measures(r@[8], Probe::FenceRRw, Target::Nothing),
        measures(r@[9], Probe::FenceRwW, Target::Nothing),
        measures(r@[10], Probe::FenceRwRw, Target::Nothing),
        measures(r@[11], Probe::FenceIorw, Target::Nothing),
        measures(r@[12], Probe::Ld, Target::Window),
        measures(r@[13], Probe::LdFenceRRw, Target::Window),
        measures(r@[14], Probe::LdFenceRwRw, Target::Window),
        measures(r@[15], Probe::LdDelayFence, Target::Window),
        measures(r@[16], Probe::LdFenceRRw, Target::Mtime),
        measures(r@[17], Probe::SdFenceRwRw, Target::Window),
        measures(r@[18], Probe::FenceRwWSd, Target::Window),
        measures(r@[19], Probe::SdFenceIorw, Target::Window),
        measures(r@[20], Probe::LdFenceRRw, Target::Local),
        measures(r@[21], Probe::FenceRwWSd, Target::Local),
        measures(r@[22], Probe::AmoswapRelaxed, Target::Window),
        measures(r@[23], Probe::AmoswapAq, Target::Window),
        measures(r@[24], Probe::AmoswapRl, Target::Window),
        measures(r@[25], Probe::AmoswapAqRl, Target::Window),
        measures(r@[26], Probe::AmoaddAqRl, Target::Window),
        measures(r@[27], Probe::AmoorAqRl, Target::Window),
        measures(r@[28], Probe::LrAq, Target::Window),
        measures(r@[29], Probe::Cas, Target::Window),
        measures(r@[30], Probe::AmoswapRelaxed, Target::Local),
        measures(r@[31], Probe::AmoswapAqRl, Target::Local),
        measures(r@[32], Probe::LrAq, Target::Local),
        measures(r@[33], Probe::CsLoad, Target::Window),
        measures(r@[34], Probe::CsLoad, Target::Local),
        measures(r@[35], Probe::CsRmw, Target::Window),
        measures(r@[36], Probe::CsReal, Target::Window),
        measures(r@[37], Probe::ReadSame, Target::Window),
        measures(r@[38], Probe::ReadLines, Target::Window),
        measures(r@[39], Probe::ReadStride, Target::Window),
        measures(r@[40], Probe::ReadCold, Target::Spare),
        measures(r@[41], Probe::ReadBlock, Target::Window),
        measures(r@[42], Probe::WriteSame, Target::Window),
        measures(r@[43], Probe::WriteReadSame, Target::Window),
        measures(r@[44], Probe::WriteReadApart, Target::Window),
        measures(r@[45], Probe::ReadSame, Target::Local),
        measures(r@[46], Probe::ReadBlock, Target::Local),
        measures(r@[47], Probe::ReadSame, Target::Alias),
        measures(r@[48], Probe::CallHot, Target::Nothing),
        measures(r@[49], Probe::CallSpread, Target::Nothing),
        measures(r@[50], Probe::CallSpread, Target::Nothing),
        measures(r@[51], Probe::PendMasked, Target::Nothing),
{
}

/// Where the benchmark measures.
pub proof fn law_targets(t: Target, local: u64, r: u64)
    requires
        call_ensures(Target::address, (t, local), r),
    ensures
        t == Target::Nothing ==> r == 0,
        t == Target::Mtime ==> r == 0xe400_bff8,
        t == Target::Window ==> r == 0xc081_8700,
        t == Target::Local ==> r == local,
        t == Target::Alias ==> r == 0x1_8700,
        t == Target::Spare ==> r == 0x1_9000,
{
}

/// The reads of a sweep: line by line (64 bytes) or every eighth line over 2048 bytes, and
/// line by line over 128 KiB.
pub proof fn law_sweeps(p: Probe, s: Option<(usize, usize)>, i: usize, at: Option<usize>)
    requires
        call_ensures(Probe::sweep, (p,), s),
        call_ensures(Probe::offset, (p, i), at),
    ensures
        p == Probe::ReadLines ==> s == Some((64usize, 2048usize)) && (at is Some <==> i < 32) && (
        at is Some ==> at->0 == 64 * i),
        p == Probe::ReadStride ==> s == Some((512usize, 2048usize)) && (at is Some <==> i < 4) && (
        at is Some ==> at->0 == 512 * i),
        p == Probe::ReadCold ==> s == Some((64usize, 0x2_0000usize)) && (at is Some <==> i < 2048)
            && (at is Some ==> at->0 == 64 * i),
        p != Probe::ReadLines && p != Probe::ReadStride && p != Probe::ReadCold ==> s is None
            && at is None,
{
}

/// The time of one operation, of `iters` in a row, in nanoseconds and in cycles.
pub proof fn law_time_of_one_operation(
    t0: u64,
    t1: u64,
    freq: u32,
    iters: u32,
    r: u64,
    c0: u64,
    c1: u64,
    c: u64,
)
    requires
        freq > 0,
        iters > 0,
        t0 <= t1,
        (t1 - t0) * 1_000_000_000 <= u64::MAX,
        call_ensures(per_op, (t0, t1, freq, iters), r),
        c0 <= c1,
        call_ensures(cycles_per_op, (c0, c1, iters), c),
    ensures
        r * (freq * iters) <= (t1 - t0) * 1_000_000_000 < (r + 1) * (freq * iters),
        c * iters <= c1 - c0 < (c + 1) * iters,
{
    let p = (t1 - t0) * 1_000_000_000;
    let q = freq * iters;
    assert(q >= 1) by (nonlinear_arith)
        requires
            q == freq * iters,
            freq > 0,
            iters > 0,
    ;
    assert(0 <= p / q <= p && (p / q) * q <= p < (p / q + 1) * q) by (nonlinear_arith)
        requires
            q >= 1,
            p >= 0,
    ;
    assert(r == p / q);
    let d = c1 - c0;
    let n = iters as int;
    assert((d / n) * n <= d < (d / n + 1) * n) by (nonlinear_arith)
        requires
            n >= 1,
            d >= 0,
    ;
}

/// Results are kept in their order, up to 48 of them.
pub proof fn law_results_are_kept(
    new: Rows,
    a: &mut Rows,
    row: Row,
    n: usize,
    b: &mut Rows,
    item: usize,
    iters: u32,
    t: (u64, u64),
    c: (u64, u64),
    freq: u32,
    ns: u64,
    cyc: u64,
    last: Row,
)
    requires
        freq > 0,
        iters > 0,
        call_ensures(Rows::new, (), new),
        call_ensures(Rows::record, (a, row), ()),
        call_ensures(Rows::len, (final(a),), n),
        call_ensures(Rows::timeit, (b, item, iters, t.0, t.1, c.0, c.1, freq), ()),
        call_ensures(per_op, (t.0, t.1, freq, iters), ns),
        call_ensures(cycles_per_op, (c.0, c.1, iters), cyc),
        old(b)@.len() < 48 ==> call_ensures(
            Rows::get,
            (final(b), old(b)@.len() as usize),
            last,
        ),
    ensures
        new@.len() == 0,
        n == final(a)@.len(),
        old(a)@.len() < 48 ==> n == old(a)@.len() + 1 && final(a)@.drop_last() == old(a)@
            && final(a)@.last() == row,
        old(a)@.len() >= 48 ==> final(a)@ == old(a)@,
        old(b)@.len() < 48 ==> final(b)@.drop_last() == old(b)@ && last == (Row { item, ns, cyc }),
        old(b)@.len() >= 48 ==> final(b)@ == old(b)@,
{
    assert(old(a)@.push(row).drop_last() =~= old(a)@);
    assert(old(b)@.push(Row { item, ns, cyc }).drop_last() =~= old(b)@);
}

/// The rate of the core is its cycles for the time that the clock says, over a tenth of a
/// second; a counter that did not move does not run.
pub proof fn law_rate_of_the_core(
    c0: u64,
    c1: u64,
    t0: u64,
    t1: u64,
    freq: u32,
    r: (u64, bool),
    elapsed: u64,
    more: bool,
)
    requires
        t1 > t0,
        c1 >= c0,
        (c1 - c0) * freq <= u64::MAX,
        call_ensures(calibrate_clock, (c0, c1, t0, t1, freq), r),
        call_ensures(calibrating, (elapsed, freq), more),
    ensures
        r.0 * (t1 - t0) <= (c1 - c0) * freq < (r.0 + 1) * (t1 - t0),
        r.1 <==> c1 > c0,
        more <==> 10 * (elapsed + 1) <= freq,
{
    let p = (c1 - c0) * freq;
    let q = t1 - t0;
    assert(p >= 0) by (nonlinear_arith)
        requires
            p == (c1 - c0) * freq,
            c1 >= c0,
    ;
    assert(0 <= p / q <= p && (p / q) * q <= p < (p / q + 1) * q) by (nonlinear_arith)
        requires
            q >= 1,
            p >= 0,
    ;
    assert(r.0 == p / q);
}

/// The sum of some numbers.
pub open spec fn sum_of(s: Seq<u64>) -> int
    decreases s.len(),
{
    if s.len() == 0 {
        0
    } else {
        sum_of(s.drop_last()) + s.last()
    }
}

proof fn lemma_spread(s: Seq<u64>)
    ensures
        crate::apps::rtbench::total(s) == sum_of(s),
        sum_of(s) >= 0,
        forall|i: int| 0 <= i < s.len() ==> crate::apps::rtbench::least(s) <= #[trigger] s[i],
        s.len() > 0 ==> exists|i: int| 0 <= i < s.len() && crate::apps::rtbench::least(s)
            == #[trigger] s[i],
    decreases s.len(),
{
    if s.len() > 0 {
        let t = s.drop_last();
        lemma_spread(t);
        let m = crate::apps::rtbench::least(s);
        assert forall|i: int| 0 <= i < s.len() implies m <= #[trigger] s[i] by {
            if i < t.len() {
                assert(t[i] == s[i]);
            }
        }
        if m == s.last() {
            assert(s[s.len() - 1] == m);
        } else {
            let i = choose|i: int|
                0 <= i < t.len() && crate::apps::rtbench::least(t) == #[trigger] t[i];
            assert(s[i] == t[i]);
        }
    }
}

/// Of the readings the mean, rounded down, and the smallest are told; nothing is told of none.
pub proof fn law_mean_and_least(
    new: Spread,
    a: &mut Spread,
    v: u64,
    s: &Spread,
    r: Option<(u64, u64)>,
)
    requires
        call_ensures(Spread::new, (), new),
        old(a).wf(),
        call_ensures(Spread::push, (a, v), ()),
        s.wf(),
        sum_of(s@) <= u64::MAX,
        call_ensures(Spread::mean_min, (s,), r),
    ensures
        new@.len() == 0,
        final(a)@.len() == old(a)@.len() + 1 && final(a)@.drop_last() == old(a)@
            && final(a)@.last() == v,
        r is None <==> s@.len() == 0,
        r is Some ==> (r->0).0 * s@.len() <= sum_of(s@) < ((r->0).0 + 1) * s@.len(),
        r is Some ==> (forall|i: int| 0 <= i < s@.len() ==> (r->0).1 <= #[trigger] s@[i]) && exists|
            i: int,
        |
            0 <= i < s@.len() && (r->0).1 == #[trigger] s@[i],
{
    assert(old(a)@.push(v).drop_last() =~= old(a)@);
    lemma_spread(s@);
    if s@.len() > 0 {
        let p = sum_of(s@);
        let q = s@.len() as int;
        assert(0 <= p / q <= p && (p / q) * q <= p < (p / q + 1) * q) by (nonlinear_arith)
            requires
                q >= 1,
                p >= 0,
        ;
        assert((r->0).0 == p / q);
    }
}

/// Nanoseconds of some ticks.
pub proof fn law_nanoseconds(ticks: u64, freq: u32, r: u64)
    requires
        freq > 0,
        ticks * 1_000_000_000 <= u64::MAX,
        call_ensures(ns, (ticks, freq), r),
    ensures
        r * freq <= ticks * 1_000_000_000 < (r + 1) * freq,
{
    let p = ticks * 1_000_000_000;
    let q = freq as int;
    assert((p / q) * q <= p < (p / q + 1) * q) by (nonlinear_arith)
        requires
            q >= 1,
            p >= 0,
    ;
}

/// A software interrupt that the core sends to itself is waited for as long as its handler
/// left no mark and 200 microseconds are not over. Where the mark came, the times to it and
/// back from it are kept; where not, the miss is counted.
pub proof fn law_interrupt_round_trip(
    x: &mut RoundTrips,
    prev: u64,
    mark: u64,
    t0: u64,
    t2: u64,
    freq: u32,
    now: u64,
    more: bool,
)
    requires
        old(x).wf(),
        t0 <= mark <= t2,
        t0 <= now,
        call_ensures(RoundTrips::round, (x, prev, mark, t0, t2), ()),
        call_ensures(RoundTrips::waiting, (prev, mark, t0, now, freq), more),
    ensures
        mark == prev ==> final(x).miss == old(x).miss + 1 && final(x).entry@ == old(x).entry@
            && final(x).resume@ == old(x).resume@,
        mark != prev ==> final(x).miss == old(x).miss && final(x).entry@.drop_last()
            == old(x).entry@ && final(x).entry@.last() == mark - t0 && final(x).resume@.drop_last()
            == old(x).resume@ && final(x).resume@.last() == t2 - mark,
        more <==> mark == prev && 5000 * (now - t0) <= freq,
{
    let a = (mark - t0) as u64;
    let b = (t2 - mark) as u64;
    assert(old(x).entry@.push(a).drop_last() =~= old(x).entry@);
    assert(old(x).resume@.push(b).drop_last() =~= old(x).resume@);
}

/// A sleep is to end after 100 microseconds; where the handler left a mark, how late it ran
/// and how long the sleep took are kept, and where not, the miss is counted.
pub proof fn law_sleep(
    x: &mut Wakes,
    prev: u64,
    mark: u64,
    t0: u64,
    d: u64,
    t2: u64,
    freq: u32,
    end: u64,
)
    requires
        old(x).wf(),
        t0 <= t2,
        d <= mark,
        t0 + freq <= u64::MAX,
        call_ensures(Wakes::round, (x, prev, mark, t0, d, t2), ()),
        call_ensures(Wakes::deadline, (t0, freq), end),
    ensures
        mark == prev ==> final(x).miss == old(x).miss + 1 && final(x).late@ == old(x).late@
            && final(x).whole@ == old(x).whole@,
        mark != prev ==> final(x).miss == old(x).miss && final(x).late@.drop_last() == old(x).late@
            && final(x).late@.last() == mark - d && final(x).whole@.drop_last() == old(x).whole@
            && final(x).whole@.last() == t2 - t0,
        10_000 * (end - t0) <= freq < 10_000 * (end - t0 + 1),
{
    let a = (mark - d) as u64;
    let b = (t2 - t0) as u64;
    assert(old(x).late@.push(a).drop_last() =~= old(x).late@);
    assert(old(x).whole@.push(b).drop_last() =~= old(x).whole@);
}

} // verus!
