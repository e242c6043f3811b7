//! Measurements that look at the clock while they run, and the set-up of the
//! counter that some of them read.
//!
//! Each is a small machine: it says which reading or write is due and takes in
//! what it gave.

use crate::apps::intercom::{ns_of, ticks_to_ns};
use crate::apps::membench::{
    is_plain, packed, times, times_of, wrapping_difference, wrapping_sum, CYCLE_CAL, CYCLE_GAPPED,
    CYCLE_HOT, FRESH_WAIT_RECV, NOW_GAPPED, TMR_B_SCAN, TMR_CAL, TMR_CLKON, TMR_GAPPED, TMR_HOT,
    TMR_SETUP,
};
use vstd::prelude::*;

verus! {

/// How a measurement is carried out.
#[derive(Debug, Clone, Copy, PartialEq, Eq, Structural)]
pub enum Kind {
    /// A plan of accesses, [`crate::apps::membench::MemBench`].
    Plain,
    /// Waiting for a message that is about to be sent.
    Fresh,
    /// Rounds with a pause, [`GapRun`].
    Gapped,
    /// Readings without pauses, [`HotRun`].
    Hot,
    /// A counter against the clock, [`CalRun`].
    Calibration,
    /// The set-up of the counter, [`TimerSetup`].
    Setup,
    /// The look at another block of counters, [`ScanRun`].
    Scan,
    /// Switching the clock of the counters on, [`ClockOn`].
    ClockOn,
    /// There is no such measurement; its result is two zeros.
    Unknown,
}

/// How measurement `op` is carried out.
pub open spec fn kind(op: u32) -> Kind {
    if is_plain(op) {
        Kind::Plain
    } else if op == FRESH_WAIT_RECV {
        Kind::Fresh
    } else if op == NOW_GAPPED || op == CYCLE_GAPPED || op == TMR_GAPPED {
        Kind::Gapped
    } else if op == CYCLE_HOT || op == TMR_HOT {
        Kind::Hot
    } else if op == CYCLE_CAL || op == TMR_CAL {
        Kind::Calibration
    } else if op == TMR_SETUP {
        Kind::Setup
    } else if op == TMR_B_SCAN {
        Kind::Scan
    } else if op == TMR_CLKON {
        Kind::ClockOn
    } else {
        Kind::Unknown
    }
}

/// How measurement `op` is carried out.
pub fn kind_of(op: u32) -> (r: Kind)
    ensures
        r == kind(op),
{
    if op < FRESH_WAIT_RECV || op == crate::apps::membench::DISPATCH_N {
        Kind::Plain
    } else if op == FRESH_WAIT_RECV {
        Kind::Fresh
    } else if op == NOW_GAPPED || op == CYCLE_GAPPED || op == TMR_GAPPED {
        Kind::Gapped
    } else if op == CYCLE_HOT || op == TMR_HOT {
        Kind::Hot
    } else if op == CYCLE_CAL || op == TMR_CAL {
        Kind::Calibration
    } else if op == TMR_SETUP {
        Kind::Setup
    } else if op == TMR_B_SCAN {
        Kind::Scan
    } else if op == TMR_CLKON {
        Kind::ClockOn
    } else {
        Kind::Unknown
    }
}

/// A reading.
#[derive(Debug, Clone, Copy, PartialEq, Eq, Structural)]
pub enum Probe {
    /// Read the system clock.
    Clock,
    /// Read the cycle counter of the core.
    Cycles,
    /// Read the free-running counter.
    Counter,
    /// Spin so many times.
    Spin(u64),
}

/// Spins of the pause of [`CYCLE_GAPPED`].
pub const CYCLE_SPINS: u64 = 12_000;

/// What a measurement with pauses does.
#[derive(Debug, Clone, Copy, PartialEq, Eq, Structural)]
pub struct GapPlan {
    /// Which one it is.
    pub op: u32,
    /// The number of rounds.
    pub rounds: u64,
    /// Clock ticks of a pause: twenty microseconds.
    pub gap: u64,
}

/// What a measurement with pauses does, with a clock of `freq_hz`.
pub fn gap_plan(op: u32, arg: u32, freq_hz: u32) -> (r: GapPlan)
    ensures
        r.op == op,
        r.gap == freq_hz / 50_000,
        r.rounds == (if arg != 0 {
            arg as u64
        } else if op == TMR_GAPPED {
            64
        } else {
            200
        }),
{
    let default: u64 = if op == TMR_GAPPED {
        64
    } else {
        200
    };
    GapPlan { op, rounds: times_of(arg, default), gap: (freq_hz / 50_000) as u64 }
}

/// Where a round with a pause stands.
#[derive(Debug, Clone, Copy, PartialEq, Eq, Structural)]
pub enum GapStage {
    /// The time before the pause is read.
    Begin,
    /// The pause.
    Pause,
    /// The reading whose price is measured.
    Between,
    /// The time after it is read.
    End,
}

/// Rounds of a time, a pause and a time. [`NOW_GAPPED`] reads the clock only;
/// [`TMR_GAPPED`] reads the counter once after the pause; [`CYCLE_GAPPED`] reads
/// the cycle counter and spins.
#[derive(Debug, Clone, Copy, PartialEq, Eq, Structural)]
pub struct GapRun {
    /// What is done.
    pub plan: GapPlan,
    /// Rounds that are left.
    pub left: u64,
    /// The times of the rounds, added up modulo 2^64.
    pub total: u64,
    /// The time before the pause.
    pub t0: u64,
    /// Where the round stands.
    pub stage: GapStage,
}

/// The reading that is due; `None` at the end.
pub open spec fn gap_due(s: GapRun) -> Option<Probe> {
    let cycles = s.plan.op == CYCLE_GAPPED;
    if s.left == 0 {
        None
    } else {
        Some(
            match s.stage {
                GapStage::Begin | GapStage::End => if cycles {
                    Probe::Cycles
                } else {
                    Probe::Clock
                },
                GapStage::Pause => if cycles {
                    Probe::Spin(CYCLE_SPINS)
                } else {
                    Probe::Clock
                },
                GapStage::Between => Probe::Counter,
            },
        )
    }
}

/// The run after a reading gave `v`.
pub open spec fn gap_moved(s: GapRun, v: u64) -> GapRun {
    if s.left == 0 {
        s
    } else {
        match s.stage {
            GapStage::Begin => GapRun { t0: v, stage: GapStage::Pause, ..s },
            GapStage::Pause => if s.plan.op == CYCLE_GAPPED {
                GapRun { stage: GapStage::End, ..s }
            } else if v < s.t0 + s.plan.gap {
                s
            } else if s.plan.op == TMR_GAPPED {
                GapRun { stage: GapStage::Between, ..s }
            } else {
                GapRun { stage: GapStage::End, ..s }
            },
            GapStage::Between => GapRun { stage: GapStage::End, ..s },
            GapStage::End => GapRun {
                left: (s.left - 1) as u64,
                total: wrapping_sum(s.total, wrapping_difference(v, s.t0)),
                stage: GapStage::Begin,
                ..s
            },
        }
    }
}

impl GapRun {
    /// The end of the pause fits in a word, and the pause is one of a clock of
    /// 32 bits of frequency.
    pub open spec fn wf(self) -> bool {
        &&& self.plan.gap <= 85_899
        &&& self.stage == GapStage::Pause && self.plan.op != CYCLE_GAPPED ==> self.t0
            + self.plan.gap <= u64::MAX
    }

    /// Before the first round.
    pub fn begin(plan: GapPlan) -> (r: GapRun)
        requires
            plan.gap <= 85_899,
        ensures
            r == (GapRun { plan, left: plan.rounds, total: 0, t0: 0, stage: GapStage::Begin }),
            r.wf(),
    {
        GapRun { plan, left: plan.rounds, total: 0, t0: 0, stage: GapStage::Begin }
    }

    /// The reading that is due; `None` at the end.
    pub fn due(&self) -> (r: Option<Probe>)
        ensures
            r == gap_due(*self),
    {
        let cycles = self.plan.op == CYCLE_GAPPED;
        if self.left == 0 {
            return None;
        }
        Some(
            match self.stage {
                GapStage::Begin | GapStage::End => if cycles {
                    Probe::Cycles
                } else {
                    Probe::Clock
                },
                GapStage::Pause => if cycles {
                    Probe::Spin(CYCLE_SPINS)
                } else {
                    Probe::Clock
                },
                GapStage::Between => Probe::Counter,
            },
        )
    }

    /// Takes in what the reading gave.
    pub fn advance(&mut self, v: u64)
        requires
            old(self).wf(),
            old(self).stage == GapStage::Begin && old(self).plan.op != CYCLE_GAPPED ==> v + old(
                self,
            ).plan.gap <= u64::MAX,
        ensures
            *final(self) == gap_moved(*old(self), v),
            final(self).wf(),
    {
        if self.left == 0 {
            return;
        }
        match self.stage {
            GapStage::Begin => {
                self.t0 = v;
                self.stage = GapStage::Pause;
            },
            GapStage::Pause => {
                if self.plan.op == CYCLE_GAPPED {
                    self.stage = GapStage::End;
                } else if v >= self.t0 + self.plan.gap {
                    self.stage = if self.plan.op == TMR_GAPPED {
                        GapStage::Between
                    } else {
                        GapStage::End
                    };
                }
            },
            GapStage::Between => {
                self.stage = GapStage::End;
            },
            GapStage::End => {
                self.total = self.total.wrapping_add(v.wrapping_sub(self.t0));
                self.left = self.left - 1;
                self.stage = GapStage::Begin;
            },
        }
    }

    /// The result: the times and one pause, in nanoseconds; of
    /// [`CYCLE_GAPPED`], in cycles and spins.
    pub fn finish(&self) -> (r: (u64, u64))
        requires
            self.wf(),
            self.plan.op != CYCLE_GAPPED ==> self.total * 1_000_000_000 <= u64::MAX,
        ensures
            r == (if self.plan.op == CYCLE_GAPPED {
                (self.total, CYCLE_SPINS)
            } else {
                (ns_of(self.total as nat) as u64, ns_of(self.plan.gap as nat) as u64)
            }),
    {
        if self.plan.op == CYCLE_GAPPED {
            (self.total, CYCLE_SPINS)
        } else {
            (ticks_to_ns(self.total), ticks_to_ns(self.plan.gap))
        }
    }
}

/// A round measures no less than its pause: the clock has passed the end of the
/// pause before the round goes on.
pub proof fn law_pause_is_kept(s: GapRun, v: u64)
    requires
        s.wf(),
        s.left > 0,
        s.stage == GapStage::Pause,
        s.plan.op != CYCLE_GAPPED,
    ensures
        gap_moved(s, v).stage != GapStage::Pause <==> v >= s.t0 + s.plan.gap,
        gap_moved(s, v).t0 == s.t0,
{
}

/// A round adds the time from before its pause to its end, whatever was read in
/// between.
pub proof fn law_round_is_counted(s: GapRun, t0: u64, mid: u64, late: u64, t1: u64)
    requires
        s.left > 0,
        s.stage == GapStage::Begin,
        s.plan.op != CYCLE_GAPPED,
        t0 + s.plan.gap <= late,
    ensures
        ({
            let paused = gap_moved(gap_moved(s, t0), late);
            let done = gap_moved(
                if s.plan.op == TMR_GAPPED {
                    gap_moved(paused, mid)
                } else {
                    paused
                },
                t1,
            );
            &&& done.left == s.left - 1
            &&& done.stage == GapStage::Begin
            &&& done.total == wrapping_sum(s.total, wrapping_difference(t1, t0))
        }),
{
}

/// What a measurement without pauses does.
#[derive(Debug, Clone, Copy, PartialEq, Eq, Structural)]
pub struct HotPlan {
    /// Which one it is.
    pub op: u32,
    /// The number of readings.
    pub reads: u64,
    /// The second number of the result.
    pub told: u64,
}

/// What a measurement without pauses does: a thousand readings of the cycle
/// counter; or `arg` readings of the free-running counter, four thousand where
/// it is zero. The result tells the usual number of readings.
pub fn hot_plan(op: u32, arg: u32) -> (r: HotPlan)
    ensures
        r == (if op == TMR_HOT {
            HotPlan { op, reads: times(arg, 4000), told: 4000 }
        } else {
            HotPlan { op, reads: 1000, told: 1000 }
        }),
{
    if op == TMR_HOT {
        HotPlan { op, reads: times_of(arg, 4000), told: 4000 }
    } else {
        HotPlan { op, reads: 1000, told: 1000 }
    }
}

/// Where a measurement without pauses stands.
#[derive(Debug, Clone, Copy, PartialEq, Eq, Structural)]
pub enum HotStage {
    /// The time before the readings is read.
    First,
    /// So many readings are left.
    Reads(u64),
    /// The time after the readings is read.
    Last,
    /// Finished.
    Done,
}

/// Readings between two times: of the cycle counter between two readings of its
/// own, or of the free-running counter between two of the clock.
#[derive(Debug, Clone, Copy, PartialEq, Eq, Structural)]
pub struct HotRun {
    /// What is done.
    pub plan: HotPlan,
    /// Where it stands.
    pub stage: HotStage,
    /// The time before the readings.
    pub first: u64,
    /// The time after the readings.
    pub last: u64,
}

/// The reading that is due; `None` at the end.
pub open spec fn hot_due(s: HotRun) -> Option<Probe> {
    let counter = s.plan.op == TMR_HOT;
    match s.stage {
        HotStage::First | HotStage::Last => Some(
            if counter {
                Probe::Clock
            } else {
                Probe::Cycles
            },
        ),
        HotStage::Reads(_) => Some(
            if counter {
                Probe::Counter
            } else {
                Probe::Cycles
            },
        ),
        HotStage::Done => None,
    }
}

/// The stage with `n` readings left.
pub open spec fn hot_left(n: u64) -> HotStage {
    if n == 0 {
        HotStage::Last
    } else {
        HotStage::Reads(n)
    }
}

/// The run after a reading gave `v`.
pub open spec fn hot_moved(s: HotRun, v: u64) -> HotRun {
    match s.stage {
        HotStage::First => HotRun { first: v, stage: hot_left(s.plan.reads), ..s },
        HotStage::Reads(n) => HotRun { stage: hot_left((n - 1) as u64), ..s },
        HotStage::Last => HotRun { last: v, stage: HotStage::Done, ..s },
        HotStage::Done => s,
    }
}

impl HotRun {
    /// Readings are left while there are readings.
    pub open spec fn wf(self) -> bool {
        self.stage != HotStage::Reads(0)
    }

    /// Before the first time.
    pub fn begin(plan: HotPlan) -> (r: HotRun)
        ensures
            r == (HotRun { plan, stage: HotStage::First, first: 0, last: 0 }),
            r.wf(),
    {
        HotRun { plan, stage: HotStage::First, first: 0, last: 0 }
    }

    /// The reading that is due; `None` at the end.
    pub fn due(&self) -> (r: Option<Probe>)
        ensures
            r == hot_due(*self),
    {
        let counter = self.plan.op == TMR_HOT;
        match self.stage {
            HotStage::First | HotStage::Last => Some(
                if counter {
                    Probe::Clock
                } else {
                    Probe::Cycles
                },
            ),
            HotStage::Reads(_) => Some(
                if counter {
                    Probe::Counter
                } else {
                    Probe::Cycles
                },
            ),
            HotStage::Done => None,
        }
    }

    /// Takes in what the reading gave.
    pub fn advance(&mut self, v: u64)
        requires
            old(self).wf(),
        ensures
            *final(self) == hot_moved(*old(self), v),
            final(self).wf(),
    {
        match self.stage {
            HotStage::First => {
                self.first = v;
                self.stage = if self.plan.reads == 0 {
                    HotStage::Last
                } else {
                    HotStage::Reads(self.plan.reads)
                };
            },
            HotStage::Reads(n) => {
                self.stage = if n == 1 {
                    HotStage::Last
                } else {
                    HotStage::Reads(n - 1)
                };
            },
            HotStage::Last => {
                self.last = v;
                self.stage = HotStage::Done;
            },
            HotStage::Done => {},
        }
    }

    /// The result: the time of the readings, in nanoseconds or in cycles, and
    /// their usual number.
    pub fn finish(&self) -> (r: (u64, u64))
        requires
            self.plan.op == TMR_HOT ==> wrapping_difference(self.last, self.first) * 1_000_000_000
                <= u64::MAX,
        ensures
            r == (
                if self.plan.op == TMR_HOT {
                    ns_of(wrapping_difference(self.last, self.first) as nat) as u64
                } else {
                    wrapping_difference(self.last, self.first)
                },
                self.plan.told,
            ),
    {
        let d: u64 = self.last.wrapping_sub(self.first);
        if self.plan.op == TMR_HOT {
            (ticks_to_ns(d), self.plan.told)
        } else {
            (d, self.plan.told)
        }
    }
}

/// Clock ticks of a calibration: five milliseconds.
pub const CAL_TICKS: u64 = 120_000;

/// Whether a calibration that began at `m0` is over at `now`.
pub fn cal_over(m0: u64, now: u64) -> (r: bool)
    requires
        m0 + CAL_TICKS <= u64::MAX,
    ensures
        r == (now >= m0 + 120_000),
{
    now >= m0 + CAL_TICKS
}

/// Where a calibration stands.
#[derive(Debug, Clone, Copy, PartialEq, Eq, Structural)]
pub enum CalStage {
    /// The clock is read.
    Clock0,
    /// The counter is read.
    Count0,
    /// The clock is read until the time is over.
    Wait,
    /// The counter is read again.
    Count1,
    /// The clock is read again.
    Clock1,
    /// Finished.
    Done,
}

/// A counter against the clock: the cycle counter, or the free-running one.
#[derive(Debug, Clone, Copy, PartialEq, Eq, Structural)]
pub struct CalRun {
    /// Which one it is.
    pub op: u32,
    /// Where it stands.
    pub stage: CalStage,
    /// The clock at the start.
    pub m0: u64,
    /// The counter at the start.
    pub c0: u64,
    /// The counter at the end.
    pub c1: u64,
    /// The clock at the end.
    pub m1: u64,
}

/// The reading that is due; `None` at the end.
pub open spec fn cal_due(s: CalRun) -> Option<Probe> {
    match s.stage {
        CalStage::Clock0 | CalStage::Wait | CalStage::Clock1 => Some(Probe::Clock),
        CalStage::Count0 | CalStage::Count1 => Some(
            if s.op == CYCLE_CAL {
                Probe::Cycles
            } else {
                Probe::Counter
            },
        ),
        CalStage::Done => None,
    }
}

/// The calibration after a reading gave `v`.
pub open spec fn cal_moved(s: CalRun, v: u64) -> CalRun {
    match s.stage {
        CalStage::Clock0 => CalRun { m0: v, stage: CalStage::Count0, ..s },
        CalStage::Count0 => CalRun { c0: v, stage: CalStage::Wait, ..s },
        CalStage::Wait => if v >= s.m0 + CAL_TICKS {
            CalRun { stage: CalStage::Count1, ..s }
        } else {
            s
        },
        CalStage::Count1 => CalRun { c1: v, stage: CalStage::Clock1, ..s },
        CalStage::Clock1 => CalRun { m1: v, stage: CalStage::Done, ..s },
        CalStage::Done => s,
    }
}

impl CalRun {
    /// The end of the wait fits in a word.
    pub open spec fn wf(self) -> bool {
        self.m0 + CAL_TICKS <= u64::MAX
    }

    /// Before the first reading.
    pub fn begin(op: u32) -> (r: CalRun)
        ensures
            r == (CalRun { op, stage: CalStage::Clock0, m0: 0, c0: 0, c1: 0, m1: 0 }),
            r.wf(),
    {
        CalRun { op, stage: CalStage::Clock0, m0: 0, c0: 0, c1: 0, m1: 0 }
    }

    /// The reading that is due; `None` at the end.
    pub fn due(&self) -> (r: Option<Probe>)
        ensures
            r == cal_due(*self),
    {
        match self.stage {
            CalStage::Clock0 | CalStage::Wait | CalStage::Clock1 => Some(Probe::Clock),
            CalStage::Count0 | CalStage::Count1 => Some(
                if self.op == CYCLE_CAL {
                    Probe::Cycles
                } else {
                    Probe::Counter
                },
            ),
            CalStage::Done => None,
        }
    }

    /// Takes in what the reading gave.
    pub fn advance(&mut self, v: u64)
        requires
            old(self).wf(),
            old(self).stage == CalStage::Clock0 ==> v + CAL_TICKS <= u64::MAX,
        ensures
            *final(self) == cal_moved(*old(self), v),
            final(self).wf(),
    {
        match self.stage {
            CalStage::Clock0 => {
                self.m0 = v;
                self.stage = CalStage::Count0;
            },
            CalStage::Count0 => {
                self.c0 = v;
                self.stage = CalStage::Wait;
            },
            CalStage::Wait => {
                if cal_over(self.m0, v) {
                    self.stage = CalStage::Count1;
                }
            },
            CalStage::Count1 => {
                self.c1 = v;
                self.stage = CalStage::Clock1;
            },
            CalStage::Clock1 => {
                self.m1 = v;
                self.stage = CalStage::Done;
            },
            CalStage::Done => {},
        }
    }

    /// The result: what the counter and the clock advanced by, modulo 2^64.
    pub fn finish(&self) -> (r: (u64, u64))
        ensures
            r == (wrapping_difference(self.c1, self.c0), wrapping_difference(self.m1, self.m0)),
    {
        (self.c1.wrapping_sub(self.c0), self.m1.wrapping_sub(self.m0))
    }
}

/// Clock ticks of a millisecond, the pause of [`ScanRun`] and [`ClockOn`].
pub const PAUSE_TICKS: u64 = 24_000;

/// Whether a pause that began at `t0` is over at `now`.
pub fn pause_over(t0: u64, now: u64) -> (r: bool)
    requires
        t0 + PAUSE_TICKS <= u64::MAX,
    ensures
        r == (now >= t0 + 24_000),
{
    now >= t0 + PAUSE_TICKS
}

/// The enable register of the other block of counters.
pub const TMR0_CER: u64 = 0xd401_4000;

/// The first counter of that block.
pub const TMR0_CR0: u64 = 0xd401_4090;

/// The second counter of that block.
pub const TMR0_CR1: u64 = 0xd401_4094;

/// An access of the look at another block of counters.
#[derive(Debug, Clone, Copy, PartialEq, Eq, Structural)]
pub enum ScanAccess {
    /// Read the 32-bit register at an address.
    Read(u64),
    /// Wait for a millisecond.
    Pause,
}

/// Looks at another block of counters: whether its first counter advances within
/// a millisecond.
#[derive(Debug, Clone, Copy, PartialEq, Eq, Structural)]
pub struct ScanRun {
    /// Accesses done, up to five.
    pub done: u8,
    /// The first counter, before the pause.
    pub first: u32,
    /// The enable register.
    pub cer: u32,
    /// The second counter.
    pub cr1: u32,
    /// The first counter, after the pause.
    pub second: u32,
}

/// The access that is due; `None` at the end.
pub open spec fn scan_due(s: ScanRun) -> Option<ScanAccess> {
    if s.done == 0 || s.done == 4 {
        Some(ScanAccess::Read(TMR0_CR0))
    } else if s.done == 1 {
        Some(ScanAccess::Read(TMR0_CER))
    } else if s.done == 2 {
        Some(ScanAccess::Read(TMR0_CR1))
    } else if s.done == 3 {
        Some(ScanAccess::Pause)
    } else {
        None
    }
}

/// The look after an access gave `v`.
pub open spec fn scan_moved(s: ScanRun, v: u32) -> ScanRun {
    if s.done == 0 {
        ScanRun { first: v, done: 1, ..s }
    } else if s.done == 1 {
        ScanRun { cer: v, done: 2, ..s }
    } else if s.done == 2 {
        ScanRun { cr1: v, done: 3, ..s }
    } else if s.done == 3 {
        ScanRun { done: 4, ..s }
    } else if s.done == 4 {
        ScanRun { second: v, done: 5, ..s }
    } else {
        s
    }
}

impl ScanRun {
    /// Before the first access.
    pub fn begin() -> (r: ScanRun)
        ensures
            r == (ScanRun { done: 0, first: 0, cer: 0, cr1: 0, second: 0 }),
    {
        ScanRun { done: 0, first: 0, cer: 0, cr1: 0, second: 0 }
    }

    /// The access that is due; `None` at the end.
    pub fn due(&self) -> (r: Option<ScanAccess>)
        ensures
            r == scan_due(*self),
    {
        match self.done {
            0 | 4 => Some(ScanAccess::Read(TMR0_CR0)),
            1 => Some(ScanAccess::Read(TMR0_CER)),
            2 => Some(ScanAccess::Read(TMR0_CR1)),
            3 => Some(ScanAccess::Pause),
            _ => None,
        }
    }

    /// Takes in what the access gave.
    pub fn advance(&mut self, v: u32)
        ensures
            *final(self) == scan_moved(*old(self), v),
    {
        match self.done {
            0 => {
                self.first = v;
                self.done = 1;
            },
            1 => {
                self.cer = v;
                self.done = 2;
            },
            2 => {
                self.cr1 = v;
                self.done = 3;
            },
            3 => {
                self.done = 4;
            },
            4 => {
                self.second = v;
                self.done = 5;
            },
            _ => {},
        }
    }

    /// The result: the first counter after and before the pause, and the enable
    /// register with the second counter.
    pub fn finish(&self) -> (r: (u64, u64))
        ensures
            r == (
                packed(self.second as u64, self.first as u64),
                packed(self.cer as u64, self.cr1 as u64),
            ),
    {
        (
            ((self.second as u64) << 32) | self.first as u64,
            ((self.cer as u64) << 32) | self.cr1 as u64,
        )
    }
}

/// Registers of the counters.
#[derive(Debug, Clone, Copy, PartialEq, Eq, Structural)]
pub enum TimerAccess {
    /// Read the mode register.
    ReadMode,
    /// Write the mode register.
    WriteMode(u32),
    /// Let the counter run freely.
    ClearPreload,
    /// Read the enable register.
    ReadEnable,
    /// Write the enable register.
    WriteEnable(u32),
    /// Read the enable register back.
    VerifyEnable,
    /// Read the enable register for the result.
    ReadResult,
}

/// Sets the second counter of a block up as a free-running one. The enable
/// register is shared with another core, so the write is checked and repeated
/// up to eight times.
#[derive(Debug, Clone, Copy, PartialEq, Eq, Structural)]
pub struct TimerSetup {
    /// The access that is due; `None` at the end.
    pub due: Option<TimerAccess>,
    /// Attempts that failed.
    pub retries: u64,
    /// The enable register at the end.
    pub cer: u32,
}

/// Attempts to enable the counter.
pub const ENABLE_ATTEMPTS: u64 = 8;

/// The set-up after an access gave `v` (zero for a write).
pub open spec fn timer_moved(s: TimerSetup, v: u32) -> TimerSetup {
    match s.due {
        Some(TimerAccess::ReadMode) => TimerSetup {
            due: Some(TimerAccess::WriteMode(v | 2)),
            ..s
        },
        Some(TimerAccess::WriteMode(_)) => TimerSetup { due: Some(TimerAccess::ClearPreload), ..s },
        Some(TimerAccess::ClearPreload) => TimerSetup { due: Some(TimerAccess::ReadEnable), ..s },
        Some(TimerAccess::ReadEnable) => TimerSetup {
            due: Some(TimerAccess::WriteEnable(v | 2)),
            ..s
        },
        Some(TimerAccess::WriteEnable(_)) => TimerSetup {
            due: Some(TimerAccess::VerifyEnable),
            ..s
        },
        Some(TimerAccess::VerifyEnable) => if v & 2 != 0 {
            TimerSetup { due: Some(TimerAccess::ReadResult), ..s }
        } else {
            TimerSetup {
                due: Some(
                    if s.retries + 1 < ENABLE_ATTEMPTS {
                        TimerAccess::ReadEnable
                    } else {
                        TimerAccess::ReadResult
                    },
                ),
                retries: (s.retries + 1) as u64,
                ..s
            }
        },
        Some(TimerAccess::ReadResult) => TimerSetup { due: None, cer: v, ..s },
        None => s,
    }
}

impl TimerSetup {
    /// No more attempts failed than were made.
    pub open spec fn wf(self) -> bool {
        self.retries <= ENABLE_ATTEMPTS && (self.due == Some(TimerAccess::VerifyEnable)
            ==> self.retries < ENABLE_ATTEMPTS) && (self.due == Some(TimerAccess::ReadEnable)
            ==> self.retries < ENABLE_ATTEMPTS) && (self.due matches Some(
            TimerAccess::WriteEnable(_),
        ) ==> self.retries < ENABLE_ATTEMPTS) && (self.due matches Some(TimerAccess::WriteMode(_))
            ==> self.retries == 0) && (self.due == Some(TimerAccess::ReadMode) ==> self.retries
            == 0) && (self.due == Some(TimerAccess::ClearPreload) ==> self.retries == 0)
    }

    /// Starts.
    pub fn begin() -> (r: TimerSetup)
        ensures
            r == (TimerSetup { due: Some(TimerAccess::ReadMode), retries: 0, cer: 0 }),
            r.wf(),
    {
        TimerSetup { due: Some(TimerAccess::ReadMode), retries: 0, cer: 0 }
    }

    /// Takes in what the access gave.
    pub fn advance(&mut self, v: u32)
        requires
            old(self).wf(),
        ensures
            *final(self) == timer_moved(*old(self), v),
            final(self).wf(),
    {
        match self.due {
            Some(TimerAccess::ReadMode) => {
                self.due = Some(TimerAccess::WriteMode(v | 2));
            },
            Some(TimerAccess::WriteMode(_)) => {
                self.due = Some(TimerAccess::ClearPreload);
            },
            Some(TimerAccess::ClearPreload) => {
                self.due = Some(TimerAccess::ReadEnable);
            },
            Some(TimerAccess::ReadEnable) => {
                self.due = Some(TimerAccess::WriteEnable(v | 2));
            },
            Some(TimerAccess::WriteEnable(_)) => {
                self.due = Some(TimerAccess::VerifyEnable);
            },
            Some(TimerAccess::VerifyEnable) => {
                if v & 2 != 0 {
                    self.due = Some(TimerAccess::ReadResult);
                } else {
                    self.retries = self.retries + 1;
                    self.due = Some(
                        if self.retries < ENABLE_ATTEMPTS {
                            TimerAccess::ReadEnable
                        } else {
                            TimerAccess::ReadResult
                        },
                    );
                }
            },
            Some(TimerAccess::ReadResult) => {
                self.due = None;
                self.cer = v;
            },
            None => {},
        }
    }

    /// The result of setting the counter up within `ticks` ticks.
    pub fn finish(&self, ticks: u64) -> (r: (u64, u64))
        requires
            ticks * 1_000_000_000 <= u64::MAX,
        ensures
            r == (ns_of(ticks as nat) as u64, packed(self.cer as u64, self.retries)),
    {
        (ticks_to_ns(ticks), ((self.cer as u64) << 32) | self.retries)
    }

    /// Whether the counter runs.
    pub fn enabled(&self) -> (r: bool)
        ensures
            r == (self.cer & 2 != 0),
    {
        self.cer & 2 != 0
    }
}

/// An access of switching the clock of the counters on.
#[derive(Debug, Clone, Copy, PartialEq, Eq, Structural)]
pub enum ClockAccess {
    /// Read the clock register.
    ReadGate,
    /// Write the clock register.
    WriteGate(u32),
    /// An access of the set-up of the counter.
    Timer(TimerAccess),
    /// Read the counter.
    ReadCounter,
    /// Wait for a millisecond.
    Pause,
}

/// Where switching the clock on stands.
#[derive(Debug, Clone, Copy, PartialEq, Eq, Structural)]
pub enum ClockStage {
    /// The clock register is read.
    ReadBefore,
    /// Its low three bits are cleared.
    Clear,
    /// The clock is switched on with the reset bit set.
    SetFirst,
    /// The counter is set up.
    EnableFirst,
    /// The clock is switched on with the reset bit clear.
    SetSecond,
    /// The counter is set up once more.
    EnableSecond,
    /// The clock register is read again.
    ReadAfter,
    /// The counter is read.
    Count0,
    /// A millisecond passes.
    Wait,
    /// The counter is read again.
    Count1,
    /// Finished.
    Done,
}

/// Switches the clock of the counters on and looks whether the counter runs. It
/// is not known which level of the reset bit lets the block run: it is tried
/// set, and where the counter does not take the enable bit then, clear.
#[derive(Debug, Clone, Copy, PartialEq, Eq, Structural)]
pub struct ClockOn {
    /// Where it stands.
    pub stage: ClockStage,
    /// The clock register before.
    pub before: u32,
    /// The clock register after.
    pub after: u32,
    /// The set-up of the counter that runs.
    pub timer: TimerSetup,
    /// The second variant was tried.
    pub second: bool,
    /// Attempts that failed, of both variants.
    pub retries: u64,
    /// The enable register at the end of the last set-up.
    pub cer: u32,
    /// The counter before the wait.
    pub c0: u32,
    /// The counter after the wait.
    pub c1: u32,
}

/// A set-up of the counter that has not begun.
pub open spec fn timer_begun() -> TimerSetup {
    TimerSetup { due: Some(TimerAccess::ReadMode), retries: 0, cer: 0 }
}

/// The access that is due; `None` at the end.
pub open spec fn clock_due(s: ClockOn) -> Option<ClockAccess> {
    let keep = s.before & !7u32;
    match s.stage {
        ClockStage::ReadBefore | ClockStage::ReadAfter => Some(ClockAccess::ReadGate),
        ClockStage::Clear => Some(ClockAccess::WriteGate(keep)),
        ClockStage::SetFirst => Some(ClockAccess::WriteGate(keep | 7)),
        ClockStage::SetSecond => Some(ClockAccess::WriteGate(keep | 3)),
        ClockStage::EnableFirst | ClockStage::EnableSecond => match s.timer.due {
            Some(a) => Some(ClockAccess::Timer(a)),
            None => None,
        },
        ClockStage::Count0 | ClockStage::Count1 => Some(ClockAccess::ReadCounter),
        ClockStage::Wait => Some(ClockAccess::Pause),
        ClockStage::Done => None,
    }
}

/// What follows an access of the set-up of the counter.
pub open spec fn clock_enabled(s: ClockOn, t: TimerSetup) -> ClockOn {
    if t.due is Some {
        ClockOn { timer: t, ..s }
    } else {
        ClockOn {
            timer: t,
            retries: (s.retries + t.retries) as u64,
            cer: t.cer,
            second: s.second || t.cer & 2 == 0,
            stage: if s.stage == ClockStage::EnableFirst && t.cer & 2 == 0 {
                ClockStage::SetSecond
            } else {
                ClockStage::ReadAfter
            },
            ..s
        }
    }
}

/// The state after an access gave `v` (zero for a write or a wait).
pub open spec fn clock_moved(s: ClockOn, v: u32) -> ClockOn {
    match s.stage {
        ClockStage::ReadBefore => ClockOn { before: v, stage: ClockStage::Clear, ..s },
        ClockStage::Clear => ClockOn { stage: ClockStage::SetFirst, ..s },
        ClockStage::SetFirst => ClockOn {
            timer: timer_begun(),
            stage: ClockStage::EnableFirst,
            ..s
        },
        ClockStage::SetSecond => ClockOn {
            timer: timer_begun(),
            stage: ClockStage::EnableSecond,
            ..s
        },
        ClockStage::EnableFirst | ClockStage::EnableSecond => clock_enabled(
            s,
            timer_moved(s.timer, v),
        ),
        ClockStage::ReadAfter => ClockOn { after: v, stage: ClockStage::Count0, ..s },
        ClockStage::Count0 => ClockOn { c0: v, stage: ClockStage::Wait, ..s },
        ClockStage::Wait => ClockOn { stage: ClockStage::Count1, ..s },
        ClockStage::Count1 => ClockOn { c1: v, stage: ClockStage::Done, ..s },
        ClockStage::Done => s,
    }
}

impl ClockOn {
    /// The set-up of the counter is in order, and no more attempts failed than
    /// were made.
    pub open spec fn wf(self) -> bool {
        &&& self.timer.wf()
        &&& self.retries <= 2 * ENABLE_ATTEMPTS
        &&& self.stage == ClockStage::SetSecond || self.stage == ClockStage::EnableSecond
            ==> self.retries <= ENABLE_ATTEMPTS && self.second
        &&& self.stage == ClockStage::ReadBefore || self.stage == ClockStage::Clear || self.stage
            == ClockStage::SetFirst || self.stage == ClockStage::EnableFirst ==> self.retries == 0
            && !self.second
        &&& self.stage == ClockStage::EnableFirst || self.stage == ClockStage::EnableSecond
            ==> self.timer.due is Some
    }

    /// Before the first access.
    pub fn begin() -> (r: ClockOn)
        ensures
            r == (ClockOn {
                stage: ClockStage::ReadBefore,
                before: 0,
                after: 0,
                timer: timer_begun(),
                second: false,
                retries: 0,
                cer: 0,
                c0: 0,
                c1: 0,
            }),
            r.wf(),
    {
        ClockOn {
            stage: ClockStage::ReadBefore,
            before: 0,
            after: 0,
            timer: TimerSetup::begin(),
            second: false,
            retries: 0,
            cer: 0,
            c0: 0,
            c1: 0,
        }
    }

    /// The access that is due; `None` at the end.
    pub fn due(&self) -> (r: Option<ClockAccess>)
        ensures
            r == clock_due(*self),
    {
        let keep: u32 = self.before & !7u32;
        match self.stage {
            ClockStage::ReadBefore | ClockStage::ReadAfter => Some(ClockAccess::ReadGate),
            ClockStage::Clear => Some(ClockAccess::WriteGate(keep)),
            ClockStage::SetFirst => Some(ClockAccess::WriteGate(keep | 7)),
            ClockStage::SetSecond => Some(ClockAccess::WriteGate(keep | 3)),
            ClockStage::EnableFirst | ClockStage::EnableSecond => match self.timer.due {
                Some(a) => Some(ClockAccess::Timer(a)),
                None => None,
            },
            ClockStage::Count0 | ClockStage::Count1 => Some(ClockAccess::ReadCounter),
            ClockStage::Wait => Some(ClockAccess::Pause),
            ClockStage::Done => None,
        }
    }

    /// Takes in what the access gave (zero for a write or a wait).
    pub fn advance(&mut self, v: u32)
        requires
            old(self).wf(),
        ensures
            *final(self) == clock_moved(*old(self), v),
            final(self).wf(),
    {
        match self.stage {
            ClockStage::ReadBefore => {
                self.before = v;
                self.stage = ClockStage::Clear;
            },
            ClockStage::Clear => {
                self.stage = ClockStage::SetFirst;
            },
            ClockStage::SetFirst => {
                self.timer = TimerSetup::begin();
                self.stage = ClockStage::EnableFirst;
            },
            ClockStage::SetSecond => {
                self.timer = TimerSetup::begin();
                self.stage = ClockStage::EnableSecond;
            },
            ClockStage::EnableFirst | ClockStage::EnableSecond => {
                let first = self.stage == ClockStage::EnableFirst;
                self.timer.advance(v);
                if self.timer.due.is_none() {
                    let runs = self.timer.enabled();
                    self.retries = self.retries + self.timer.retries;
                    self.cer = self.timer.cer;
                    self.second = self.second || !runs;
                    self.stage = if first && !runs {
                        ClockStage::SetSecond
                    } else {
                        ClockStage::ReadAfter
                    };
                }
            },
            ClockStage::ReadAfter => {
                self.after = v;
                self.stage = ClockStage::Count0;
            },
            ClockStage::Count0 => {
                self.c0 = v;
                self.stage = ClockStage::Wait;
            },
            ClockStage::Wait => {
                self.stage = ClockStage::Count1;
            },
            ClockStage::Count1 => {
                self.c1 = v;
                self.stage = ClockStage::Done;
            },
            ClockStage::Done => {},
        }
    }

    /// The result: the clock register, and the enable register with what the
    /// counter advanced by, modulo 2^32.
    pub fn finish(&self) -> (r: (u64, u64))
        ensures
            r == (
                self.after as u64,
                packed(
                    self.cer as u64,
                    wrapping_difference(self.c1 as u64, self.c0 as u64) & 0xffff_ffff,
                ),
            ),
    {
        let d: u64 = (self.c1 as u64).wrapping_sub(self.c0 as u64);
        (self.after as u64, ((self.cer as u64) << 32) | (d & 0xffff_ffff))
    }
}

/// Accesses that a set-up of the counter has at most before it.
pub open spec fn timer_left(t: TimerSetup) -> int {
    let tries = ENABLE_ATTEMPTS - t.retries;
    match t.due {
        Some(TimerAccess::ReadMode) => 28,
        Some(TimerAccess::WriteMode(_)) => 27,
        Some(TimerAccess::ClearPreload) => 26,
        Some(TimerAccess::ReadEnable) => 3 * tries + 1,
        Some(TimerAccess::WriteEnable(_)) => 3 * tries,
        Some(TimerAccess::VerifyEnable) => 3 * tries - 1,
        Some(TimerAccess::ReadResult) => 1,
        None => 0,
    }
}

/// Accesses that switching the clock on has at most before it.
pub open spec fn clock_left(s: ClockOn) -> int {
    match s.stage {
        ClockStage::ReadBefore => 66,
        ClockStage::Clear => 65,
        ClockStage::SetFirst => 64,
        ClockStage::EnableFirst => 34 + timer_left(s.timer),
        ClockStage::SetSecond => 33,
        ClockStage::EnableSecond => 4 + timer_left(s.timer),
        ClockStage::ReadAfter => 4,
        ClockStage::Count0 => 3,
        ClockStage::Wait => 2,
        ClockStage::Count1 => 1,
        ClockStage::Done => 0,
    }
}

/// Setting the counter up ends after at most 28 accesses.
pub proof fn law_setup_ends(t: TimerSetup, v: u32)
    requires
        t.wf(),
        t.due is Some,
    ensures
        0 <= timer_left(timer_moved(t, v)) < timer_left(t) <= 28,
{
}

/// Switching the clock on ends after at most 66 accesses.
pub proof fn law_clock_on_ends(s: ClockOn, v: u32)
    requires
        s.wf(),
        s.stage != ClockStage::Done,
    ensures
        0 <= clock_left(clock_moved(s, v)) < clock_left(s) <= 66,
{
    if s.timer.due is Some {
        law_setup_ends(s.timer, v);
    }
}

/// The second variant is tried only where the first did not let the counter take
/// its enable bit.
pub proof fn law_second_variant_is_a_fallback(s: ClockOn, v: u32)
    requires
        s.wf(),
        s.stage != ClockStage::SetSecond,
        clock_moved(s, v).stage == ClockStage::SetSecond,
    ensures
        s.stage == ClockStage::EnableFirst,
        clock_moved(s, v).cer & 2 == 0,
{
}

} // verus!
