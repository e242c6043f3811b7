//! A benchmark of the real-time core: what is measured, and what the readings
//! come to.

use vstd::prelude::*;

verus! {

/// Most results that are kept.
pub const MAX_ROWS: usize = 48;

/// What is measured.
#[derive(Debug, Clone, Copy, PartialEq, Eq, Structural)]
pub enum Probe {
    /// Reads of the system timer.
    MtimeRead,
    /// Reads of the cycle counter.
    McycleRead,
    /// Reads of the timer through its slot.
    TimerSlot,
    /// Lookups of the window's base.
    ShmBase,
    /// Reads of a mailbox's word count.
    MboxMsgstat,
    /// Reads of a mailbox's enables.
    MboxIrqen,
    /// Writes of a mailbox's enables.
    MboxEnwr,
    /// A multiplication and an addition.
    Alu,
    /// An acquire fence.
    FenceRRw,
    /// A release fence.
    FenceRwW,
    /// A full fence.
    FenceRwRw,
    /// A full fence that orders devices too.
    FenceIorw,
    /// A load.
    Ld,
    /// A load, then an acquire fence.
    LdFenceRRw,
    /// A load, then a full fence.
    LdFenceRwRw,
    /// A load, some thirty instructions, then an acquire fence.
    LdDelayFence,
    /// A store, then a full fence.
    SdFenceRwRw,
    /// A release fence, then a store.
    FenceRwWSd,
    /// A store, then a full fence that orders devices too.
    SdFenceIorw,
    /// An atomic swap without order.
    AmoswapRelaxed,
    /// An atomic swap that acquires.
    AmoswapAq,
    /// An atomic swap that releases.
    AmoswapRl,
    /// An atomic swap that does both.
    AmoswapAqRl,
    /// An atomic addition that does both.
    AmoaddAqRl,
    /// An atomic 32-bit or that does both.
    AmoorAqRl,
    /// A load that reserves.
    LrAq,
    /// A compare and swap.
    Cas,
    /// A load with interrupts off.
    CsLoad,
    /// A load and a store with interrupts off.
    CsRmw,
    /// A load in a critical section.
    CsReal,
    /// Reads of one line.
    ReadSame,
    /// Reads of one line after the other.
    ReadLines,
    /// Reads of every eighth line.
    ReadStride,
    /// Reads of lines that no cache holds.
    ReadCold,
    /// Reads of a block of 256 bytes.
    ReadBlock,
    /// Writes of one line.
    WriteSame,
    /// A write and a read of one line.
    WriteReadSame,
    /// A write of one line and a read of another.
    WriteReadApart,
    /// Calls of one function.
    CallHot,
    /// Calls of sixteen functions in turn.
    CallSpread,
    /// A software interrupt that is raised and taken back unseen.
    PendMasked,
}

/// Where it is measured.
#[derive(Debug, Clone, Copy, PartialEq, Eq, Structural)]
pub enum Target {
    /// Nowhere in memory.
    Nothing,
    /// The system timer.
    Mtime,
    /// The spare part of the shared window, through the main port.
    Window,
    /// The core's own memory.
    Local,
    /// The spare part of the shared window, through the core's own port.
    Alias,
    /// Memory behind the shared window, through the core's own port.
    Spare,
}

/// A measurement.
#[derive(Debug, Clone, Copy, PartialEq, Eq, Structural)]
pub struct Item {
    /// What is measured.
    pub probe: Probe,
    /// Where.
    pub target: Target,
    /// How often in a row.
    pub iters: u32,
    /// Whether interrupts stay on.
    pub live: bool,
}

/// The measurements, in order.
pub open spec fn plan_of() -> Seq<Item> {
    seq![
        Item { probe: Probe::MtimeRead, target: Target::Mtime, iters: 5000, live: false },
        Item { probe: Probe::McycleRead, target: Target::Nothing, iters: 5000, live: false },
        Item { probe: Probe::TimerSlot, target: Target::Nothing, iters: 2000, live: false },
        Item { probe: Probe::ShmBase, target: Target::Nothing, iters: 5000, live: false },
        Item { probe: Probe::MboxMsgstat, target: Target::Nothing, iters: 2000, live: false },
        Item { probe: Probe::MboxIrqen, target: Target::Nothing, iters: 2000, live: false },
        Item { probe: Probe::MboxEnwr, target: Target::Nothing, iters: 2000, live: false },
        Item { probe: Probe::Alu, target: Target::Nothing, iters: 100000, live: false },
        Item { probe: Probe::FenceRRw, target: Target::Nothing, iters: 1000, live: false },
        Item { probe: Probe::FenceRwW, target: Target::Nothing, iters: 1000, live: false },
        Item { probe: Probe::FenceRwRw, target: Target::Nothing, iters: 1000, live: false },
        Item { probe: Probe::FenceIorw, target: Target::Nothing, iters: 1000, live: false },
        Item { probe: Probe::Ld, target: Target::Window, iters: 5000, live: false },
        Item { probe: Probe::LdFenceRRw, target: Target::Window, iters: 2000, live: false },
        Item { probe: Probe::LdFenceRwRw, target: Target::Window, iters: 2000, live: false },
        Item { probe: Probe::LdDelayFence, target: Target::Window, iters: 2000, live: false },
        Item { probe: Probe::LdFenceRRw, target: Target::Mtime, iters: 2000, live: false },
        Item { probe: Probe::SdFenceRwRw, target: Target::Window, iters: 2000, live: false },
        Item { probe: Probe::FenceRwWSd, target: Target::Window, iters: 2000, live: false },
        Item { probe: Probe::SdFenceIorw, target: Target::Window, iters: 2000, live: false },
        Item { probe: Probe::LdFenceRRw, target: Target::Local, iters: 2000, live: false },
        Item { probe: Probe::FenceRwWSd, target: Target::Local, iters: 2000, live: false },
        Item { probe: Probe::AmoswapRelaxed, target: Target::Window, iters: 1000, live: false },
        Item { probe: Probe::AmoswapAq, target: Target::Window, iters: 1000, live: false },
        Item { probe: Probe::AmoswapRl, target: Target::Window, iters: 1000, live: false },
        Item { probe: Probe::AmoswapAqRl, target: Target::Window, iters: 1000, live: false },
        Item { probe: Probe::AmoaddAqRl, target: Target::Window, iters: 1000, live: false },
        Item { probe: Probe::AmoorAqRl, target: Target::Window, iters: 1000, live: false },
        Item { probe: Probe::LrAq, target: Target::Window, iters: 1000, live: false },
        Item { probe: Probe::Cas, target: Target::Window, iters: 1000, live: false },
        Item { probe: Probe::AmoswapRelaxed, target: Target::Local, iters: 1000, live: false },
        Item { probe: Probe::AmoswapAqRl, target: Target::Local, iters: 1000, live: false },
        Item { probe: Probe::LrAq, target: Target::Local, iters: 1000, live: false },
        Item { probe: Probe::CsLoad, target: Target::Window, iters: 2000, live: true },
        Item { probe: Probe::CsLoad, target: Target::Local, iters: 2000, live: true },
        Item { probe: Probe::CsRmw, target: Target::Window, iters: 2000, live: true },
        Item { probe: Probe::CsReal, target: Target::Window, iters: 2000, live: true },
        Item { probe: Probe::ReadSame, target: Target::Window, iters: 5000, live: false },
        Item { probe: Probe::ReadLines, target: Target::Window, iters: 200, live: false },
        Item { probe: Probe::ReadStride, target: Target::Window, iters: 200, live: false },
        Item { probe: Probe::ReadCold, target: Target::Spare, iters: 20, live: false },
        Item { probe: Probe::ReadBlock, target: Target::Window, iters: 500, live: false },
        Item { probe: Probe::WriteSame, target: Target::Window, iters: 5000, live: false },
        Item { probe: Probe::WriteReadSame, target: Target::Window, iters: 2000, live: false },
        Item { probe: Probe::WriteReadApart, target: Target::Window, iters: 2000, live: false },
        Item { probe: Probe::ReadSame, target: Target::Local, iters: 5000, live: false },
        Item { probe: Probe::ReadBlock, target: Target::Local, iters: 500, live: false },
        Item { probe: Probe::ReadSame, target: Target::Alias, iters: 5000, live: false },
        Item { probe: Probe::CallHot, target: Target::Nothing, iters: 20000, live: false },
        Item { probe: Probe::CallSpread, target: Target::Nothing, iters: 20000, live: false },
        Item { probe: Probe::CallSpread, target: Target::Nothing, iters: 20000, live: false },
        Item { probe: Probe::PendMasked, target: Target::Nothing, iters: 500, live: false },
    ]
}

/// The measurements, in order.
pub fn plan() -> (r: Vec<Item>)
    ensures
        r@ == plan_of(),
{
    let r = vec![
        Item { probe: Probe::MtimeRead, target: Target::Mtime, iters: 5000, live: false },
        Item { probe: Probe::McycleRead, target: Target::Nothing, iters: 5000, live: false },
        Item { probe: Probe::TimerSlot, target: Target::Nothing, iters: 2000, live: false },
        Item { probe: Probe::ShmBase, target: Target::Nothing, iters: 5000, live: false },
        Item { probe: Probe::MboxMsgstat, target: Target::Nothing, iters: 2000, live: false },
        Item { probe: Probe::MboxIrqen, target: Target::Nothing, iters: 2000, live: false },
        Item { probe: Probe::MboxEnwr, target: Target::Nothing, iters: 2000, live: false },
        Item { probe: Probe::Alu, target: Target::Nothing, iters: 100000, live: false },
        Item { probe: Probe::FenceRRw, target: Target::Nothing, iters: 1000, live: false },
        Item { probe: Probe::FenceRwW, target: Target::Nothing, iters: 1000, live: false },
        Item { probe: Probe::FenceRwRw, target: Target::Nothing, iters: 1000, live: false },
        Item { probe: Probe::FenceIorw, target: Target::Nothing, iters: 1000, live: false },
        Item { probe: Probe::Ld, target: Target::Window, iters: 5000, live: false },
        Item { probe: Probe::LdFenceRRw, target: Target::Window, iters: 2000, live: false },
        Item { probe: Probe::LdFenceRwRw, target: Target::Window, iters: 2000, live: false },
        Item { probe: Probe::LdDelayFence, target: Target::Window, iters: 2000, live: false },
        Item { probe: Probe::LdFenceRRw, target: Target::Mtime, iters: 2000, live: false },
        Item { probe: Probe::SdFenceRwRw, target: Target::Window, iters: 2000, live: false },
        Item { probe: Probe::FenceRwWSd, target: Target::Window, iters: 2000, live: false },
        Item { probe: Probe::SdFenceIorw, target: Target::Window, iters: 2000, live: false },
        Item { probe: Probe::LdFenceRRw, target: Target::Local, iters: 2000, live: false },
        Item { probe: Probe::FenceRwWSd, target: Target::Local, iters: 2000, live: false },
        Item { probe: Probe::AmoswapRelaxed, target: Target::Window, iters: 1000, live: false },
        Item { probe: Probe::AmoswapAq, target: Target::Window, iters: 1000, live: false },
        Item { probe: Probe::AmoswapRl, target: Target::Window, iters: 1000, live: false },
        Item { probe: Probe::AmoswapAqRl, target: Target::Window, iters: 1000, live: false },
        Item { probe: Probe::AmoaddAqRl, target: Target::Window, iters: 1000, live: false },
        Item { probe: Probe::AmoorAqRl, target: Target::Window, iters: 1000, live: false },
        Item { probe: Probe::LrAq, target: Target::Window, iters: 1000, live: false },
        Item { probe: Probe::Cas, target: Target::Window, iters: 1000, live: false },
        Item { probe: Probe::AmoswapRelaxed, target: Target::Local, iters: 1000, live: false },
        Item { probe: Probe::AmoswapAqRl, target: Target::Local, iters: 1000, live: false },
        Item { probe: Probe::LrAq, target: Target::Local, iters: 1000, live: false },
        Item { probe: Probe::CsLoad, target: Target::Window, iters: 2000, live: true },
        Item { probe: Probe::CsLoad, target: Target::Local, iters: 2000, live: true },
        Item { probe: Probe::CsRmw, target: Target::Window, iters: 2000, live: true },
        Item { probe: Probe::CsReal, target: Target::Window, iters: 2000, live: true },
        Item { probe: Probe::ReadSame, target: Target::Window, iters: 5000, live: false },
        Item { probe: Probe::ReadLines, target: Target::Window, iters: 200, live: false },
        Item { probe: Probe::ReadStride, target: Target::Window, iters: 200, live: false },
        Item { probe: Probe::ReadCold, target: Target::Spare, iters: 20, live: false },
        Item { probe: Probe::ReadBlock, target: Target::Window, iters: 500, live: false },
        Item { probe: Probe::WriteSame, target: Target::Window, iters: 5000, live: false },
        Item { probe: Probe::WriteReadSame, target: Target::Window, iters: 2000, live: false },
        Item { probe: Probe::WriteReadApart, target: Target::Window, iters: 2000, live: false },
        Item { probe: Probe::ReadSame, target: Target::Local, iters: 5000, live: false },
        Item { probe: Probe::ReadBlock, target: Target::Local, iters: 500, live: false },
        Item { probe: Probe::ReadSame, target: Target::Alias, iters: 5000, live: false },
        Item { probe: Probe::CallHot, target: Target::Nothing, iters: 20000, live: false },
        Item { probe: Probe::CallSpread, target: Target::Nothing, iters: 20000, live: false },
        Item { probe: Probe::CallSpread, target: Target::Nothing, iters: 20000, live: false },
        Item { probe: Probe::PendMasked, target: Target::Nothing, iters: 500, live: false },
    ];
    assert(r@ =~= plan_of());
    r
}

/// Where a target is: `local` is the address of the core's own memory.
pub open spec fn address_of(target: Target, local: u64) -> u64 {
    match target {
        Target::Nothing => 0,
        Target::Mtime => 0xe400_bff8,
        Target::Window => 0xc081_8700,
        Target::Local => local,
        Target::Alias => 0x1_8700,
        Target::Spare => 0x1_9000,
    }
}

impl Target {
    /// The address, where `local` is that of the core's own memory.
    pub fn address(self, local: u64) -> (r: u64)
        ensures
            r == address_of(self, local),
    {
        match self {
            Target::Nothing => 0,
            Target::Mtime => 0xe400_bff8,
            Target::Window => 0xc081_8700,
            Target::Local => local,
            Target::Alias => 0x1_8700,
            Target::Spare => 0x1_9000,
        }
    }
}

/// The reads of a sweep: bytes between two of them, and bytes in all.
pub open spec fn sweep_of(probe: Probe) -> Option<(usize, usize)> {
    match probe {
        Probe::ReadLines => Some((64, 0x800)),
        Probe::ReadStride => Some((512, 0x800)),
        Probe::ReadCold => Some((64, 0x2_0000)),
        _ => None,
    }
}

impl Probe {
    /// The reads of a sweep: bytes between two of them, and bytes in all.
    pub fn sweep(self) -> (r: Option<(usize, usize)>)
        ensures
            r == sweep_of(self),
    {
        match self {
            Probe::ReadLines => Some((64, 0x800)),
            Probe::ReadStride => Some((512, 0x800)),
            Probe::ReadCold => Some((64, 0x2_0000)),
            _ => None,
        }
    }

    /// The offset of read number `i` of a round, if the round has one.
    pub fn offset(self, i: usize) -> (r: Option<usize>)
        ensures
            match sweep_of(self) {
                Some((step, len)) => if i * step < len {
                    r == Some((i * step) as usize)
                } else {
                    r is None
                },
                None => r is None,
            },
    {
        match self.sweep() {
            Some((step, len)) => if i < len / step {
                proof {
                    assert(i * step < len) by (nonlinear_arith)
                        requires
                            i < len / step,
                            step > 0,
                    ;
                }
                Some(i * step)
            } else {
                proof {
                    assert(i * step >= len) by (nonlinear_arith)
                        requires
                            i >= len / step,
                            step > 0,
                            len % step == 0,
                    ;
                }
                None
            },
            None => None,
        }
    }
}

/// Every 64-bit read of a sweep stays inside the bytes it sweeps.
pub proof fn law_sweep_stays_inside(probe: Probe, i: usize)
    requires
        sweep_of(probe) is Some,
        i * (sweep_of(probe)->0).0 < (sweep_of(probe)->0).1,
    ensures
        i * (sweep_of(probe)->0).0 + 8 <= (sweep_of(probe)->0).1,
{
}

/// Nanoseconds of one operation, of `iters` that took from `t0` to `t1` on a
/// clock of `freq` Hz, to 64 bits.
pub open spec fn ns_per_op(t0: u64, t1: u64, freq: u32, iters: u32) -> int {
    let ticks = if t1 >= t0 {
        t1 - t0
    } else {
        0
    };
    (ticks * 1_000_000_000 / (freq * iters)) % 0x1_0000_0000_0000_0000
}

/// Nanoseconds of one operation.
pub fn per_op(t0: u64, t1: u64, freq: u32, iters: u32) -> (r: u64)
    requires
        freq > 0,
        iters > 0,
    ensures
        r == ns_per_op(t0, t1, freq, iters),
{
    let ticks: u128 = t1.saturating_sub(t0) as u128;
    assert(freq * iters > 0) by (nonlinear_arith)
        requires
            freq > 0,
            iters > 0,
    ;
    assert(freq * iters <= 0xffff_ffff * 0xffff_ffff) by (nonlinear_arith)
        requires
            freq <= 0xffff_ffff,
            iters <= 0xffff_ffff,
    ;
    let q: u128 = ticks * 1_000_000_000 / (freq as u128 * iters as u128);
    (q % 0x1_0000_0000_0000_0000) as u64
}

/// Cycles of one operation, of `iters` that took from `c0` to `c1`.
pub fn cycles_per_op(c0: u64, c1: u64, iters: u32) -> (r: u64)
    requires
        iters > 0,
    ensures
        r == (if c1 >= c0 {
            c1 - c0
        } else {
            0
        }) / iters as int,
{
    c1.saturating_sub(c0) / iters as u64
}

/// A result: the number of its measurement, and both units.
#[derive(Debug, Clone, Copy, PartialEq, Eq, Structural)]
pub struct Row {
    /// Number of the measurement.
    pub item: usize,
    /// Nanoseconds of one operation.
    pub ns: u64,
    /// Cycles of one operation.
    pub cyc: u64,
}

/// The results.
pub struct Rows {
    rows: Vec<Row>,
}

impl View for Rows {
    type V = Seq<Row>;

    closed spec fn view(&self) -> Seq<Row> {
        self.rows@
    }
}

impl Rows {
    /// No results.
    pub fn new() -> (r: Self)
        ensures
            r@.len() == 0,
    {
        Rows { rows: Vec::new() }
    }

    /// Keeps a result, if there is room.
    pub fn record(&mut self, row: Row)
        ensures
            final(self)@ == if old(self)@.len() < MAX_ROWS {
                old(self)@.push(row)
            } else {
                old(self)@
            },
    {
        if self.rows.len() < MAX_ROWS {
            self.rows.push(row);
        }
    }

    /// A measurement is over: `t0` to `t1` on the clock, `c0` to `c1` cycles.
    pub fn timeit(&mut self, item: usize, iters: u32, t0: u64, t1: u64, c0: u64, c1: u64, freq: u32)
        requires
            freq > 0,
            iters > 0,
        ensures
            final(self)@ == if old(self)@.len() < MAX_ROWS {
                old(self)@.push(
                    Row {
                        item,
                        ns: ns_per_op(t0, t1, freq, iters) as u64,
                        cyc: ((if c1 >= c0 {
                            c1 - c0
                        } else {
                            0
                        }) / iters as int) as u64,
                    },
                )
            } else {
                old(self)@
            },
    {
        let ns: u64 = per_op(t0, t1, freq, iters);
        let cyc: u64 = cycles_per_op(c0, c1, iters);
        self.record(Row { item, ns, cyc });
    }

    /// The number of results.
    pub fn len(&self) -> (r: usize)
        ensures
            r == self@.len(),
    {
        self.rows.len()
    }

    /// A result.
    pub fn get(&self, i: usize) -> (r: Row)
        requires
            i < self@.len(),
        ensures
            r == self@[i as int],
    {
        self.rows[i]
    }
}

/// The rate of the core, given cycles and ticks of a clock of `freq` Hz, and
/// whether the cycle counter runs at all.
pub fn calibrate_clock(c0: u64, c1: u64, t0: u64, t1: u64, freq: u32) -> (r: (u64, bool))
    requires
        t1 > t0,
    ensures
        r.0 == ((if c1 >= c0 {
            c1 - c0
        } else {
            0
        }) * freq / (t1 - t0)) % 0x1_0000_0000_0000_0000,
        r.1 == (c1 > c0),
{
    let cycles: u128 = c1.saturating_sub(c0) as u128;
    assert(cycles * freq <= 0xffff_ffff_ffff_ffff * 0xffff_ffff) by (nonlinear_arith)
        requires
            cycles <= 0xffff_ffff_ffff_ffff,
            freq <= 0xffff_ffff,
    ;
    let hz: u128 = cycles * freq as u128 / (t1 - t0) as u128;
    ((hz % 0x1_0000_0000_0000_0000) as u64, c1 > c0)
}

/// Whether the calibration goes on, `elapsed` ticks after its start: it takes a
/// tenth of a second.
pub fn calibrating(elapsed: u64, freq: u32) -> (r: bool)
    ensures
        r == (elapsed < freq / 10),
{
    elapsed < (freq / 10) as u64
}

/// The sum of some readings.
pub open spec fn total(readings: Seq<u64>) -> int
    decreases readings.len(),
{
    if readings.len() == 0 {
        0
    } else {
        total(readings.drop_last()) + readings.last()
    }
}

/// The smallest of some readings; the largest number where there are none.
pub open spec fn least(readings: Seq<u64>) -> u64
    decreases readings.len(),
{
    if readings.len() == 0 {
        u64::MAX
    } else {
        let m = least(readings.drop_last());
        if readings.last() < m {
            readings.last()
        } else {
            m
        }
    }
}

/// Readings of which the sum and the smallest are kept.
pub struct Spread {
    count: u64,
    sum: u64,
    min: u64,
    readings: Ghost<Seq<u64>>,
}

impl View for Spread {
    type V = Seq<u64>;

    closed spec fn view(&self) -> Seq<u64> {
        self.readings@
    }
}

impl Spread {
    /// What is kept is that of the readings.
    pub closed spec fn wf(&self) -> bool {
        &&& self.count == self@.len()
        &&& self.sum == total(self@)
        &&& self.min == least(self@)
    }

    /// No readings.
    pub fn new() -> (r: Self)
        ensures
            r.wf(),
            r@.len() == 0,
    {
        Spread { count: 0, sum: 0, min: u64::MAX, readings: Ghost(Seq::empty()) }
    }

    /// Adds a reading.
    pub fn push(&mut self, v: u64)
        requires
            old(self).wf(),
            old(self)@.len() < u64::MAX,
            total(old(self)@) + v <= u64::MAX,
        ensures
            final(self).wf(),
            final(self)@ == old(self)@.push(v),
    {
        self.count = self.count + 1;
        self.sum = self.sum + v;
        if v < self.min {
            self.min = v;
        }
        self.readings = Ghost(self.readings@.push(v));
        assert(old(self)@.push(v).drop_last() =~= old(self)@);
    }

    /// The mean of the readings, rounded down, and the smallest.
    pub fn mean_min(&self) -> (r: Option<(u64, u64)>)
        requires
            self.wf(),
        ensures
            r == if self@.len() == 0 {
                None
            } else {
                Some(((total(self@) / self@.len() as int) as u64, least(self@)))
            },
    {
        if self.count == 0 {
            None
        } else {
            proof {
                let s = self.sum as int;
                let c = self.count as int;
                assert(0 <= s / c <= s) by (nonlinear_arith)
                    requires
                        0 <= s,
                        c >= 1,
                ;
            }
            Some((self.sum / self.count, self.min))
        }
    }
}

proof fn lemma_least_times_len(readings: Seq<u64>)
    ensures
        readings.len() > 0 ==> least(readings) * readings.len() <= total(readings),
        forall|i: int| 0 <= i < readings.len() ==> least(readings) <= #[trigger] readings[i],
    decreases readings.len(),
{
    if readings.len() > 0 {
        let before = readings.drop_last();
        lemma_least_times_len(before);
        let m = least(readings) as int;
        let b = least(before) as int;
        let n = before.len() as int;
        let all = readings.len() as int;
        if n > 0 {
            assert(b * n <= total(before));
            assert(m * n <= b * n) by (nonlinear_arith)
                requires
                    m <= b,
                    n >= 0,
            ;
        } else {
            assert(m * n == 0) by (nonlinear_arith)
                requires
                    n == 0,
            ;
        }
        assert(m * all == m * n + m) by (nonlinear_arith)
            requires
                all == n + 1,
        ;
        assert(m <= readings.last());
        assert(m * all <= total(readings));
        assert forall|i: int| 0 <= i < readings.len() implies m <= #[trigger] readings[i] by {
            if i < n {
                assert(before[i] == readings[i]);
            }
        }
    }
}

/// The smallest reading is at most the mean.
pub proof fn law_least_below_mean(readings: Seq<u64>)
    requires
        readings.len() > 0,
    ensures
        least(readings) <= total(readings) / readings.len() as int,
{
    lemma_least_times_len(readings);
    let m = least(readings) as int;
    let n = readings.len() as int;
    let t = total(readings);
    assert(m <= t / n) by (nonlinear_arith)
        requires
            m * n <= t,
            n > 0,
    ;
}

/// Nanoseconds that a number of ticks take on a clock of `freq` Hz.
pub fn ns(ticks: u64, freq: u32) -> (r: u64)
    requires
        freq > 0,
        ticks * 1_000_000_000 <= u64::MAX,
    ensures
        r == ticks * 1_000_000_000 / freq as int,
{
    let p: u64 = ticks * 1_000_000_000;
    p / freq as u64
}

/// The later of two instants less the earlier, and 0 in the wrong order.
pub open spec fn since(a: u64, b: u64) -> u64 {
    if b >= a {
        (b - a) as u64
    } else {
        0
    }
}

/// Software interrupts that the core sends to itself.
pub struct RoundTrips {
    /// From the request to the handler.
    pub entry: Spread,
    /// From the handler back.
    pub resume: Spread,
    /// Requests of which nothing was seen.
    pub miss: u64,
}

impl RoundTrips {
    /// What is kept is that of the rounds, and each round that was seen has
    /// both readings.
    pub open spec fn wf(&self) -> bool {
        self.entry.wf() && self.resume.wf() && self.entry@.len() == self.resume@.len()
    }

    /// No rounds.
    pub fn new() -> (r: Self)
        ensures
            r.wf(),
            r.entry@.len() == 0,
            r.miss == 0,
    {
        RoundTrips { entry: Spread::new(), resume: Spread::new(), miss: 0 }
    }

    /// Whether the request made at `t0` is still waited for: the handler left
    /// no new mark and 200 microseconds are not over.
    pub fn waiting(prev: u64, mark: u64, t0: u64, now: u64, freq: u32) -> (r: bool)
        ensures
            r == (mark == prev && since(t0, now) <= freq / 5000),
    {
        mark == prev && now.saturating_sub(t0) <= (freq / 5000) as u64
    }

    /// A round is over: the handler's mark was `prev` before and is `mark` now,
    /// at `t2`.
    pub fn round(&mut self, prev: u64, mark: u64, t0: u64, t2: u64)
        requires
            old(self).wf(),
            old(self).miss < u64::MAX,
            old(self).entry@.len() < u64::MAX,
            total(old(self).entry@) + since(t0, mark) <= u64::MAX,
            total(old(self).resume@) + since(mark, t2) <= u64::MAX,
        ensures
            final(self).wf(),
            final(self).miss == old(self).miss + (if mark == prev {
                1int
            } else {
                0
            }),
            final(self).entry@ == if mark == prev {
                old(self).entry@
            } else {
                old(self).entry@.push(since(t0, mark))
            },
            final(self).resume@ == if mark == prev {
                old(self).resume@
            } else {
                old(self).resume@.push(since(mark, t2))
            },
    {
        if mark == prev {
            self.miss = self.miss + 1;
        } else {
            self.entry.push(mark.saturating_sub(t0));
            self.resume.push(t2.saturating_sub(mark));
        }
    }
}

/// Wakes from sleep by the timer.
pub struct Wakes {
    /// How late the handler ran.
    pub late: Spread,
    /// How long the sleep took.
    pub whole: Spread,
    /// Wakes of which the handler knew nothing.
    pub miss: u64,
}

impl Wakes {
    /// What is kept is that of the sleeps, and each wake that was seen has both
    /// readings.
    pub open spec fn wf(&self) -> bool {
        self.late.wf() && self.whole.wf() && self.late@.len() == self.whole@.len()
    }

    /// No sleeps.
    pub fn new() -> (r: Self)
        ensures
            r.wf(),
            r.late@.len() == 0,
            r.miss == 0,
    {
        Wakes { late: Spread::new(), whole: Spread::new(), miss: 0 }
    }

    /// When the timer is to wake a sleep that starts at `t0`: after 100
    /// microseconds.
    pub fn deadline(t0: u64, freq: u32) -> (r: u64)
        requires
            t0 + freq / 10_000 <= u64::MAX,
        ensures
            r == t0 + freq / 10_000,
    {
        t0 + (freq / 10_000) as u64
    }

    /// A sleep is over: it lasted from `t0` to `t2` and was to end at
    /// `deadline`; the handler's mark was `prev` before and is `mark` now.
    pub fn round(&mut self, prev: u64, mark: u64, t0: u64, deadline: u64, t2: u64)
        requires
            old(self).wf(),
            old(self).miss < u64::MAX,
            old(self).late@.len() < u64::MAX,
            total(old(self).late@) + since(deadline, mark) <= u64::MAX,
            total(old(self).whole@) + since(t0, t2) <= u64::MAX,
        ensures
            final(self).wf(),
            final(self).miss == old(self).miss + (if mark == prev {
                1int
            } else {
                0
            }),
            final(self).late@ == if mark == prev {
                old(self).late@
            } else {
                old(self).late@.push(since(deadline, mark))
            },
            final(self).whole@ == if mark == prev {
                old(self).whole@
            } else {
                old(self).whole@.push(since(t0, t2))
            },
    {
        if mark == prev {
            self.miss = self.miss + 1;
        } else {
            self.late.push(mark.saturating_sub(deadline));
            self.whole.push(t2.saturating_sub(t0));
        }
    }
}

} // verus!
