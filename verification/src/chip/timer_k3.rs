//! A counter of the application processor's domain that is quick to read.

use crate::chip::reg::RegWrite;
use vstd::prelude::*;

verus! {

/// Base of the counters.
pub const TMR1_BASE: u64 = 0xd401_6000;

/// Clock and reset of the counters.
pub const APBC_TIMERS1_CLK_RST: u64 = 0xd401_5044;

/// Counts per second.
pub const FREQ_HZ: u32 = 12_800_000;

/// Counter enable.
pub const TMR_CER: u64 = 0xd401_6000;

/// Counter mode: a bit that is set lets its counter run freely.
pub const TMR_CMR: u64 = 0xd401_6004;

/// Preload control of the second counter.
pub const TMR_PLCR1: u64 = 0xd401_6054;

/// The second counter.
pub const TMR_CR1: u64 = 0xd401_6094;

/// The second counter's bit.
pub const COUNTER1: u32 = 2;

/// Most times that the counter is enabled before it is given up.
pub const RETRIES: u32 = 8;

/// The writes that prepare the counter: open both gates with the reset held,
/// release it, and let the counter run freely without a preload. The source of
/// the clock stays.
pub open spec fn preparation(gate: u32, cmr: u32) -> Seq<RegWrite> {
    seq![
        RegWrite { addr: APBC_TIMERS1_CLK_RST, value: (gate / 8 * 8 + 7) as u32 },
        RegWrite { addr: APBC_TIMERS1_CLK_RST, value: (gate / 8 * 8 + 3) as u32 },
        RegWrite { addr: TMR_CMR, value: cmr | COUNTER1 },
        RegWrite { addr: TMR_PLCR1, value: 0 },
    ]
}

/// What the start of the counter does next.
#[derive(Debug, Clone, Copy, PartialEq, Eq, Structural)]
pub enum Access {
    /// Read the register at this address.
    Read(u64),
    /// Make a write.
    Write(RegWrite),
}

/// Where the start of the counter stands.
#[derive(Debug, Clone, Copy, PartialEq, Eq, Structural)]
pub enum Stage {
    /// The clock register is to be read.
    ReadGate,
    /// The gates are to be opened with the reset held.
    Hold(u32),
    /// The reset is to be released.
    Release(u32),
    /// The mode register is to be read.
    ReadMode,
    /// The counter is to be made a free-running one.
    SetMode(u32),
    /// The preload is to be cleared.
    ClearPreload,
    /// The enable register is to be read; this many tries are left.
    ReadEnable(u32),
    /// The counter is to be enabled beside those in the given register; this
    /// many tries are left.
    Enable(u32, u32),
    /// The enable register is to be read back; this many tries are left.
    Verify(u32),
    /// The counter runs.
    Running,
    /// The counter did not start.
    Failed,
}

/// The start of the counter.
#[derive(Debug, Clone, Copy, PartialEq, Eq, Structural)]
pub struct Start {
    /// Where it stands.
    pub stage: Stage,
}

/// The access that is due; `None` at the end.
pub open spec fn start_due(s: Start) -> Option<Access> {
    match s.stage {
        Stage::ReadGate => Some(Access::Read(APBC_TIMERS1_CLK_RST)),
        Stage::Hold(gate) => Some(Access::Write(preparation(gate, 0)[0])),
        Stage::Release(gate) => Some(Access::Write(preparation(gate, 0)[1])),
        Stage::ReadMode => Some(Access::Read(TMR_CMR)),
        Stage::SetMode(cmr) => Some(Access::Write(preparation(0, cmr)[2])),
        Stage::ClearPreload => Some(Access::Write(preparation(0, 0)[3])),
        Stage::ReadEnable(_) | Stage::Verify(_) => Some(Access::Read(TMR_CER)),
        Stage::Enable(cer, _) => Some(
            Access::Write(RegWrite { addr: TMR_CER, value: cer | COUNTER1 }),
        ),
        Stage::Running | Stage::Failed => None,
    }
}

/// The start after an access gave `v` (zero for a write). The counter is enabled
/// until it is seen to be, at most [`RETRIES`] times.
pub open spec fn start_moved(s: Start, v: u32) -> Start {
    Start {
        stage: match s.stage {
            Stage::ReadGate => Stage::Hold(v),
            Stage::Hold(gate) => Stage::Release(gate),
            Stage::Release(_) => Stage::ReadMode,
            Stage::ReadMode => Stage::SetMode(v),
            Stage::SetMode(_) => Stage::ClearPreload,
            Stage::ClearPreload => Stage::ReadEnable(RETRIES),
            Stage::ReadEnable(n) => Stage::Enable(v, n),
            Stage::Enable(_, n) => Stage::Verify(n),
            Stage::Verify(n) => if v & COUNTER1 != 0 {
                Stage::Running
            } else if n <= 1 {
                Stage::Failed
            } else {
                Stage::ReadEnable((n - 1) as u32)
            },
            Stage::Running => Stage::Running,
            Stage::Failed => Stage::Failed,
        },
    }
}

/// The start of the counter, before its first access.
pub fn init() -> (r: Start)
    ensures
        r == (Start { stage: Stage::ReadGate }),
{
    Start { stage: Stage::ReadGate }
}

impl Start {
    /// The access that is due; `None` at the end.
    pub fn due(&self) -> (r: Option<Access>)
        ensures
            r == start_due(*self),
    {
        match self.stage {
            Stage::ReadGate => Some(Access::Read(APBC_TIMERS1_CLK_RST)),
            Stage::Hold(gate) => Some(
                Access::Write(
                    RegWrite { addr: APBC_TIMERS1_CLK_RST, value: gate / 8 * 8 + 7 },
                ),
            ),
            Stage::Release(gate) => Some(
                Access::Write(
                    RegWrite { addr: APBC_TIMERS1_CLK_RST, value: gate / 8 * 8 + 3 },
                ),
            ),
            Stage::ReadMode => Some(Access::Read(TMR_CMR)),
            Stage::SetMode(cmr) => Some(
                Access::Write(RegWrite { addr: TMR_CMR, value: cmr | COUNTER1 }),
            ),
            Stage::ClearPreload => Some(Access::Write(RegWrite { addr: TMR_PLCR1, value: 0 })),
            Stage::ReadEnable(_) | Stage::Verify(_) => Some(Access::Read(TMR_CER)),
            Stage::Enable(cer, _) => Some(
                Access::Write(RegWrite { addr: TMR_CER, value: cer | COUNTER1 }),
            ),
            Stage::Running | Stage::Failed => None,
        }
    }

    /// Takes in what the access gave.
    pub fn advance(&mut self, v: u32)
        ensures
            *final(self) == start_moved(*old(self), v),
    {
        self.stage = match self.stage {
            Stage::ReadGate => Stage::Hold(v),
            Stage::Hold(gate) => Stage::Release(gate),
            Stage::Release(_) => Stage::ReadMode,
            Stage::ReadMode => Stage::SetMode(v),
            Stage::SetMode(_) => Stage::ClearPreload,
            Stage::ClearPreload => Stage::ReadEnable(RETRIES),
            Stage::ReadEnable(n) => Stage::Enable(v, n),
            Stage::Enable(_, n) => Stage::Verify(n),
            Stage::Verify(n) => if v & COUNTER1 != 0 {
                Stage::Running
            } else if n <= 1 {
                Stage::Failed
            } else {
                Stage::ReadEnable(n - 1)
            },
            Stage::Running => Stage::Running,
            Stage::Failed => Stage::Failed,
        };
    }

    /// Whether the counter did not start.
    pub fn failed(&self) -> (r: bool)
        ensures
            r == (self.stage == Stage::Failed),
    {
        self.stage == Stage::Failed
    }
}

/// The start after accesses gave the values `vs`, one after the other.
pub open spec fn start_after(s: Start, vs: Seq<u32>) -> Start
    decreases vs.len(),
{
    if vs.len() == 0 {
        s
    } else {
        start_after(start_moved(s, vs[0]), vs.drop_first())
    }
}

/// The start reads the clock register, opens the gates and lets the reset go,
/// reads the mode register, sets the mode and clears the preload, in that order,
/// before the first try.
pub proof fn law_counter_is_prepared(gate: u32, cmr: u32)
    ensures
        ({
            let p = preparation(gate, cmr);
            let s0 = Start { stage: Stage::ReadGate };
            let s1 = start_moved(s0, gate);
            let s2 = start_moved(s1, 0);
            let s3 = start_moved(s2, 0);
            let s4 = start_moved(s3, cmr);
            let s5 = start_moved(s4, 0);
            &&& start_due(s0) == Some(Access::Read(APBC_TIMERS1_CLK_RST))
            &&& start_due(s1) == Some(Access::Write(p[0]))
            &&& start_due(s2) == Some(Access::Write(p[1]))
            &&& start_due(s3) == Some(Access::Read(TMR_CMR))
            &&& start_due(s4) == Some(Access::Write(p[2]))
            &&& start_due(s5) == Some(Access::Write(p[3]))
            &&& start_moved(s5, 0).stage == Stage::ReadEnable(RETRIES)
        }),
{
}

proof fn lemma_settled(s: Start, vs: Seq<u32>)
    requires
        start_due(s) is None,
    ensures
        start_after(s, vs) == s,
    decreases vs.len(),
{
    if vs.len() > 0 {
        lemma_settled(s, vs.drop_first());
    }
}

/// The register that a series of tries reads back after try `i`: each try reads
/// the register, writes it, and reads it back.
pub open spec fn read_back(vs: Seq<u32>, i: int) -> u32 {
    vs[3 * i + 2]
}

/// After as many tries as are left the start is decided: the counter runs where
/// one of them was seen to enable it, and has failed otherwise.
pub proof fn law_start_is_decided(n: u32, vs: Seq<u32>)
    requires
        1 <= n,
        vs.len() >= 3 * n,
    ensures
        start_after(Start { stage: Stage::ReadEnable(n) }, vs).stage == if exists|i: int|
            0 <= i < n && #[trigger] read_back(vs, i) & COUNTER1 != 0 {
            Stage::Running
        } else {
            Stage::Failed
        },
    decreases n,
{
    reveal_with_fuel(start_after, 4);
    let s = Start { stage: Stage::ReadEnable(n) };
    let v1 = vs.drop_first();
    let v2 = v1.drop_first();
    let rest = v2.drop_first();
    assert(rest =~= vs.skip(3));
    let next = start_moved(start_moved(start_moved(s, vs[0]), vs[1]), vs[2]);
    assert(start_after(s, vs) == start_after(next, rest));
    assert(read_back(vs, 0) == vs[2]);
    if next.stage is ReadEnable {
        law_start_is_decided((n - 1) as u32, rest);
        if exists|i: int| 0 <= i < n && #[trigger] read_back(vs, i) & COUNTER1 != 0 {
            let i = choose|i: int| 0 <= i < n && #[trigger] read_back(vs, i) & COUNTER1 != 0;
            assert(read_back(rest, i - 1) == read_back(vs, i));
        }
        if exists|i: int| 0 <= i < n - 1 && #[trigger] read_back(rest, i) & COUNTER1 != 0 {
            let i = choose|i: int| 0 <= i < n - 1 && #[trigger] read_back(rest, i) & COUNTER1 != 0;
            assert(read_back(vs, i + 1) == read_back(rest, i));
        }
    } else {
        lemma_settled(next, rest);
    }
}

/// The time that a count stands for.
pub fn now(count: u32) -> (r: u64)
    ensures
        r == count,
{
    count as u64
}

/// Nanoseconds that a number of counts take, rounded down.
pub fn ticks_to_ns(t: u64) -> (r: u64)
    requires
        t * 1_000_000_000 <= u64::MAX,
    ensures
        r == t * 1_000_000_000 / 12_800_000,
{
    t * 1_000_000_000 / FREQ_HZ as u64
}

} // verus!
