//! Measurements of single accesses to memory and registers.
//!
//! A measurement is a plan of accesses. The caller performs each access and
//! hands back what it gave; the checksum of the values keeps the accesses from
//! being optimised away and is part of the result.

use crate::apps::intercom::{ns_of, ticks_to_ns};
use crate::message::{law_request_round_trip, Message};
use crate::wire::Wire;
use vstd::prelude::*;

verus! {

/// Repeated reads of one word of the shared window.
pub const RD_LINE_SHM: u32 = 0;

/// Repeated reads of a block of the shared window.
pub const RD_BLK256_SHM: u32 = 1;

/// Reads of the 32 words of a block of the shared window, one by one.
pub const RD_BLK8_SHM: u32 = 2;

/// Writes to the shared window, each with a fence.
pub const WR_LINE_SHM: u32 = 3;

/// Repeated reads of one local word.
pub const RD_LINE_LOCAL: u32 = 4;

/// Repeated reads of a local block.
pub const RD_BLK256_LOCAL: u32 = 5;

/// Local writes, each with a fence.
pub const WR_LINE_LOCAL: u32 = 6;

/// Reads of the shared window at a stride.
pub const RD_STRIDE_SHM: u32 = 7;

/// Reads of the mailbox's message count.
pub const RD_MMBOX_MSGSTAT: u32 = 8;

/// Reads of the mailbox's interrupt enable register.
pub const RD_MMBOX_IRQEN: u32 = 9;

/// Reads of the mailbox's queue status.
pub const RD_MMBOX_FIFOSTAT: u32 = 10;

/// Reads of the system clock.
pub const RD_MTIME: u32 = 11;

/// Acquire loads from the shared window.
pub const AQ_LOAD_SHM: u32 = 12;

/// Release stores to the shared window.
pub const REL_STORE_SHM: u32 = 13;

/// Fences.
pub const FENCE_ONLY: u32 = 14;

/// Looks whether a message waits.
pub const SPIN_ITER: u32 = 15;

/// Reads of a register.
pub const PEEK_T: u32 = 16;

/// Local acquire loads.
pub const AQ_LOAD_LOCAL: u32 = 17;

/// Attempts to take a message.
pub const RECV_EMPTY: u32 = 18;

/// Reads of the clock through the platform.
pub const TIMER_NOW: u32 = 19;

/// Acquire loads from sixteen lines of the shared window.
pub const AQ_DISTINCT_SHM: u32 = 20;

/// The same, with a read of the clock after each.
pub const COLD_AQ_SHM: u32 = 21;

/// The accesses of taking a message.
pub const RECV_SEQ: u32 = 22;

/// The accesses of sending a message.
pub const SEND_SEQ: u32 = 23;

/// Building and reading a request and a response.
pub const POSTCARD_RT: u32 = 24;

/// Attempts to take a message from a given channel.
pub const RECV_EMPTY_CH: u32 = 25;

/// Doorbells.
pub const NOTIFY_N: u32 = 26;

/// Sending a message and taking it back.
pub const SELF_ROUND: u32 = 27;

/// Looking at a message that stays queued.
pub const SELF_PEEK: u32 = 28;

/// Taking a message that has just been sent.
pub const FRESH_WAIT_RECV: u32 = 29;

/// Dispatching a request.
pub const DISPATCH_N: u32 = 30;

/// Reads of the clock with pauses.
pub const NOW_GAPPED: u32 = 31;

/// Reads of the cycle counter with pauses.
pub const CYCLE_GAPPED: u32 = 32;

/// Reads of the cycle counter without pauses.
pub const CYCLE_HOT: u32 = 33;

/// The cycle counter against the clock.
pub const CYCLE_CAL: u32 = 34;

/// Sets a free-running counter up.
pub const TMR_SETUP: u32 = 35;

/// Reads of that counter without pauses.
pub const TMR_HOT: u32 = 36;

/// Reads of that counter with pauses.
pub const TMR_GAPPED: u32 = 37;

/// That counter against the clock.
pub const TMR_CAL: u32 = 38;

/// Looks for another block of counters.
pub const TMR_B_SCAN: u32 = 39;

/// Switches the clock of the counters on.
pub const TMR_CLKON: u32 = 40;

/// Bytes of the shared window that measurements may use.
pub const SHM_SCRATCH_LEN: usize = 0x800;

/// Where those bytes start in the shared window.
pub const SHM_SCRATCH_OFF: usize = 0x18700;

/// One access. Offsets count from the start of the scratch area.
#[derive(Debug, Clone, Copy, PartialEq, Eq, Structural)]
pub enum Access {
    /// Read the word at an offset.
    ReadShm(u64),
    /// Read the local word.
    ReadLocal,
    /// Read the block at the start; gives its first word.
    BlockShm,
    /// Read the local block; gives its first word.
    BlockLocal,
    /// Write the first word, then fence.
    WriteShm(u64),
    /// Write the local word, then fence.
    WriteLocal(u64),
    /// Read the mailbox's message count.
    MsgCount,
    /// Read the mailbox's interrupt enable register.
    IrqEnabled,
    /// Ask whether the mailbox's queue is empty.
    FifoEmpty,
    /// Read the system clock.
    Mtime,
    /// Read the clock through the platform.
    PlatformTime,
    /// Acquire load of the word at an offset.
    LoadAcquire(u64),
    /// Acquire load of the local word.
    LoadAcquireLocal,
    /// Acquire load of the half word at an offset.
    LoadAcquire16(u64),
    /// Release store of a word at an offset.
    StoreRelease(u64, u64),
    /// Fence.
    Fence,
    /// Ask whether a message waits.
    Waiting,
    /// Read the 32-bit register at an address.
    Peek(u32),
    /// Try to take a message from a channel; gives 1 when there was one.
    TryRecv(u8),
    /// Try to send a notification on a channel; gives 1 when it was sent.
    TrySend(u8, u32),
    /// Look at the oldest message of a channel; gives 1 when there is one.
    PeekMsg(u8),
    /// Read the block at an offset; gives its first byte.
    BlockByte(u64),
    /// Fill the block at an offset.
    FillBlock(u64, u8),
    /// Ring the doorbell.
    Notify,
    /// Build and read a request and a response; gives the checksum.
    Postcard(u64),
    /// Dispatch a request; gives 1 when it was answered.
    Dispatch,
}

/// Where a measurement stands.
#[derive(Debug, Clone, Copy, PartialEq, Eq, Structural)]
pub enum Stage {
    /// Preparation, access number `k`.
    Prepare(u64),
    /// Round `i`, access number `j`.
    Round(u64, u64),
    /// The closing access.
    Close,
    /// Finished.
    Finished,
}

/// `arg`, or the default where it is zero.
pub open spec fn times(arg: u32, default: u64) -> u64 {
    if arg == 0 {
        default
    } else {
        arg as u64
    }
}

/// The distance between the reads of a measurement at a stride.
pub open spec fn stride(arg: u32) -> u64 {
    if times(arg, 64) < 8 {
        8
    } else {
        times(arg, 64)
    }
}

/// Whether `op` is a measurement that this plan covers.
pub open spec fn is_plain(op: u32) -> bool {
    op <= DISPATCH_N && op != FRESH_WAIT_RECV
}

/// The number of rounds.
pub open spec fn rounds(op: u32, arg: u32) -> u64 {
    if !is_plain(op) {
        0
    } else if op == RD_STRIDE_SHM {
        (2040u64 / stride(arg) + 1) as u64
    } else if op == PEEK_T {
        if arg % 4 == 0 {
            1000
        } else {
            0
        }
    } else if op == RECV_EMPTY_CH {
        200
    } else if op == TIMER_NOW {
        times(arg, 1000)
    } else if op == NOTIFY_N {
        times(arg, 100)
    } else if op == COLD_AQ_SHM {
        times(arg, 64)
    } else if op == RD_BLK256_SHM || op == RD_BLK8_SHM || op == RD_BLK256_LOCAL || op == SPIN_ITER
        || op == RECV_EMPTY || op == RECV_SEQ || op == SEND_SEQ || op == POSTCARD_RT || op
        == SELF_ROUND || op == SELF_PEEK || op == DISPATCH_N {
        times(arg, 200)
    } else {
        times(arg, 2000)
    }
}

/// The number of accesses in a round.
pub open spec fn width(op: u32) -> u64 {
    if op == RD_BLK8_SHM {
        32
    } else if op == RECV_SEQ || op == SEND_SEQ {
        5
    } else if op == COLD_AQ_SHM || op == SELF_ROUND {
        2
    } else {
        1
    }
}

/// The number of preparing accesses.
pub open spec fn preparations(op: u32) -> u64 {
    if op == RECV_SEQ || op == SEND_SEQ {
        2
    } else if op == SELF_PEEK {
        1
    } else {
        0
    }
}

/// The slot after slot `i` of a channel.
pub open spec fn slot_after(i: u64) -> u64 {
    ((i + 1) % 128) as u64
}

/// Access number `j` of round `i`. `kept` is the position read in this round,
/// `ck` the checksum so far.
pub open spec fn round_access(op: u32, arg: u32, i: u64, j: u64, kept: u64, ck: u64) -> Access {
    if op == RD_LINE_SHM {
        Access::ReadShm(0)
    } else if op == RD_BLK256_SHM {
        Access::BlockShm
    } else if op == RD_BLK8_SHM {
        Access::ReadShm((8 * j) as u64)
    } else if op == WR_LINE_SHM {
        Access::WriteShm(i)
    } else if op == RD_LINE_LOCAL {
        Access::ReadLocal
    } else if op == RD_BLK256_LOCAL {
        Access::BlockLocal
    } else if op == WR_LINE_LOCAL {
        Access::WriteLocal(i)
    } else if op == RD_STRIDE_SHM {
        Access::ReadShm((i * stride(arg)) as u64)
    } else if op == RD_MMBOX_MSGSTAT {
        Access::MsgCount
    } else if op == RD_MMBOX_IRQEN {
        Access::IrqEnabled
    } else if op == RD_MMBOX_FIFOSTAT {
        Access::FifoEmpty
    } else if op == RD_MTIME {
        Access::Mtime
    } else if op == AQ_LOAD_SHM {
        Access::LoadAcquire(0)
    } else if op == REL_STORE_SHM {
        Access::StoreRelease(0, i)
    } else if op == FENCE_ONLY {
        Access::Fence
    } else if op == SPIN_ITER {
        Access::Waiting
    } else if op == PEEK_T {
        Access::Peek(arg)
    } else if op == AQ_LOAD_LOCAL {
        Access::LoadAcquireLocal
    } else if op == RECV_EMPTY {
        Access::TryRecv(0)
    } else if op == TIMER_NOW {
        Access::PlatformTime
    } else if op == AQ_DISTINCT_SHM {
        Access::LoadAcquire((0x40 + i % 16 * 64) as u64)
    } else if op == COLD_AQ_SHM {
        if j == 0 {
            Access::LoadAcquire((0x40 + i % 16 * 64) as u64)
        } else {
            Access::Mtime
        }
    } else if op == RECV_SEQ {
        if j == 0 {
            Access::LoadAcquire16(0x480)
        } else if j == 1 {
            Access::LoadAcquire(0x4C0)
        } else if j == 2 {
            Access::LoadAcquire(0x4C8)
        } else if j == 3 {
            Access::BlockByte(0x500)
        } else {
            Access::StoreRelease(0x4C0, slot_after(kept))
        }
    } else if op == SEND_SEQ {
        if j == 0 {
            Access::LoadAcquire16(0x480)
        } else if j == 1 {
            Access::LoadAcquire(0x4C8)
        } else if j == 2 {
            Access::LoadAcquire(0x4C0)
        } else if j == 3 {
            Access::FillBlock(0x500, (ck % 256) as u8)
        } else {
            Access::StoreRelease(0x4C8, slot_after(kept))
        }
    } else if op == POSTCARD_RT {
        Access::Postcard(i)
    } else if op == RECV_EMPTY_CH {
        Access::TryRecv((arg % 3) as u8)
    } else if op == NOTIFY_N {
        Access::Notify
    } else if op == SELF_ROUND {
        if j == 0 {
            Access::TrySend(0, 0x50)
        } else {
            Access::TryRecv(0)
        }
    } else if op == SELF_PEEK {
        Access::PeekMsg(0)
    } else {
        Access::Dispatch
    }
}

/// Preparing access number `k`.
pub open spec fn preparing_access(op: u32, k: u64) -> Access {
    if op == SELF_PEEK {
        Access::TrySend(0, 0x51)
    } else if k == 0 {
        Access::StoreRelease(0x4C0, 0)
    } else {
        Access::StoreRelease(0x4C8, 1)
    }
}

/// The stage after the last round.
pub open spec fn after_rounds(op: u32) -> Stage {
    if op == SELF_PEEK {
        Stage::Close
    } else {
        Stage::Finished
    }
}

/// The first stage of the rounds.
pub open spec fn first_round(op: u32, arg: u32) -> Stage {
    if rounds(op, arg) > 0 {
        Stage::Round(0, 0)
    } else {
        after_rounds(op)
    }
}

/// The first stage.
pub open spec fn first_stage(op: u32, arg: u32) -> Stage {
    if preparations(op) > 0 {
        Stage::Prepare(0)
    } else {
        first_round(op, arg)
    }
}

/// The stage after `s`.
pub open spec fn next_stage(op: u32, arg: u32, s: Stage) -> Stage {
    match s {
        Stage::Prepare(k) => if k + 1 < preparations(op) {
            Stage::Prepare((k + 1) as u64)
        } else {
            first_round(op, arg)
        },
        Stage::Round(i, j) => if j + 1 < width(op) {
            Stage::Round(i, (j + 1) as u64)
        } else if i + 1 < rounds(op, arg) {
            Stage::Round((i + 1) as u64, 0)
        } else {
            after_rounds(op)
        },
        Stage::Close => Stage::Finished,
        Stage::Finished => Stage::Finished,
    }
}

/// What the value `v` given at stage `s` adds to the checksum.
pub open spec fn gain(op: u32, s: Stage, v: u64) -> u64 {
    match s {
        Stage::Prepare(k) => if op == SELF_PEEK && v == 0 {
            1
        } else {
            0
        },
        Stage::Round(i, j) => if op == WR_LINE_SHM || op == WR_LINE_LOCAL || op == REL_STORE_SHM
            || op == FENCE_ONLY || op == NOTIFY_N {
            0
        } else if op == RECV_SEQ {
            if j == 0 || j == 3 {
                v
            } else {
                0
            }
        } else if op == SEND_SEQ {
            if j == 0 {
                v
            } else {
                0
            }
        } else if op == SELF_ROUND {
            if v == 0 {
                1
            } else {
                0
            }
        } else if op == DISPATCH_N {
            if v == 0 {
                i
            } else {
                0
            }
        } else {
            v
        },
        _ => 0,
    }
}

/// What the checksum gets at the end: the number of rounds where the values
/// themselves are not added up.
pub open spec fn bonus(op: u32, arg: u32) -> u64 {
    if op == WR_LINE_SHM || op == WR_LINE_LOCAL || op == REL_STORE_SHM || op == NOTIFY_N || op
        == SPIN_ITER {
        rounds(op, arg)
    } else if op == DISPATCH_N {
        1
    } else {
        0
    }
}

/// The sum modulo 2^64.
pub open spec fn wrapping_sum(a: u64, b: u64) -> u64 {
    if a + b > u64::MAX {
        (a + b - 0x1_0000_0000_0000_0000) as u64
    } else {
        (a + b) as u64
    }
}

/// A running measurement.
#[derive(Debug, Clone, Copy, PartialEq, Eq, Structural)]
pub struct MemBench {
    /// Which measurement.
    pub op: u32,
    /// Its argument.
    pub arg: u32,
    /// Where it stands.
    pub stage: Stage,
    /// The checksum so far.
    pub ck: u64,
    /// The position read in this round.
    pub kept: u64,
}

/// The access that a measurement asks for.
pub open spec fn wanted(b: MemBench) -> Option<Access> {
    match b.stage {
        Stage::Prepare(k) => Some(preparing_access(b.op, k)),
        Stage::Round(i, j) => Some(round_access(b.op, b.arg, i, j, b.kept, b.ck)),
        Stage::Close => Some(Access::TryRecv(0)),
        Stage::Finished => None,
    }
}

/// The measurement after an access gave `v`.
pub open spec fn fed(b: MemBench, v: u64) -> MemBench {
    MemBench {
        stage: next_stage(b.op, b.arg, b.stage),
        ck: if b.op == PEEK_T {
            v
        } else {
            wrapping_sum(b.ck, gain(b.op, b.stage, v))
        },
        kept: if b.stage matches Stage::Round(i, j) && j == 1 {
            v
        } else {
            b.kept
        },
        ..b
    }
}

/// `arg`, or the default where it is zero.
pub(crate) fn times_of(arg: u32, default: u64) -> (r: u64)
    ensures
        r == times(arg, default),
{
    if arg == 0 {
        default
    } else {
        arg as u64
    }
}

/// The number of rounds.
fn rounds_of(op: u32, arg: u32) -> (r: u64)
    ensures
        r == rounds(op, arg),
        r <= u32::MAX,
{
    if op > DISPATCH_N || op == FRESH_WAIT_RECV {
        0
    } else if op == RD_STRIDE_SHM {
        let s: u64 = times_of(arg, 64);
        let d: u64 = if s < 8 {
            8
        } else {
            s
        };
        proof {
            assert(2040u64 / d <= 2040) by (nonlinear_arith)
                requires
                    d >= 8,
            ;
        }
        2040 / d + 1
    } else if op == PEEK_T {
        if arg % 4 == 0 {
            1000
        } else {
            0
        }
    } else if op == RECV_EMPTY_CH {
        200
    } else if op == TIMER_NOW {
        times_of(arg, 1000)
    } else if op == NOTIFY_N {
        times_of(arg, 100)
    } else if op == COLD_AQ_SHM {
        times_of(arg, 64)
    } else if op == RD_BLK256_SHM || op == RD_BLK8_SHM || op == RD_BLK256_LOCAL || op == SPIN_ITER
        || op == RECV_EMPTY || op == RECV_SEQ || op == SEND_SEQ || op == POSTCARD_RT || op
        == SELF_ROUND || op == SELF_PEEK || op == DISPATCH_N {
        times_of(arg, 200)
    } else {
        times_of(arg, 2000)
    }
}

/// The number of accesses in a round.
fn width_of(op: u32) -> (r: u64)
    ensures
        r == width(op),
{
    if op == RD_BLK8_SHM {
        32
    } else if op == RECV_SEQ || op == SEND_SEQ {
        5
    } else if op == COLD_AQ_SHM || op == SELF_ROUND {
        2
    } else {
        1
    }
}

/// The first stage of the rounds.
fn first_round_of(op: u32, arg: u32) -> (r: Stage)
    ensures
        r == first_round(op, arg),
{
    if rounds_of(op, arg) > 0 {
        Stage::Round(0, 0)
    } else if op == SELF_PEEK {
        Stage::Close
    } else {
        Stage::Finished
    }
}

impl MemBench {
    /// The stage is one that the measurement can reach.
    pub open spec fn wf(self) -> bool {
        match self.stage {
            Stage::Prepare(k) => k < preparations(self.op),
            Stage::Round(i, j) => i < rounds(self.op, self.arg) && j < width(self.op),
            _ => true,
        }
    }

    /// Starts a measurement. One that is unknown, or that is refused, is
    /// finished at once.
    pub fn begin(op: u32, arg: u32) -> (r: MemBench)
        ensures
            r == (MemBench { op, arg, stage: first_stage(op, arg), ck: 0, kept: 0 }),
            r.wf(),
    {
        let stage = if op == RECV_SEQ || op == SEND_SEQ || op == SELF_PEEK {
            Stage::Prepare(0)
        } else {
            first_round_of(op, arg)
        };
        MemBench { op, arg, stage, ck: 0, kept: 0 }
    }

    /// The access that is due; `None` at the end.
    pub fn next(&self) -> (r: Option<Access>)
        requires
            self.wf(),
        ensures
            r == wanted(*self),
    {
        let op: u32 = self.op;
        match self.stage {
            Stage::Finished => None,
            Stage::Close => Some(Access::TryRecv(0)),
            Stage::Prepare(k) => {
                if op == SELF_PEEK {
                    Some(Access::TrySend(0, 0x51))
                } else if k == 0 {
                    Some(Access::StoreRelease(0x4C0, 0))
                } else {
                    Some(Access::StoreRelease(0x4C8, 1))
                }
            },
            Stage::Round(i, j) => Some(self.in_round(i, j)),
        }
    }

    /// Access number `j` of round `i`.
    fn in_round(&self, i: u64, j: u64) -> (r: Access)
        requires
            self.wf(),
            self.stage == Stage::Round(i, j),
        ensures
            r == round_access(self.op, self.arg, i, j, self.kept, self.ck),
    {
        let op: u32 = self.op;
        let kept: u64 = self.kept;
        let after: u64 = if kept == u64::MAX {
            0
        } else {
            (kept + 1) % 128
        };
        proof {
            assert((u64::MAX + 1) % 128 == 0);
        }
        if op == RD_LINE_SHM {
            Access::ReadShm(0)
        } else if op == RD_BLK256_SHM {
            Access::BlockShm
        } else if op == RD_BLK8_SHM {
            Access::ReadShm(8 * j)
        } else if op == WR_LINE_SHM {
            Access::WriteShm(i)
        } else if op == RD_LINE_LOCAL {
            Access::ReadLocal
        } else if op == RD_BLK256_LOCAL {
            Access::BlockLocal
        } else if op == WR_LINE_LOCAL {
            Access::WriteLocal(i)
        } else if op == RD_STRIDE_SHM {
            let s: u64 = times_of(self.arg, 64);
            let d: u64 = if s < 8 {
                8
            } else {
                s
            };
            proof {
                lemma_stride_inside(i, d);
            }
            Access::ReadShm(i * d)
        } else if op == RD_MMBOX_MSGSTAT {
            Access::MsgCount
        } else if op == RD_MMBOX_IRQEN {
            Access::IrqEnabled
        } else if op == RD_MMBOX_FIFOSTAT {
            Access::FifoEmpty
        } else if op == RD_MTIME {
            Access::Mtime
        } else if op == AQ_LOAD_SHM {
            Access::LoadAcquire(0)
        } else if op == REL_STORE_SHM {
            Access::StoreRelease(0, i)
        } else if op == FENCE_ONLY {
            Access::Fence
        } else if op == SPIN_ITER {
            Access::Waiting
        } else if op == PEEK_T {
            Access::Peek(self.arg)
        } else if op == AQ_LOAD_LOCAL {
            Access::LoadAcquireLocal
        } else if op == RECV_EMPTY {
            Access::TryRecv(0)
        } else if op == TIMER_NOW {
            Access::PlatformTime
        } else if op == AQ_DISTINCT_SHM {
            Access::LoadAcquire(0x40 + i % 16 * 64)
        } else if op == COLD_AQ_SHM {
            if j == 0 {
                Access::LoadAcquire(0x40 + i % 16 * 64)
            } else {
                Access::Mtime
            }
        } else if op == RECV_SEQ {
            if j == 0 {
                Access::LoadAcquire16(0x480)
            } else if j == 1 {
                Access::LoadAcquire(0x4C0)
            } else if j == 2 {
                Access::LoadAcquire(0x4C8)
            } else if j == 3 {
                Access::BlockByte(0x500)
            } else {
                Access::StoreRelease(0x4C0, after)
            }
        } else if op == SEND_SEQ {
            if j == 0 {
                Access::LoadAcquire16(0x480)
            } else if j == 1 {
                Access::LoadAcquire(0x4C8)
            } else if j == 2 {
                Access::LoadAcquire(0x4C0)
            } else if j == 3 {
                Access::FillBlock(0x500, (self.ck % 256) as u8)
            } else {
                Access::StoreRelease(0x4C8, after)
            }
        } else if op == POSTCARD_RT {
            Access::Postcard(i)
        } else if op == RECV_EMPTY_CH {
            Access::TryRecv((self.arg % 3) as u8)
        } else if op == NOTIFY_N {
            Access::Notify
        } else if op == SELF_ROUND {
            if j == 0 {
                Access::TrySend(0, 0x50)
            } else {
                Access::TryRecv(0)
            }
        } else if op == SELF_PEEK {
            Access::PeekMsg(0)
        } else {
            Access::Dispatch
        }
    }

    /// Takes in what the access gave.
    pub fn feed(&mut self, v: u64)
        requires
            old(self).wf(),
        ensures
            *final(self) == fed(*old(self), v),
            final(self).wf(),
    {
        let op: u32 = self.op;
        let add: u64 = match self.stage {
            Stage::Prepare(_) => if op == SELF_PEEK && v == 0 {
                1
            } else {
                0
            },
            Stage::Round(i, j) => if op == WR_LINE_SHM || op == WR_LINE_LOCAL || op == REL_STORE_SHM
                || op == FENCE_ONLY || op == NOTIFY_N {
                0
            } else if op == RECV_SEQ {
                if j == 0 || j == 3 {
                    v
                } else {
                    0
                }
            } else if op == SEND_SEQ {
                if j == 0 {
                    v
                } else {
                    0
                }
            } else if op == SELF_ROUND {
                if v == 0 {
                    1
                } else {
                    0
                }
            } else if op == DISPATCH_N {
                if v == 0 {
                    i
                } else {
                    0
                }
            } else {
                v
            },
            _ => 0,
        };
        if op == PEEK_T {
            self.ck = v;
        } else {
            self.ck = self.ck.wrapping_add(add);
        }
        let n: u64 = rounds_of(op, self.arg);
        let w: u64 = width_of(op);
        self.stage = match self.stage {
            Stage::Prepare(k) => if op != SELF_PEEK && k == 0 {
                Stage::Prepare(1)
            } else {
                first_round_of(op, self.arg)
            },
            Stage::Round(i, j) => {
                if j == 1 {
                    self.kept = v;
                }
                if j + 1 < w {
                    Stage::Round(i, j + 1)
                } else if i + 1 < n {
                    Stage::Round(i + 1, 0)
                } else if op == SELF_PEEK {
                    Stage::Close
                } else {
                    Stage::Finished
                }
            },
            _ => Stage::Finished,
        };
    }

    /// The result of a finished measurement that ran from `t0` to `t1`: the
    /// time in nanoseconds and the checksum. One that is unknown or refused
    /// gives zeros.
    pub fn finish(&self, t0: u64, t1: u64) -> (r: (u64, u64))
        requires
            self.stage == Stage::Finished,
            (if t1 >= t0 {
                (t1 - t0) * 1_000_000_000
            } else {
                0
            }) <= u64::MAX,
        ensures
            r == (if rounds(self.op, self.arg) == 0 {
                (0u64, 0u64)
            } else {
                (
                    ns_of(
                        if t1 >= t0 {
                            (t1 - t0) as nat
                        } else {
                            0
                        },
                    ) as u64,
                    wrapping_sum(self.ck, bonus(self.op, self.arg)),
                )
            }),
    {
        let op: u32 = self.op;
        let n: u64 = rounds_of(op, self.arg);
        if n == 0 {
            return (0, 0);
        }
        let extra: u64 = if op == WR_LINE_SHM || op == WR_LINE_LOCAL || op == REL_STORE_SHM || op
            == NOTIFY_N || op == SPIN_ITER {
            n
        } else if op == DISPATCH_N {
            1
        } else {
            0
        };
        (ticks_to_ns(t1.saturating_sub(t0)), self.ck.wrapping_add(extra))
    }
}

/// A read at a stride stays inside the scratch area.
proof fn lemma_stride_inside(i: u64, d: u64)
    requires
        d >= 8,
        i < 2040u64 / d + 1,
    ensures
        i * d <= 2040,
{
    assert(i * d <= 2040) by (nonlinear_arith)
        requires
            d >= 8,
            i < 2040u64 / d + 1,
    ;
}

/// The offset of an access into the scratch area.
pub open spec fn end_of(a: Access) -> nat {
    match a {
        Access::ReadShm(off) => (off + 8) as nat,
        Access::LoadAcquire(off) => (off + 8) as nat,
        Access::LoadAcquire16(off) => (off + 2) as nat,
        Access::StoreRelease(off, v) => (off + 8) as nat,
        Access::BlockShm => 256,
        Access::BlockByte(off) => (off + 256) as nat,
        Access::FillBlock(off, v) => (off + 256) as nat,
        Access::WriteShm(v) => 8,
        _ => 0,
    }
}

/// No measurement leaves the scratch area, so none can disturb a channel.
pub proof fn law_accesses_stay_inside(b: MemBench)
    requires
        b.wf(),
        is_plain(b.op),
    ensures
        wanted(b) matches Some(a) ==> end_of(a) <= SHM_SCRATCH_LEN,
{
    if b.op == RD_STRIDE_SHM {
        if let Stage::Round(i, j) = b.stage {
            lemma_stride_inside(i, stride(b.arg));
        }
    }
}

/// Counts down the accesses that are left.
pub open spec fn rounds_left(b: MemBench) -> nat {
    match b.stage {
        Stage::Prepare(k) => (rounds(b.op, b.arg) + 2 + (preparations(b.op) - k)) as nat,
        Stage::Round(i, j) => (rounds(b.op, b.arg) - i + 1) as nat,
        Stage::Close => 1,
        Stage::Finished => 0,
    }
}

/// Every measurement ends: each answer moves it on.
pub proof fn law_measurement_ends(b: MemBench, v: u64)
    requires
        b.wf(),
        b.stage != Stage::Finished,
    ensures
        fed(b, v).wf(),
        rounds_left(fed(b, v)) < rounds_left(b) || (rounds_left(fed(b, v)) == rounds_left(b)
            && b.stage is Round && fed(b, v).stage is Round && fed(b, v).stage->Round_1
            == b.stage->Round_1 + 1 && fed(b, v).stage->Round_1 < width(b.op)),
{
}

/// Every value that the measurement reads is added to the checksum.
pub open spec fn adds_up(op: u32) -> bool {
    is_plain(op) && op != WR_LINE_SHM && op != WR_LINE_LOCAL && op != REL_STORE_SHM && op
        != FENCE_ONLY && op != NOTIFY_N && op != RECV_SEQ && op != SEND_SEQ && op != SELF_ROUND
        && op != DISPATCH_N && op != PEEK_T
}

/// The measurement after its accesses gave `vs`.
pub open spec fn fed_all(b: MemBench, vs: Seq<u64>) -> MemBench
    decreases vs.len(),
{
    if vs.len() == 0 {
        b
    } else {
        fed(fed_all(b, vs.drop_last()), vs.last())
    }
}

/// The sum of the values.
pub open spec fn sum(vs: Seq<u64>) -> nat
    decreases vs.len(),
{
    if vs.len() == 0 {
        0
    } else {
        sum(vs.drop_last()) + vs.last() as nat
    }
}

/// The checksum of the rounds is the sum of the values read, modulo 2^64,
/// where the measurement adds them up.
pub proof fn law_checksum_is_sum(b: MemBench, vs: Seq<u64>)
    requires
        adds_up(b.op),
        b.ck == 0,
        forall|k: int| 0 <= k < vs.len() ==> (#[trigger] fed_all(b, vs.take(k))).stage is Round,
    ensures
        fed_all(b, vs).ck == sum(vs) % 0x1_0000_0000_0000_0000,
        fed_all(b, vs).op == b.op,
    decreases vs.len(),
{
    if vs.len() > 0 {
        let init = vs.drop_last();
        assert forall|k: int| 0 <= k < init.len() implies (#[trigger] fed_all(
            b,
            init.take(k),
        )).stage is Round by {
            assert(init.take(k) =~= vs.take(k));
        }
        law_checksum_is_sum(b, init);
        assert(vs.take(vs.len() - 1) =~= init);
        assert(fed_all(b, vs.take(vs.len() - 1)).stage is Round);
        let a = sum(init);
        let v = vs.last() as nat;
        assert(sum(vs) == a + v);
        assert((a % 0x1_0000_0000_0000_0000 + v) % 0x1_0000_0000_0000_0000 == (a + v)
            % 0x1_0000_0000_0000_0000);
    }
}

/// Builds and reads back a request and a response; the checksum is the sum of
/// the method number and the request number that come out.
pub fn postcard_round(k: u64) -> (r: u64)
    ensures
        r == wrapping_sum(3, k),
{
    let args: (u64,) = (0xA5A5,);
    proof {
        lemma_postcard_short();
        law_request_round_trip::<(u64,)>(k, 3, args);
    }
    let msg = match Message::request(k, 3, &args) {
        Ok(m) => m,
        Err(_) => return 0,
    };
    let m: u64 = match msg.method_id() {
        Some(x) => x,
        None => 0,
    };
    let (rid, a) = match msg.as_request::<(u64,)>() {
        Some((rid, _, a)) => (rid, a.0),
        None => return 0,
    };
    let reply: (u64, u8, (u64, u64, (u64, u64, (u64, u64)))) = (
        a,
        1,
        (0, 0, (0, 0, (0, 0))),
    );
    match Message::response(rid, &reply) {
        Ok(resp) => {
            let _ = resp.as_response::<(u64, u8, (u64, u64, (u64, u64, (u64, u64))))>();
        },
        Err(_) => {},
    }
    m.wrapping_add(rid)
}

/// The arguments are short.
proof fn lemma_postcard_short()
    ensures
        <(u64,) as Wire>::wire((0xA5A5u64,)).len() <= 10,
{
    crate::varint::lemma_pow128_words();
    crate::varint::lemma_varint_len(0xA5A5, 10);
}

/// How long to wait for a message that is about to be sent.
pub fn fresh_deadline(now: u64, arg: u32, freq_hz: u32) -> (r: u64)
    requires
        now + 1000 * freq_hz <= u64::MAX,
    ensures
        r == now + (if arg == 0 {
            200int
        } else if arg > 1000 {
            1000
        } else {
            arg as int
        }) * freq_hz / 1000,
{
    let ms: u64 = if arg == 0 {
        200
    } else if arg > 1000 {
        1000
    } else {
        arg as u64
    };
    proof {
        assert(ms * freq_hz <= 1000 * freq_hz) by (nonlinear_arith)
            requires
                ms <= 1000,
        ;
        assert(0 <= ms * freq_hz) by (nonlinear_arith);
    }
    now + ms * freq_hz as u64 / 1000
}

/// What an attempt to take a message that is about to be sent comes to.
#[derive(Debug, Clone, Copy, PartialEq, Eq, Structural)]
pub enum Fresh {
    /// It was there; the attempt took so many nanoseconds.
    Hit(u64),
    /// Try again.
    Again,
    /// Give up.
    TimedOut,
}

/// Judges an attempt that ran from `t0` to `t1`.
pub fn fresh_step(got: bool, t0: u64, t1: u64, now: u64, deadline: u64) -> (r: Fresh)
    requires
        t0 <= t1,
        (t1 - t0) * 1_000_000_000 <= u64::MAX,
    ensures
        r == (if got {
            Fresh::Hit(ns_of((t1 - t0) as nat) as u64)
        } else if now > deadline {
            Fresh::TimedOut
        } else {
            Fresh::Again
        }),
{
    if got {
        Fresh::Hit(ticks_to_ns(t1 - t0))
    } else if now > deadline {
        Fresh::TimedOut
    } else {
        Fresh::Again
    }
}

/// Two 32-bit halves in one word.
pub open spec fn packed(high: u64, low: u64) -> u64 {
    (high << 32) | low
}

/// The result of giving up: the positions of the ring.
pub fn fresh_timeout(read: u64, write: u64) -> (r: (u64, u64))
    ensures
        r == (0u64, packed(write, read)),
{
    (0, (write << 32) | read)
}

/// Packing keeps both halves apart where they fit.
pub proof fn law_packed(high: u64, low: u64)
    requires
        high <= u32::MAX,
        low <= u32::MAX,
    ensures
        packed(high, low) == high * 0x1_0000_0000 + low,
{
    assert(high <= 0xffff_ffff && low <= 0xffff_ffff ==> (high << 32) | low == high
        * 0x1_0000_0000 + low) by (bit_vector);
}

/// The difference modulo 2^64.
pub open spec fn wrapping_difference(a: u64, b: u64) -> u64 {
    if a < b {
        (a - b + 0x1_0000_0000_0000_0000) as u64
    } else {
        (a - b) as u64
    }
}

} // verus!
