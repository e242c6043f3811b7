//! Experiments on the order in which the cores see each other's writes.

use crate::apps::stats::{Stats, LIT_ROUNDS, LIT_STATE, LIT_VIOL};
use vstd::prelude::*;

verus! {

/// This core polls what the other publishes.
pub const L1_POLL: u32 = 0;

/// This core publishes.
pub const L2_PUBLISH: u32 = 1;

/// Both cores write a flag and read the other's.
pub const L3_DEKKER: u32 = 2;

/// Offsets of the words that the experiments use, from the start of the
/// scratch area: the round and the data that the other core publishes, and the
/// round that this core has seen.
pub const L1_ROUND: usize = 0x00;

/// Data of the other core.
pub const L1_DATA: usize = 0x08;

/// The round that this core has seen.
pub const L1_ECHO: usize = 0x10;

/// The round that this core publishes.
pub const L2_ROUND: usize = 0x20;

/// The data that this core publishes.
pub const L2_DATA: usize = 0x28;

/// The flag of the other core.
pub const L3_AP_FLAG: usize = 0x30;

/// The flag of this core.
pub const L3_RP_FLAG: usize = 0x38;

/// A word that nobody writes.
pub const L1_NEIGHBOUR: usize = 0x7f8;

/// The data that belongs to round `r` of the first experiment.
pub open spec fn mixed1(r: u64) -> u64 {
    r ^ 0xA5A5_5A5A_5A5A_5A5A
}

/// The data that belongs to round `k` of the second experiment, modulo 2^64.
pub open spec fn mixed2(k: u64) -> u64 {
    (k as nat * 2654435761 % 0x1_0000_0000_0000_0000) as u64
}

/// The data that belongs to round `r` of the first experiment.
pub fn lit_mix_l1(r: u64) -> (d: u64)
    ensures
        d == mixed1(r),
{
    r ^ 0xA5A5_5A5A_5A5A_5A5A
}

/// The data that belongs to round `k` of the second experiment.
pub fn lit_mix_l2(k: u64) -> (d: u64)
    ensures
        d == mixed2(k),
{
    let wide: u128 = k as u128 * 2654435761u128;
    proof {
        assert(k as nat * 2654435761 <= 0xffff_ffff_ffff_ffff * 2654435761) by (nonlinear_arith)
            requires
                k <= 0xffff_ffff_ffff_ffff,
        ;
    }
    (wide % 0x1_0000_0000_0000_0000u128) as u64
}

/// Different rounds of the first experiment have different data.
pub proof fn law_mix_l1_distinct(a: u64, b: u64)
    ensures
        mixed1(a) == mixed1(b) ==> a == b,
        mixed1(mixed1(a)) == a,
{
    assert(a ^ 0xA5A5_5A5A_5A5A_5A5Au64 == b ^ 0xA5A5_5A5A_5A5A_5A5Au64 ==> a == b)
        by (bit_vector);
    assert((a ^ 0xA5A5_5A5A_5A5A_5A5Au64) ^ 0xA5A5_5A5A_5A5A_5A5Au64 == a) by (bit_vector);
}

/// How the first experiment reads.
#[derive(Debug, Clone, Copy, PartialEq, Eq, Structural)]
pub enum ReadMode {
    /// A plain read.
    Plain,
    /// A fence before the read.
    Fenced,
    /// A read of a neighbouring word before the read.
    Neighbour,
}

/// What an experiment does next.
#[derive(Debug, Clone, Copy, PartialEq, Eq, Structural)]
pub enum LitAccess {
    /// Read the clock.
    Clock,
    /// A fence between the reads before and after it.
    Fence,
    /// Read the word at this offset.
    Read(usize),
    /// Write a word at this offset.
    Write(usize, u64),
    /// Ring the doorbell of the other core, without a fence.
    Bell,
}

/// What the first experiment does next.
#[derive(Debug, Clone, Copy, PartialEq, Eq, Structural)]
pub enum L1Stage {
    /// Read the clock, to set the end.
    Start,
    /// Read the round that is published already.
    First,
    /// Make the next read a fresh one.
    Refresh,
    /// Read the round.
    Round,
    /// Read the data of a new round.
    Data,
    /// Read the round again.
    Again,
    /// Read the round once more, since it moved on.
    Latest,
    /// Publish the round seen.
    Echo,
    /// Read the clock, to see whether the time is over.
    Time,
    /// Nothing.
    Done,
}

/// The first experiment: looks for new rounds until the time is over.
#[derive(Debug, Clone, Copy, PartialEq, Eq, Structural)]
pub struct L1 {
    /// How to read.
    pub mode: ReadMode,
    /// How long to go on, in ticks.
    pub ticks: u64,
    /// When to stop.
    pub deadline: u64,
    /// The round seen last.
    pub last: u64,
    /// The round that this look found.
    pub round: u64,
    /// The data that this look found.
    pub data: u64,
    /// Rounds seen.
    pub rounds: u64,
    /// Rounds whose data did not belong to them.
    pub viol: u64,
    /// What comes next.
    pub stage: L1Stage,
}

/// The access that is due; `None` at the end.
pub open spec fn l1_due(s: L1) -> Option<LitAccess> {
    match s.stage {
        L1Stage::Start | L1Stage::Time => Some(LitAccess::Clock),
        L1Stage::First | L1Stage::Round | L1Stage::Again | L1Stage::Latest => Some(
            LitAccess::Read(L1_ROUND),
        ),
        L1Stage::Refresh => Some(
            if s.mode == ReadMode::Fenced {
                LitAccess::Fence
            } else {
                LitAccess::Read(L1_NEIGHBOUR)
            },
        ),
        L1Stage::Data => Some(LitAccess::Read(L1_DATA)),
        L1Stage::Echo => Some(LitAccess::Write(L1_ECHO, s.round)),
        L1Stage::Done => None,
    }
}

/// Where a look begins.
pub open spec fn l1_look(mode: ReadMode) -> L1Stage {
    if mode == ReadMode::Plain {
        L1Stage::Round
    } else {
        L1Stage::Refresh
    }
}

/// The experiment after an access gave `v`. A round counts where the data was
/// read between two reads of that same round; where the round moved on, the look
/// is dropped, and the next begins without a look at the clock.
pub open spec fn l1_moved(s: L1, v: u64) -> L1 {
    match s.stage {
        L1Stage::Start => L1 { deadline: (v + s.ticks) as u64, stage: L1Stage::First, ..s },
        L1Stage::First => L1 { last: v, stage: l1_look(s.mode), ..s },
        L1Stage::Refresh => L1 { stage: L1Stage::Round, ..s },
        L1Stage::Round => L1 {
            round: v,
            stage: if v == s.last {
                L1Stage::Time
            } else {
                L1Stage::Data
            },
            ..s
        },
        L1Stage::Data => L1 { data: v, stage: L1Stage::Again, ..s },
        L1Stage::Again => if v != s.round {
            L1 { stage: L1Stage::Latest, ..s }
        } else {
            L1 {
                last: s.round,
                rounds: (s.rounds + 1) as u64,
                viol: if s.data == mixed1(s.round) {
                    s.viol
                } else {
                    (s.viol + 1) as u64
                },
                stage: L1Stage::Echo,
                ..s
            }
        },
        L1Stage::Latest => L1 { last: v, stage: l1_look(s.mode), ..s },
        L1Stage::Echo => L1 { stage: L1Stage::Time, ..s },
        L1Stage::Time => L1 {
            stage: if v >= s.deadline {
                L1Stage::Done
            } else {
                l1_look(s.mode)
            },
            ..s
        },
        L1Stage::Done => s,
    }
}

/// The first experiment before its first access.
pub open spec fn l1_begun(arg: u32, freq_hz: u32) -> L1 {
    L1 {
        mode: if arg / 0x1_0000 % 4 == 1 {
            ReadMode::Fenced
        } else if arg / 0x1_0000 % 4 == 2 {
            ReadMode::Neighbour
        } else {
            ReadMode::Plain
        },
        ticks: ((if arg % 0x1_0000 == 0 {
            100int
        } else {
            arg as int % 0x1_0000
        }) * freq_hz / 1000) as u64,
        deadline: 0,
        last: 0,
        round: 0,
        data: 0,
        rounds: 0,
        viol: 0,
        stage: L1Stage::Start,
    }
}

impl L1 {
    /// No more rounds went wrong than were seen.
    pub open spec fn wf(self) -> bool {
        self.viol <= self.rounds
    }

    /// The end of the time and the number of rounds fit in a word after an
    /// access that gives `v`.
    pub open spec fn fits(self, v: u64) -> bool {
        &&& self.stage == L1Stage::Start ==> v + self.ticks <= u64::MAX
        &&& self.stage == L1Stage::Again ==> self.rounds < u64::MAX
    }

    /// The low half of `arg` is the time in milliseconds, 100 where it is zero;
    /// the two bits above it are the way of reading.
    pub fn begin(arg: u32, freq_hz: u32) -> (r: L1)
        ensures
            r.wf(),
            r == l1_begun(arg, freq_hz),
    {
        let low: u32 = arg % 0x1_0000;
        let ms: u64 = if low == 0 {
            100
        } else {
            low as u64
        };
        let mode = match arg / 0x1_0000 % 4 {
            1 => ReadMode::Fenced,
            2 => ReadMode::Neighbour,
            _ => ReadMode::Plain,
        };
        proof {
            assert(0 <= ms * freq_hz <= 65535 * 0xffff_ffff) by (nonlinear_arith)
                requires
                    0 <= ms <= 65535,
                    0 <= freq_hz <= 0xffff_ffff,
            ;
        }
        L1 {
            mode,
            ticks: ms * freq_hz as u64 / 1000,
            deadline: 0,
            last: 0,
            round: 0,
            data: 0,
            rounds: 0,
            viol: 0,
            stage: L1Stage::Start,
        }
    }

    /// The access that is due; `None` at the end.
    pub fn due(&self) -> (r: Option<LitAccess>)
        ensures
            r == l1_due(*self),
    {
        match self.stage {
            L1Stage::Start | L1Stage::Time => Some(LitAccess::Clock),
            L1Stage::First | L1Stage::Round | L1Stage::Again | L1Stage::Latest => Some(
                LitAccess::Read(L1_ROUND),
            ),
            L1Stage::Refresh => Some(
                if self.mode == ReadMode::Fenced {
                    LitAccess::Fence
                } else {
                    LitAccess::Read(L1_NEIGHBOUR)
                },
            ),
            L1Stage::Data => Some(LitAccess::Read(L1_DATA)),
            L1Stage::Echo => Some(LitAccess::Write(L1_ECHO, self.round)),
            L1Stage::Done => None,
        }
    }

    /// Whether [`L1::advance`] can take `v` in.
    pub fn can_take(&self, v: u64) -> (r: bool)
        ensures
            r == self.fits(v),
    {
        match self.stage {
            L1Stage::Start => v <= u64::MAX - self.ticks,
            L1Stage::Again => self.rounds < u64::MAX,
            _ => true,
        }
    }

    /// The stage with which a look begins.
    fn look(&self) -> (r: L1Stage)
        ensures
            r == l1_look(self.mode),
    {
        if self.mode == ReadMode::Plain {
            L1Stage::Round
        } else {
            L1Stage::Refresh
        }
    }

    /// Takes in what the access gave.
    pub fn advance(&mut self, v: u64)
        requires
            old(self).wf(),
            old(self).fits(v),
        ensures
            final(self).wf(),
            *final(self) == l1_moved(*old(self), v),
    {
        match self.stage {
            L1Stage::Start => {
                self.deadline = v + self.ticks;
                self.stage = L1Stage::First;
            },
            L1Stage::First | L1Stage::Latest => {
                self.last = v;
                self.stage = self.look();
            },
            L1Stage::Refresh => {
                self.stage = L1Stage::Round;
            },
            L1Stage::Round => {
                self.round = v;
                self.stage = if v == self.last {
                    L1Stage::Time
                } else {
                    L1Stage::Data
                };
            },
            L1Stage::Data => {
                self.data = v;
                self.stage = L1Stage::Again;
            },
            L1Stage::Again => {
                if v != self.round {
                    self.stage = L1Stage::Latest;
                } else {
                    if self.data != lit_mix_l1(self.round) {
                        self.viol = self.viol + 1;
                    }
                    self.last = self.round;
                    self.rounds = self.rounds + 1;
                    self.stage = L1Stage::Echo;
                }
            },
            L1Stage::Echo => {
                self.stage = L1Stage::Time;
            },
            L1Stage::Time => {
                self.stage = if v >= self.deadline {
                    L1Stage::Done
                } else {
                    self.look()
                };
            },
            L1Stage::Done => {},
        }
    }
}

/// A look that finds a round, its data, and the round again: nothing is counted
/// where the round is not new or moved on meanwhile, and otherwise the round
/// counts, as a violation where the data does not belong to it.
pub proof fn law_look_counts_settled_rounds(s: L1, round: u64, data: u64, again: u64)
    requires
        s.stage == L1Stage::Round,
        s.wf(),
        s.rounds < u64::MAX,
    ensures
        round == s.last ==> l1_moved(s, round) == (L1 { round, stage: L1Stage::Time, ..s }),
        round != s.last ==> ({
            let t = l1_moved(l1_moved(l1_moved(s, round), data), again);
            if again != round {
                t.rounds == s.rounds && t.viol == s.viol && t.last == s.last && l1_due(t) == Some(
                    LitAccess::Read(L1_ROUND),
                )
            } else {
                &&& t.rounds == s.rounds + 1
                &&& t.viol == s.viol + (if data == mixed1(round) {
                    0int
                } else {
                    1
                })
                &&& t.last == round
                &&& l1_due(t) == Some(LitAccess::Write(L1_ECHO, round))
            }
        }),
{
}

/// What the second experiment does next.
#[derive(Debug, Clone, Copy, PartialEq, Eq, Structural)]
pub enum L2Stage {
    /// The first write of a round.
    First,
    /// The second write.
    Second,
    /// The doorbell.
    Bell,
    /// Read the clock, to set the end of the pause.
    Mark,
    /// Read the clock until the pause is over.
    Pause,
}

/// The second experiment: publishes rounds, with a doorbell and a pause after
/// each.
#[derive(Debug, Clone, Copy, PartialEq, Eq, Structural)]
pub struct L2 {
    /// Rounds to publish.
    pub rounds: u64,
    /// The data is written before the round.
    pub proper: bool,
    /// Ticks from one round to the next.
    pub pace: u64,
    /// The round that is published.
    pub k: u64,
    /// When the pause is over.
    pub until: u64,
    /// What comes next.
    pub stage: L2Stage,
}

/// The two writes of round `k`, in order, each an offset and a value.
pub open spec fn l2_writes(proper: bool, k: u64) -> ((usize, u64), (usize, u64)) {
    if proper {
        ((L2_DATA, mixed2(k)), (L2_ROUND, k))
    } else {
        ((L2_ROUND, k), (L2_DATA, mixed2(k)))
    }
}

/// The access that is due; `None` at the end.
pub open spec fn l2_due(s: L2) -> Option<LitAccess> {
    if s.k >= s.rounds {
        None
    } else {
        let (first, second) = l2_writes(s.proper, s.k);
        Some(
            match s.stage {
                L2Stage::First => LitAccess::Write(first.0, first.1),
                L2Stage::Second => LitAccess::Write(second.0, second.1),
                L2Stage::Bell => LitAccess::Bell,
                L2Stage::Mark | L2Stage::Pause => LitAccess::Clock,
            },
        )
    }
}

/// The experiment after an access gave `v` (zero where it gives nothing).
pub open spec fn l2_moved(s: L2, v: u64) -> L2 {
    if s.k >= s.rounds {
        s
    } else {
        match s.stage {
            L2Stage::First => L2 { stage: L2Stage::Second, ..s },
            L2Stage::Second => L2 { stage: L2Stage::Bell, ..s },
            L2Stage::Bell => L2 { stage: L2Stage::Mark, ..s },
            L2Stage::Mark => L2 { until: (v + s.pace) as u64, stage: L2Stage::Pause, ..s },
            L2Stage::Pause => if v < s.until {
                s
            } else {
                L2 { k: (s.k + 1) as u64, stage: L2Stage::First, ..s }
            },
        }
    }
}

/// The second experiment before its first access.
pub open spec fn l2_begun(arg: u32, freq_hz: u32) -> L2 {
    L2 {
        rounds: if arg % 0x1_0000 == 0 {
            1
        } else {
            (arg % 0x1_0000) as u64
        },
        proper: arg / 0x1_0000 % 2 == 1,
        pace: (freq_hz / 2000) as u64,
        k: 0,
        until: 0,
        stage: L2Stage::First,
    }
}

impl L2 {
    /// The end of the pause fits in a word after an access that gives `v`.
    pub open spec fn fits(self, v: u64) -> bool {
        self.stage == L2Stage::Mark ==> v + self.pace <= u64::MAX
    }

    /// The low half of `arg` is the number of rounds, the bit above it the
    /// order of the writes.
    pub fn begin(arg: u32, freq_hz: u32) -> (r: L2)
        ensures
            r == l2_begun(arg, freq_hz),
    {
        let low: u32 = arg % 0x1_0000;
        L2 {
            rounds: if low == 0 {
                1
            } else {
                low as u64
            },
            proper: arg / 0x1_0000 % 2 == 1,
            pace: (freq_hz / 2000) as u64,
            k: 0,
            until: 0,
            stage: L2Stage::First,
        }
    }

    /// The two writes of round `k`, in order, each an offset and a value.
    pub fn writes(&self, k: u64) -> (r: ((usize, u64), (usize, u64)))
        ensures
            r == l2_writes(self.proper, k),
    {
        let d: u64 = lit_mix_l2(k);
        if self.proper {
            ((L2_DATA, d), (L2_ROUND, k))
        } else {
            ((L2_ROUND, k), (L2_DATA, d))
        }
    }

    /// The access that is due; `None` at the end.
    pub fn due(&self) -> (r: Option<LitAccess>)
        ensures
            r == l2_due(*self),
    {
        if self.k >= self.rounds {
            return None;
        }
        let (first, second) = self.writes(self.k);
        Some(
            match self.stage {
                L2Stage::First => LitAccess::Write(first.0, first.1),
                L2Stage::Second => LitAccess::Write(second.0, second.1),
                L2Stage::Bell => LitAccess::Bell,
                L2Stage::Mark | L2Stage::Pause => LitAccess::Clock,
            },
        )
    }

    /// Whether [`L2::advance`] can take `v` in.
    pub fn can_take(&self, v: u64) -> (r: bool)
        ensures
            r == self.fits(v),
    {
        self.stage != L2Stage::Mark || v <= u64::MAX - self.pace
    }

    /// Takes in what the access gave.
    pub fn advance(&mut self, v: u64)
        requires
            old(self).fits(v),
        ensures
            *final(self) == l2_moved(*old(self), v),
    {
        if self.k >= self.rounds {
            return;
        }
        match self.stage {
            L2Stage::First => {
                self.stage = L2Stage::Second;
            },
            L2Stage::Second => {
                self.stage = L2Stage::Bell;
            },
            L2Stage::Bell => {
                self.stage = L2Stage::Mark;
            },
            L2Stage::Mark => {
                self.until = v + self.pace;
                self.stage = L2Stage::Pause;
            },
            L2Stage::Pause => {
                if v >= self.until {
                    self.k = self.k + 1;
                    self.stage = L2Stage::First;
                }
            },
        }
    }
}

/// Each round makes its two writes, then rings, and pauses for at least the pace
/// from the clock reading after the doorbell to the next round.
pub proof fn law_round_is_published_then_rung(s: L2, now: u64, later: u64)
    requires
        s.stage == L2Stage::First,
        s.k < s.rounds,
        now + s.pace <= u64::MAX,
    ensures
        ({
            let (first, second) = l2_writes(s.proper, s.k);
            let s1 = l2_moved(s, 0);
            let s2 = l2_moved(s1, 0);
            let s3 = l2_moved(s2, 0);
            let s4 = l2_moved(s3, now);
            &&& l2_due(s) == Some(LitAccess::Write(first.0, first.1))
            &&& l2_due(s1) == Some(LitAccess::Write(second.0, second.1))
            &&& l2_due(s2) == Some(LitAccess::Bell)
            &&& l2_due(s3) == Some(LitAccess::Clock)
            &&& l2_due(s4) == Some(LitAccess::Clock)
            &&& l2_moved(s4, later).k == s.k + (if later < now + s.pace {
                0int
            } else {
                1
            })
        }),
{
}

/// What the third experiment does next.
#[derive(Debug, Clone, Copy, PartialEq, Eq, Structural)]
pub enum L3Stage {
    /// Read the other core's flag for the first time.
    First,
    /// Write this core's flag.
    Write,
    /// Read the other core's flag.
    Read,
}

/// The third experiment: writes this core's flag and reads the other's, round
/// after round.
#[derive(Debug, Clone, Copy, PartialEq, Eq, Structural)]
pub struct L3 {
    /// Rounds to run.
    pub rounds: u64,
    /// Rounds run.
    pub done: u64,
    /// The other core's flag, as read last.
    pub last: u64,
    /// Rounds in which that flag had not moved.
    pub stale: u64,
    /// What comes next.
    pub stage: L3Stage,
}

/// The access that is due; `None` at the end.
pub open spec fn l3_due(s: L3) -> Option<LitAccess> {
    match s.stage {
        L3Stage::First | L3Stage::Read => Some(LitAccess::Read(L3_AP_FLAG)),
        L3Stage::Write => if s.done < s.rounds {
            Some(LitAccess::Write(L3_RP_FLAG, (s.done + 1) as u64))
        } else {
            None
        },
    }
}

/// The experiment after an access gave `v` (zero for a write).
pub open spec fn l3_moved(s: L3, v: u64) -> L3 {
    match s.stage {
        L3Stage::First => L3 { last: v, stage: L3Stage::Write, ..s },
        L3Stage::Write => if s.done < s.rounds {
            L3 { stage: L3Stage::Read, ..s }
        } else {
            s
        },
        L3Stage::Read => L3 {
            last: v,
            stale: if v == s.last {
                (s.stale + 1) as u64
            } else {
                s.stale
            },
            done: (s.done + 1) as u64,
            stage: L3Stage::Write,
            ..s
        },
    }
}

/// The third experiment before its first access.
pub open spec fn l3_begun(arg: u32) -> L3 {
    L3 {
        rounds: if arg == 0 {
            1000
        } else if arg > 100_000 {
            100_000
        } else {
            arg as u64
        },
        done: 0,
        last: 0,
        stale: 0,
        stage: L3Stage::First,
    }
}

impl L3 {
    /// No more rounds were run than there are, and no more were stale than were
    /// run.
    pub open spec fn wf(self) -> bool {
        &&& self.stale <= self.done <= self.rounds <= 100_000
        &&& self.stage == L3Stage::Read ==> self.done < self.rounds
    }

    /// `arg` rounds, 1000 where it is zero and at most 100000.
    pub fn begin(arg: u32) -> (r: L3)
        ensures
            r.wf(),
            r == l3_begun(arg),
    {
        L3 {
            rounds: if arg == 0 {
                1000
            } else if arg > 100_000 {
                100_000
            } else {
                arg as u64
            },
            done: 0,
            last: 0,
            stale: 0,
            stage: L3Stage::First,
        }
    }

    /// The access that is due; `None` at the end.
    pub fn due(&self) -> (r: Option<LitAccess>)
        requires
            self.wf(),
        ensures
            r == l3_due(*self),
    {
        match self.stage {
            L3Stage::First | L3Stage::Read => Some(LitAccess::Read(L3_AP_FLAG)),
            L3Stage::Write => if self.done < self.rounds {
                Some(LitAccess::Write(L3_RP_FLAG, self.done + 1))
            } else {
                None
            },
        }
    }

    /// Takes in what the access gave.
    pub fn advance(&mut self, v: u64)
        requires
            old(self).wf(),
        ensures
            final(self).wf(),
            *final(self) == l3_moved(*old(self), v),
    {
        match self.stage {
            L3Stage::First => {
                self.last = v;
                self.stage = L3Stage::Write;
            },
            L3Stage::Write => {
                if self.done < self.rounds {
                    self.stage = L3Stage::Read;
                }
            },
            L3Stage::Read => {
                if v == self.last {
                    self.stale = self.stale + 1;
                }
                self.last = v;
                self.done = self.done + 1;
                self.stage = L3Stage::Write;
            },
        }
    }
}

/// An experiment that runs.
#[derive(Debug, Clone, Copy, PartialEq, Eq, Structural)]
pub enum Litmus {
    /// The first.
    Poll(L1),
    /// The second.
    Publish(L2),
    /// The third.
    Dekker(L3),
    /// There is no such experiment: nothing is done.
    Unknown,
}

/// The access that is due; `None` at the end.
pub open spec fn litmus_due(s: Litmus) -> Option<LitAccess> {
    match s {
        Litmus::Poll(l) => l1_due(l),
        Litmus::Publish(l) => l2_due(l),
        Litmus::Dekker(l) => l3_due(l),
        Litmus::Unknown => None,
    }
}

/// The experiment after an access gave `v`.
pub open spec fn litmus_moved(s: Litmus, v: u64) -> Litmus {
    match s {
        Litmus::Poll(l) => Litmus::Poll(l1_moved(l, v)),
        Litmus::Publish(l) => Litmus::Publish(l2_moved(l, v)),
        Litmus::Dekker(l) => Litmus::Dekker(l3_moved(l, v)),
        Litmus::Unknown => s,
    }
}

/// Experiment `op` before its first access.
pub open spec fn litmus_begun(op: u32, arg: u32, freq_hz: u32) -> Litmus {
    if op == L1_POLL {
        Litmus::Poll(l1_begun(arg, freq_hz))
    } else if op == L2_PUBLISH {
        Litmus::Publish(l2_begun(arg, freq_hz))
    } else if op == L3_DEKKER {
        Litmus::Dekker(l3_begun(arg))
    } else {
        Litmus::Unknown
    }
}

impl Litmus {
    /// The counts of the experiment agree.
    pub open spec fn wf(self) -> bool {
        match self {
            Litmus::Poll(l) => l.wf(),
            Litmus::Dekker(l) => l.wf(),
            _ => true,
        }
    }

    /// What the experiment keeps fits in words after an access that gives `v`.
    pub open spec fn fits(self, v: u64) -> bool {
        match self {
            Litmus::Poll(l) => l.fits(v),
            Litmus::Publish(l) => l.fits(v),
            _ => true,
        }
    }

    /// Experiment `op`, with a clock of `freq_hz`.
    pub fn begin(op: u32, arg: u32, freq_hz: u32) -> (r: Litmus)
        ensures
            r.wf(),
            r == litmus_begun(op, arg, freq_hz),
    {
        if op == L1_POLL {
            Litmus::Poll(L1::begin(arg, freq_hz))
        } else if op == L2_PUBLISH {
            Litmus::Publish(L2::begin(arg, freq_hz))
        } else if op == L3_DEKKER {
            Litmus::Dekker(L3::begin(arg))
        } else {
            Litmus::Unknown
        }
    }

    /// The access that is due; `None` at the end.
    pub fn due(&self) -> (r: Option<LitAccess>)
        requires
            self.wf(),
        ensures
            r == litmus_due(*self),
    {
        match self {
            Litmus::Poll(l) => l.due(),
            Litmus::Publish(l) => l.due(),
            Litmus::Dekker(l) => l.due(),
            Litmus::Unknown => None,
        }
    }

    /// Whether [`Litmus::advance`] can take `v` in.
    pub fn can_take(&self, v: u64) -> (r: bool)
        ensures
            r == self.fits(v),
    {
        match self {
            Litmus::Poll(l) => l.can_take(v),
            Litmus::Publish(l) => l.can_take(v),
            _ => true,
        }
    }

    /// Takes in what the access gave.
    pub fn advance(&mut self, v: u64)
        requires
            old(self).wf(),
            old(self).fits(v),
        ensures
            final(self).wf(),
            *final(self) == litmus_moved(*old(self), v),
    {
        *self = match *self {
            Litmus::Poll(l) => {
                let mut l = l;
                l.advance(v);
                Litmus::Poll(l)
            },
            Litmus::Publish(l) => {
                let mut l = l;
                l.advance(v);
                Litmus::Publish(l)
            },
            Litmus::Dekker(l) => {
                let mut l = l;
                l.advance(v);
                Litmus::Dekker(l)
            },
            Litmus::Unknown => Litmus::Unknown,
        };
    }

    /// The violations and the rounds to report.
    pub fn outcome(&self) -> (r: (u64, u64))
        ensures
            r == (match *self {
                Litmus::Poll(l) => (l.viol, l.rounds),
                Litmus::Publish(l) => (0u64, l.rounds),
                Litmus::Dekker(l) => (l.stale, l.rounds),
                Litmus::Unknown => (0u64, 0u64),
            }),
    {
        match self {
            Litmus::Poll(l) => (l.viol, l.rounds),
            Litmus::Publish(l) => (0, l.rounds),
            Litmus::Dekker(l) => (l.stale, l.rounds),
            Litmus::Unknown => (0, 0),
        }
    }
}

/// Says in the counters that an experiment runs.
pub fn litmus_started(stats: &mut Stats)
    requires
        old(stats).probes(),
    ensures
        final(stats).probes(),
        final(stats)@ == old(stats)@.update(LIT_VIOL as int, 0).update(
            LIT_ROUNDS as int,
            0,
        ).update(LIT_STATE as int, 1),
{
    stats.set(LIT_VIOL, 0);
    stats.set(LIT_ROUNDS, 0);
    stats.set(LIT_STATE, 1);
}

/// Puts the outcome of experiment `op` into the counters. The first experiment
/// always ends by running out of time; an unknown one leaves the state idle.
pub fn litmus_finished(stats: &mut Stats, op: u32, viol: u64, rounds: u64)
    requires
        old(stats).probes(),
    ensures
        final(stats).probes(),
        final(stats)@ == (if op == L1_POLL {
            old(stats)@.update(LIT_VIOL as int, viol).update(LIT_ROUNDS as int, rounds).update(
                LIT_STATE as int,
                3,
            )
        } else if op == L2_PUBLISH {
            old(stats)@.update(LIT_ROUNDS as int, rounds).update(LIT_STATE as int, 2)
        } else if op == L3_DEKKER {
            old(stats)@.update(LIT_VIOL as int, viol).update(LIT_ROUNDS as int, rounds).update(
                LIT_STATE as int,
                2,
            )
        } else {
            old(stats)@.update(LIT_STATE as int, 0)
        }),
{
    if op == L1_POLL {
        stats.set(LIT_VIOL, viol);
        stats.set(LIT_ROUNDS, rounds);
        stats.set(LIT_STATE, 3);
    } else if op == L2_PUBLISH {
        stats.set(LIT_ROUNDS, rounds);
        stats.set(LIT_STATE, 2);
    } else if op == L3_DEKKER {
        stats.set(LIT_VIOL, viol);
        stats.set(LIT_ROUNDS, rounds);
        stats.set(LIT_STATE, 2);
    } else {
        stats.set(LIT_STATE, 0);
    }
}

} // verus!
