//! The experiments on the order of memory accesses, and the measurements of single
//! accesses.

use crate::apps::litmus::{
    lit_mix_l1, lit_mix_l2, litmus_finished, litmus_started, L1Stage, L2Stage, L3Stage, LitAccess,
    Litmus, ReadMode, L1, L2, L3,
};
use crate::apps::membench::{
    fresh_deadline, fresh_step, fresh_timeout, postcard_round, Access, Fresh, MemBench, Stage,
};
use crate::apps::stats::Stats;
use vstd::prelude::*;

verus! {

/// The data of a round: for the first experiment the round with every second bit of its
/// halves turned over, for the second the round times 2654435761, modulo 2^64.
pub proof fn law_data_of_a_round(r: u64, a: u64, b: u64)
    requires
        call_ensures(lit_mix_l1, (r,), a),
        call_ensures(lit_mix_l2, (r,), b),
    ensures
        a == r ^ 0xA5A5_5A5A_5A5A_5A5A,
        b == (r * 2654435761) % 0x1_0000_0000_0000_0000,
{
}

/// The first experiment lasts for as many milliseconds as its low half says, 100 where that
/// is 0, and reads plainly, behind a fence, or behind a read of a neighbour.
pub proof fn law_first_experiment_begins(arg: u32, freq: u32, s: L1, due: Option<LitAccess>)
    requires
        call_ensures(L1::begin, (arg, freq), s),
        call_ensures(L1::due, (&s,), due),
    ensures
        due == Some(LitAccess::Clock),
        s.rounds == 0 && s.viol == 0,
        arg / 0x1_0000 % 4 == 1 <==> s.mode == ReadMode::Fenced,
        arg / 0x1_0000 % 4 == 2 <==> s.mode == ReadMode::Neighbour,
        arg / 0x1_0000 % 4 == 0 || arg / 0x1_0000 % 4 == 3 <==> s.mode == ReadMode::Plain,
        arg % 0x1_0000 == 0 ==> 10 * s.ticks <= freq < 10 * (s.ticks + 1),
        arg % 0x1_0000 != 0 ==> 1000 * s.ticks <= (arg % 0x1_0000) * freq < 1000 * (s.ticks + 1),
{
    let p = (arg % 0x1_0000) * freq;
    assert(p >= 0) by (nonlinear_arith)
        requires
            p == (arg % 0x1_0000) * freq,
    ;
    assert(0 <= p <= 65535 * 0xffff_ffff) by (nonlinear_arith)
        requires
            p == (arg % 0x1_0000) * freq,
            (arg % 0x1_0000) <= 65535,
            freq <= 0xffff_ffff,
    ;
    assert((arg as int % 0x1_0000) * freq == p);
}

/// The accesses of the first experiment: the clock, the round at 0, the data at 8, and the
/// round that was seen back at 0x10; a read is made fresh by a fence or by a read of
/// 0x7f8.
pub proof fn law_first_experiment_accesses(s: &L1, due: Option<LitAccess>)
    requires
        call_ensures(L1::due, (s,), due),
    ensures
        s.stage == L1Stage::Start || s.stage == L1Stage::Time ==> due == Some(LitAccess::Clock),
        s.stage == L1Stage::First || s.stage == L1Stage::Round || s.stage == L1Stage::Again
            || s.stage == L1Stage::Latest ==> due == Some(LitAccess::Read(0)),
        s.stage == L1Stage::Data ==> due == Some(LitAccess::Read(8)),
        s.stage == L1Stage::Echo ==> due == Some(LitAccess::Write(0x10, s.round)),
        s.stage == L1Stage::Refresh && s.mode == ReadMode::Fenced ==> due == Some(LitAccess::Fence),
        s.stage == L1Stage::Refresh && s.mode != ReadMode::Fenced ==> due == Some(
            LitAccess::Read(0x7f8),
        ),
        s.stage == L1Stage::Done ==> due is None,
{
}

/// A new round is counted where it was read again after its data, and as a violation where
/// the data is not that of the round; then it is echoed. Where the round moved on meanwhile,
/// nothing is counted and the latest is read.
pub proof fn law_first_experiment_counts(
    a: &mut L1,
    round: u64,
    b: &mut L1,
    data: u64,
    c: &mut L1,
    again: u64,
    mix: u64,
    d: &mut L1,
)
    requires
        old(a).wf(),
        old(a).rounds < u64::MAX,
        old(a).stage == L1Stage::Round,
        round != old(a).last,
        call_ensures(L1::advance, (a, round), ()),
        *old(b) == *final(a),
        call_ensures(L1::advance, (b, data), ()),
        *old(c) == *final(b),
        call_ensures(L1::advance, (c, again), ()),
        call_ensures(lit_mix_l1, (round,), mix),
        *old(d) == *final(c),
        call_ensures(L1::advance, (d, 0u64), ()),
    ensures
        final(a).stage == L1Stage::Data,
        final(b).stage == L1Stage::Again,
        again == round ==> {
            &&& final(c).stage == L1Stage::Echo
            &&& final(c).round == round
            &&& final(c).last == round
            &&& final(c).rounds == old(a).rounds + 1
            &&& data == mix ==> final(c).viol == old(a).viol
            &&& data != mix ==> final(c).viol == old(a).viol + 1
            &&& final(d).stage == L1Stage::Time
        },
        again != round ==> {
            &&& final(c).stage == L1Stage::Latest
            &&& final(c).rounds == old(a).rounds
            &&& final(c).viol == old(a).viol
            &&& final(d).last == 0
        },
{
}

/// The first experiment ends when the time is over, which is `ticks` after its start, and
/// looks again before that; a look at a round that was seen already only looks at the clock.
pub proof fn law_first_experiment_ends(
    a: &mut L1,
    start: u64,
    b: &mut L1,
    now: u64,
    c: &mut L1,
    fits: bool,
)
    requires
        old(a).wf(),
        old(a).stage == L1Stage::Start,
        start + old(a).ticks <= u64::MAX,
        call_ensures(L1::advance, (a, start), ()),
        old(b).wf(),
        old(b).stage == L1Stage::Time,
        call_ensures(L1::advance, (b, now), ()),
        old(c).wf(),
        old(c).stage == L1Stage::Round,
        call_ensures(L1::advance, (c, old(c).last), ()),
        call_ensures(L1::can_take, (old(a), start), fits),
    ensures
        final(a).deadline == start + old(a).ticks,
        final(a).stage == L1Stage::First,
        now >= old(b).deadline <==> final(b).stage == L1Stage::Done,
        now < old(b).deadline && old(b).mode == ReadMode::Plain ==> final(b).stage
            == L1Stage::Round,
        now < old(b).deadline && old(b).mode != ReadMode::Plain ==> final(b).stage
            == L1Stage::Refresh,
        final(c).stage == L1Stage::Time,
        final(c).rounds == old(c).rounds,
        fits,
{
}

/// The second experiment publishes as many rounds as its low half says, one where that is
/// 0, at 2000 a second, with the data first where the bit above says so.
pub proof fn law_second_experiment_begins(arg: u32, freq: u32, s: L2)
    requires
        call_ensures(L2::begin, (arg, freq), s),
    ensures
        s.k == 0,
        s.stage == L2Stage::First,
        arg % 0x1_0000 == 0 ==> s.rounds == 1,
        arg % 0x1_0000 != 0 ==> s.rounds == arg % 0x1_0000,
        s.proper <==> arg / 0x1_0000 % 2 == 1,
        2000 * s.pace <= freq < 2000 * (s.pace + 1),
{
}

/// A round of the second experiment: its number is written at 0x20 and its data at 0x28, the
/// data before the number where the order is proper; then the doorbell rings, and the next
/// round follows after the pace.
pub proof fn law_second_experiment_rounds(
    s: &mut L2,
    mix: u64,
    due: Option<LitAccess>,
    v: u64,
    w: ((usize, u64), (usize, u64)),
    fits: bool,
)
    requires
        old(s).stage == L2Stage::Mark ==> v + old(s).pace <= u64::MAX,
        call_ensures(lit_mix_l2, (old(s).k,), mix),
        call_ensures(L2::due, (old(s),), due),
        call_ensures(L2::writes, (old(s), old(s).k), w),
        call_ensures(L2::can_take, (old(s), v), fits),
        call_ensures(L2::advance, (s, v), ()),
    ensures
        fits,
        old(s).proper ==> w == ((0x28usize, mix), (0x20usize, old(s).k)),
        !old(s).proper ==> w == ((0x20usize, old(s).k), (0x28usize, mix)),
        old(s).k >= old(s).rounds ==> due is None && *final(s) == *old(s),
        old(s).k < old(s).rounds ==> {
            &&& old(s).stage == L2Stage::First ==> due == Some(LitAccess::Write(w.0.0, w.0.1))
                && final(s).stage == L2Stage::Second
            &&& old(s).stage == L2Stage::Second ==> due == Some(LitAccess::Write(w.1.0, w.1.1))
                && final(s).stage == L2Stage::Bell
            &&& old(s).stage == L2Stage::Bell ==> due == Some(LitAccess::Bell) && final(s).stage
                == L2Stage::Mark
            &&& old(s).stage == L2Stage::Mark ==> due == Some(LitAccess::Clock) && final(s).stage
                == L2Stage::Pause && final(s).until == v + old(s).pace
            &&& old(s).stage == L2Stage::Pause ==> due == Some(LitAccess::Clock)
            &&& old(s).stage == L2Stage::Pause && v < old(s).until ==> *final(s) == *old(s)
            &&& old(s).stage == L2Stage::Pause && v >= old(s).until ==> final(s).k == old(s).k + 1
                && final(s).stage == L2Stage::First
            &&& old(s).stage != L2Stage::Pause ==> final(s).k == old(s).k
        },
{
}

/// The third experiment writes the number of each round at 0x38 and reads the other core's
/// flag at 0x30, and counts the rounds in which that did not move; it runs as many rounds
/// as it is told, 1000 where it is told none, and at most 100000.
pub proof fn law_third_experiment(
    arg: u32,
    first: L3,
    s: &mut L3,
    v: u64,
    due: Option<LitAccess>,
)
    requires
        call_ensures(L3::begin, (arg,), first),
        old(s).wf(),
        call_ensures(L3::due, (old(s),), due),
        call_ensures(L3::advance, (s, v), ()),
    ensures
        arg == 0 ==> first.rounds == 1000,
        1 <= arg <= 100_000 ==> first.rounds == arg,
        arg > 100_000 ==> first.rounds == 100_000,
        first.done == 0 && first.stale == 0 && first.stage == L3Stage::First,
        old(s).stage == L3Stage::First ==> due == Some(LitAccess::Read(0x30)) && final(s).last == v
            && final(s).stage == L3Stage::Write && final(s).stale == old(s).stale,
        old(s).stage == L3Stage::Write && old(s).done < old(s).rounds ==> due == Some(
            LitAccess::Write(0x38, (old(s).done + 1) as u64),
        ) && final(s).stage == L3Stage::Read,
        old(s).stage == L3Stage::Write && old(s).done >= old(s).rounds ==> due is None && *final(s)
            == *old(s),
        old(s).stage == L3Stage::Read ==> due == Some(LitAccess::Read(0x30)) && final(s).last == v
            && final(s).done == old(s).done + 1 && final(s).stage == L3Stage::Write && (v == old(
            s,
        ).last ==> final(s).stale == old(s).stale + 1) && (v != old(s).last ==> final(s).stale
            == old(s).stale),
{
}

/// Experiments 0, 1 and 2 are the first, the second and the third; another number does
/// nothing.
pub proof fn law_experiments_by_number(
    op: u32,
    arg: u32,
    freq: u32,
    r: Litmus,
    a: L1,
    b: L2,
    c: L3,
    x: &Litmus,
    due: Option<LitAccess>,
    out: (u64, u64),
)
    requires
        call_ensures(Litmus::begin, (op, arg, freq), r),
        call_ensures(L1::begin, (arg, freq), a),
        call_ensures(L2::begin, (arg, freq), b),
        call_ensures(L3::begin, (arg,), c),
        x.wf(),
        call_ensures(Litmus::due, (x,), due),
        call_ensures(Litmus::outcome, (x,), out),
    ensures
        op == 0 ==> r == Litmus::Poll(a),
        op == 1 ==> r == Litmus::Publish(b),
        op == 2 ==> r == Litmus::Dekker(c),
        op > 2 ==> r == Litmus::Unknown,
        *x matches Litmus::Poll(l) ==> out == (l.viol, l.rounds),
        *x matches Litmus::Publish(l) ==> out == (0u64, l.rounds),
        *x matches Litmus::Dekker(l) ==> out == (l.stale, l.rounds),
        *x == Litmus::Unknown ==> out == (0u64, 0u64) && due is None,
{
}

/// An experiment is carried on as what it is.
pub proof fn law_experiments_go_on(
    x: &mut Litmus,
    v: u64,
    due: Option<LitAccess>,
    a: &mut L1,
    da: Option<LitAccess>,
    b: &mut L2,
    db: Option<LitAccess>,
    c: &mut L3,
    dc: Option<LitAccess>,
)
    requires
        old(x).wf(),
        old(x).fits(v),
        call_ensures(Litmus::due, (old(x),), due),
        call_ensures(Litmus::advance, (x, v), ()),
        old(a).wf() && old(a).fits(v) && old(b).fits(v) && old(c).wf(),
        call_ensures(L1::due, (old(a),), da),
        call_ensures(L1::advance, (a, v), ()),
        call_ensures(L2::due, (old(b),), db),
        call_ensures(L2::advance, (b, v), ()),
        call_ensures(L3::due, (old(c),), dc),
        call_ensures(L3::advance, (c, v), ()),
    ensures
        *old(x) == Litmus::Poll(*old(a)) ==> *final(x) == Litmus::Poll(*final(a)) && due == da,
        *old(x) == Litmus::Publish(*old(b)) ==> *final(x) == Litmus::Publish(*final(b)) && due
            == db,
        *old(x) == Litmus::Dekker(*old(c)) ==> *final(x) == Litmus::Dekker(*final(c)) && due == dc,
        *old(x) == Litmus::Unknown ==> *final(x) == Litmus::Unknown,
{
}

/// The counters of an experiment: violations (17), rounds (18) and state (19), which is 1
/// while it runs, 3 where it ended with its time, 2 where it ended by itself, and 0 where
/// there was none.
pub proof fn law_experiment_is_shown(
    s: &mut Stats,
    t: &mut Stats,
    op: u32,
    viol: u64,
    rounds: u64,
)
    requires
        old(s).probes(),
        old(t).probes(),
        call_ensures(litmus_started, (s,), ()),
        call_ensures(litmus_finished, (t, op, viol, rounds), ()),
    ensures
        final(s)@[17] == 0,
        final(s)@[18] == 0,
        final(s)@[19] == 1,
        op == 0 ==> final(t)@[17] == viol && final(t)@[18] == rounds && final(t)@[19] == 3,
        op == 1 ==> final(t)@[17] == old(t)@[17] && final(t)@[18] == rounds && final(t)@[19] == 2,
        op == 2 ==> final(t)@[17] == viol && final(t)@[18] == rounds && final(t)@[19] == 2,
        op > 2 ==> final(t)@[17] == old(t)@[17] && final(t)@[18] == old(t)@[18] && final(t)@[19]
            == 0,
        forall|i: int|
            0 <= i < 24 && !(17 <= i <= 19) ==> final(s)@[i] == old(s)@[i] && #[trigger] final(t)@[i]
                == old(t)@[i],
{
    broadcast use Stats::lemma_len;

    assert(old(s)@.len() == 24 && old(t)@.len() == 24);
}

/// How often measurement `op` repeats its round; `n` times where it is told so.
pub open spec fn repeats(op: u32, arg: u32, n: int) -> bool {
    let told = |default: int|
        if arg == 0 {
            default
        } else {
            arg as int
        };
    &&& op == 1 || op == 2 || op == 5 || op == 15 || op == 18 || 22 <= op <= 24 || op == 27 || op
        == 28 || op == 30 ==> n == told(200)
    &&& op == 0 || op == 3 || op == 4 || op == 6 || 8 <= op <= 14 || op == 17 || op == 20 ==> n
        == told(2000)
    &&& op == 19 ==> n == told(1000)
    &&& op == 21 ==> n == told(64)
    &&& op == 26 ==> n == told(100)
    &&& op == 25 ==> n == 200
    &&& op == 16 ==> n == (if arg % 4 == 0 {
        1000int
    } else {
        0int
    })
    &&& op == 29 || op > 30 ==> n == 0
}

/// How many accesses measurement `op` makes in a round.
pub open spec fn makes(op: u32, w: int) -> bool {
    &&& op == 2 ==> w == 32
    &&& op == 22 || op == 23 ==> w == 5
    &&& op == 21 || op == 27 ==> w == 2
    &&& op != 2 && op != 21 && op != 22 && op != 23 && op != 27 ==> w == 1
}

/// A measurement makes the accesses of its rounds one after the other and is over after the
/// last; what takes messages along prepares them first, and what leaves one behind takes it
/// back last.
pub proof fn law_measurement_runs(
    op: u32,
    arg: u32,
    first: MemBench,
    b: &mut MemBench,
    v: u64,
    n: int,
    w: int,
)
    requires
        op != 7,
        repeats(op, arg, n),
        makes(op, w),
        call_ensures(MemBench::begin, (op, arg), first),
        old(b).wf(),
        old(b).op == op,
        old(b).arg == arg,
        call_ensures(MemBench::feed, (b, v), ()),
    ensures
        first.op == op && first.arg == arg && first.ck == 0,
        op == 22 || op == 23 || op == 28 ==> first.stage == Stage::Prepare(0),
        op != 22 && op != 23 && op != 28 && n > 0 ==> first.stage == Stage::Round(0, 0),
        n == 0 ==> first.stage == Stage::Finished,
        old(b).stage matches Stage::Prepare(k) ==> final(b).stage == (if k == 0 && op != 28 {
            Stage::Prepare(1)
        } else {
            Stage::Round(0, 0)
        }),
        old(b).stage matches Stage::Round(i, j) ==> {
            &&& j + 1 < w ==> final(b).stage == Stage::Round(i, (j + 1) as u64)
            &&& j + 1 >= w && i + 1 < n ==> final(b).stage == Stage::Round((i + 1) as u64, 0)
            &&& j + 1 >= w && i + 1 >= n && op == 28 ==> final(b).stage == Stage::Close
            &&& j + 1 >= w && i + 1 >= n && op != 28 ==> final(b).stage == Stage::Finished
        },
        old(b).stage == Stage::Close ==> final(b).stage == Stage::Finished,
        old(b).stage == Stage::Finished ==> final(b).stage == Stage::Finished,
{
}

/// The measurement at a stride reads from the start on at that distance (64 bytes where it
/// is told none, and at least 8), as long as a word lies within the first 2048 bytes.
pub proof fn law_stride(arg: u32, first: MemBench, b: &MemBench, a: Option<Access>, i: u64)
    requires
        call_ensures(MemBench::begin, (7u32, arg), first),
        b.wf(),
        b.op == 7,
        b.arg == arg,
        b.stage == Stage::Round(i, 0),
        call_ensures(MemBench::next, (b,), a),
    ensures
        first.stage == Stage::Round(0, 0),
        a is Some,
        a->0 is ReadShm,
        ({
            let d = if arg == 0 {
                64int
            } else if arg < 8 {
                8int
            } else {
                arg as int
            };
            a->0->ReadShm_0 == i * d && i * d + 8 <= 2048
        }),
{
    let d = crate::apps::membench::stride(arg);
    assert(i * d <= 2040) by (nonlinear_arith)
        requires
            d >= 8,
            i < 2040u64 / d + 1,
    ;
    assert(i * d >= 0) by (nonlinear_arith);
}

/// Access `j` of round `i`, by the number of the measurement.
pub proof fn law_accesses_of_a_round(b: &MemBench, a: Option<Access>, i: u64, j: u64)
    requires
        b.wf(),
        b.stage == Stage::Round(i, j),
        call_ensures(MemBench::next, (b,), a),
    ensures
        a is Some,
        b.op == 0 ==> a->0 == Access::ReadShm(0),
        b.op == 1 ==> a->0 == Access::BlockShm,
        b.op == 2 ==> a->0 == Access::ReadShm((8 * j) as u64) && j < 32,
        b.op == 3 ==> a->0 == Access::WriteShm(i),
        b.op == 4 ==> a->0 == Access::ReadLocal,
        b.op == 5 ==> a->0 == Access::BlockLocal,
        b.op == 6 ==> a->0 == Access::WriteLocal(i),
        b.op == 8 ==> a->0 == Access::MsgCount,
        b.op == 9 ==> a->0 == Access::IrqEnabled,
        b.op == 10 ==> a->0 == Access::FifoEmpty,
        b.op == 11 ==> a->0 == Access::Mtime,
        b.op == 12 ==> a->0 == Access::LoadAcquire(0),
        b.op == 13 ==> a->0 == Access::StoreRelease(0, i),
        b.op == 14 ==> a->0 == Access::Fence,
        b.op == 15 ==> a->0 == Access::Waiting,
        b.op == 16 ==> a->0 == Access::Peek(b.arg),
        b.op == 17 ==> a->0 == Access::LoadAcquireLocal,
        b.op == 18 ==> a->0 == Access::TryRecv(0),
        b.op == 19 ==> a->0 == Access::PlatformTime,
        b.op == 20 || (b.op == 21 && j == 0) ==> a->0 == Access::LoadAcquire(
            (64 + 64 * (i % 16)) as u64,
        ),
        b.op == 21 && j == 1 ==> a->0 == Access::Mtime,
        (b.op == 22 || b.op == 23) && j == 0 ==> a->0 == Access::LoadAcquire16(0x480),
        b.op == 22 && j == 1 || b.op == 23 && j == 2 ==> a->0 == Access::LoadAcquire(0x4C0),
        b.op == 22 && j == 2 || b.op == 23 && j == 1 ==> a->0 == Access::LoadAcquire(0x4C8),
        b.op == 22 && j == 3 ==> a->0 == Access::BlockByte(0x500),
        b.op == 23 && j == 3 ==> a->0 == Access::FillBlock(0x500, (b.ck % 256) as u8),
        b.op == 22 && j == 4 ==> a->0 == Access::StoreRelease(
            0x4C0,
            ((b.kept + 1) % 128) as u64,
        ),
        b.op == 23 && j == 4 ==> a->0 == Access::StoreRelease(
            0x4C8,
            ((b.kept + 1) % 128) as u64,
        ),
        b.op == 24 ==> a->0 == Access::Postcard(i),
        b.op == 25 ==> a->0 == Access::TryRecv((b.arg % 3) as u8),
        b.op == 26 ==> a->0 == Access::Notify,
        b.op == 27 && j == 0 ==> a->0 == Access::TrySend(0, 0x50),
        b.op == 27 && j == 1 ==> a->0 == Access::TryRecv(0),
        b.op == 28 ==> a->0 == Access::PeekMsg(0),
        b.op == 30 ==> a->0 == Access::Dispatch,
{
}

/// What is prepared and what closes a measurement.
pub proof fn law_accesses_around_the_rounds(b: &MemBench, a: Option<Access>)
    requires
        b.wf(),
        call_ensures(MemBench::next, (b,), a),
    ensures
        b.stage == Stage::Prepare(0) && b.op == 28 ==> a == Some(Access::TrySend(0, 0x51)),
        b.stage == Stage::Prepare(0) && b.op != 28 ==> a == Some(Access::StoreRelease(0x4C0, 0)),
        b.stage == Stage::Prepare(1) ==> a == Some(Access::StoreRelease(0x4C8, 1)),
        b.stage == Stage::Close ==> a == Some(Access::TryRecv(0)),
        b.stage == Stage::Finished ==> a is None,
{
}

/// The checksum: what was read is added to it, modulo 2^64. Writes, fences and doorbells
/// add nothing, a message that could not be sent or taken back adds one, a request that was
/// not answered adds the number of its round, and a register that is read repeatedly is
/// kept as it was read last.
pub proof fn law_checksum_grows(b: &mut MemBench, v: u64, i: u64, j: u64)
    requires
        old(b).wf(),
        old(b).op <= 30,
        old(b).op != 29,
        old(b).stage == Stage::Round(i, j),
        call_ensures(MemBench::feed, (b, v), ()),
    ensures
        ({
            let op = old(b).op;
            let grows = |x: int| final(b).ck == (old(b).ck + x) % 0x1_0000_0000_0000_0000;
            &&& op == 3 || op == 6 || op == 13 || op == 14 || op == 26 ==> grows(0)
            &&& op == 16 ==> final(b).ck == v
            &&& op == 22 ==> grows(
                if j == 0 || j == 3 {
                    v as int
                } else {
                    0int
                },
            )
            &&& op == 23 ==> grows(
                if j == 0 {
                    v as int
                } else {
                    0int
                },
            )
            &&& op == 27 ==> grows(
                if v == 0 {
                    1int
                } else {
                    0int
                },
            )
            &&& op == 30 ==> grows(
                if v == 0 {
                    i as int
                } else {
                    0int
                },
            )
            &&& op != 3 && op != 6 && op != 13 && op != 14 && op != 16 && op != 22 && op != 23 && op
                != 26 && op != 27 && op != 30 ==> grows(v as int)
            &&& j == 1 ==> final(b).kept == v
            &&& j != 1 ==> final(b).kept == old(b).kept
        }),
{
}

/// The result of a measurement: its time in nanoseconds, of 24 ticks a microsecond, and its
/// checksum. Where values are not added up, the number of rounds is; one without rounds gives
/// zeros.
pub proof fn law_measurement_ends_with(
    b: &MemBench,
    t0: u64,
    t1: u64,
    r: (u64, u64),
    n: int,
)
    requires
        b.op != 7,
        b.stage == Stage::Finished,
        t0 <= t1,
        (t1 - t0) * 1_000_000_000 <= u64::MAX,
        repeats(b.op, b.arg, n),
        call_ensures(MemBench::finish, (b, t0, t1), r),
    ensures
        n == 0 ==> r == (0u64, 0u64),
        n > 0 ==> 24 * r.0 <= 1000 * (t1 - t0) < 24 * (r.0 + 1),
        n > 0 ==> r.1 == (b.ck + (if b.op == 3 || b.op == 6 || b.op == 13 || b.op == 15 || b.op
            == 26 {
            n
        } else if b.op == 30 {
            1int
        } else {
            0int
        })) % 0x1_0000_0000_0000_0000,
{
    let ns = crate::apps::intercom::ns_of((t1 - t0) as nat);
    assert(ns * 24 <= (t1 - t0) * 1000);
    assert(ns <= u64::MAX);
}

/// Building and reading a request of method 3 gives its two numbers back.
pub proof fn law_request_is_built_and_read(k: u64, r: u64)
    requires
        call_ensures(postcard_round, (k,), r),
    ensures
        r == (k + 3) % 0x1_0000_0000_0000_0000,
{
}

/// A message that is about to be sent is waited for: as many milliseconds as it is told, 200
/// where it is told none, and at most 1000. An attempt that took it is timed; another is
/// made as long as the time is not over.
pub proof fn law_fresh_message(
    now: u64,
    arg: u32,
    freq: u32,
    d: u64,
    got: bool,
    t0: u64,
    t1: u64,
    t: u64,
    end: u64,
    r: Fresh,
)
    requires
        now + 1000 * freq <= u64::MAX,
        call_ensures(fresh_deadline, (now, arg, freq), d),
        t0 <= t1,
        (t1 - t0) * 1_000_000_000 <= u64::MAX,
        call_ensures(fresh_step, (got, t0, t1, t, end), r),
    ensures
        arg == 0 ==> 5 * (d - now) <= freq < 5 * (d - now + 1),
        1 <= arg <= 1000 ==> 1000 * (d - now) <= arg * freq < 1000 * (d - now + 1),
        arg > 1000 ==> d == now + freq,
        got <==> r is Hit,
        r matches Fresh::Hit(ns) ==> 24 * ns <= 1000 * (t1 - t0) < 24 * (ns + 1),
        !got && t > end ==> r == Fresh::TimedOut,
        !got && t <= end ==> r == Fresh::Again,
{
    let p = arg as int * freq;
    assert(p == arg * freq);
    assert(p >= 0) by (nonlinear_arith)
        requires
            p == arg * freq,
    ;
    let ns = crate::apps::intercom::ns_of((t1 - t0) as nat);
    assert(ns * 24 <= (t1 - t0) * 1000);
    assert(ns <= u64::MAX);
}

/// Giving up tells both positions of the ring, where they fit in half a word each: the one
/// that is written in the upper half, the one that is read in the lower.
pub proof fn law_positions_are_told(read: u64, write: u64, r: (u64, u64))
    requires
        read <= u32::MAX,
        write <= u32::MAX,
        call_ensures(fresh_timeout, (read, write), r),
    ensures
        r.0 == 0,
        r.1 == 0x1_0000_0000 * write + read,
{
    crate::apps::membench::law_packed(write, read);
}

} // verus!
