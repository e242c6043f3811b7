//! The chassis of the robot, as its service and its task see it.

use crate::apps::robot::{
    be_bytes, build_frame, config_frame, encoder_query, frame_bytes, init_step, now_ms,
    parse_frame, rpm_query, start_frame, xor, Admission, Chassis, Frame, InitRequest, InitStep,
    Receiving, Wanted,
};
use crate::shm::SharedMemory;
use vstd::prelude::*;

verus! {

/// What a snapshot of the chassis holds: the number that was asked with, whether
/// the chassis is started, the speeds of the left and the right wheel, the two
/// encoders, the missed answers, and the time of the last full round.
pub type Snapshot = (u32, u32, i32, i32, i32, i32, u32, u64);

/// All bytes of `b` combined by exclusive or.
pub open spec fn folded(b: Seq<u8>) -> u8
    decreases b.len(),
{
    if b.len() == 0 {
        0
    } else {
        folded(b.drop_last()) ^ b.last()
    }
}

proof fn lemma_folded(b: Seq<u8>)
    ensures
        xor(b) == folded(b),
    decreases b.len(),
{
    if b.len() > 0 {
        lemma_folded(b.drop_last());
    }
}

/// The bytes `b` are one frame with a command and a payload: the marks 0xAA and
/// 0x55, the command, the length, the payload, and the exclusive or of all but
/// the marks.
pub open spec fn carries(b: Seq<u8>, cmd: u8, payload: Seq<u8>) -> bool {
    &&& b.len() == payload.len() + 5
    &&& b[0] == 0xAA
    &&& b[1] == 0x55
    &&& b[2] == cmd
    &&& b[3] == payload.len()
    &&& forall|i: int| 0 <= i < payload.len() ==> b[i + 4] == #[trigger] payload[i]
    &&& b.last() == folded(b.subrange(2, b.len() - 1))
}

proof fn lemma_carries(cmd: u8, payload: Seq<u8>)
    requires
        payload.len() <= 255,
    ensures
        carries(frame_bytes(cmd, payload), cmd, payload),
{
    let covered = seq![cmd, payload.len() as u8] + payload;
    let b = frame_bytes(cmd, payload);
    lemma_folded(covered);
    assert(b.subrange(2, b.len() - 1) =~= covered);
}

/// A frame that is built carries its command and its payload.
pub proof fn law_frame_carries(cmd: u8, payload: &[u8], r: Vec<u8>)
    requires
        payload@.len() <= 255,
        call_ensures(build_frame, (cmd, payload), r),
    ensures
        carries(r@, cmd, payload@),
{
    lemma_carries(cmd, payload@);
}

/// A frame of at most twelve bytes that was built is taken out of the bytes that
/// came in, also behind bytes that hold no first mark, and what came after it
/// stays.
pub proof fn law_built_frame_is_parsed(
    cmd: u8,
    payload: &[u8],
    sent: Vec<u8>,
    noise: Seq<u8>,
    rest: Seq<u8>,
    buf: &mut Vec<u8>,
    r: Option<Frame>,
)
    requires
        payload@.len() <= 12,
        call_ensures(build_frame, (cmd, payload), sent),
        forall|i: int| 0 <= i < noise.len() ==> (#[trigger] noise[i]) != 0xAA,
        old(buf)@ == noise + sent@ + rest,
        call_ensures(parse_frame, (buf,), r),
    ensures
        r is Some,
        r->0.cmd == cmd,
        r->0.payload@ == payload@,
        final(buf)@ == rest,
{
    crate::apps::robot::law_noise_is_skipped(noise, cmd, payload@, rest);
}

/// A frame that is taken out of the bytes was among them, check byte and all, and
/// what follows it is what stays.
pub proof fn law_parsed_frame_was_there(buf: &mut Vec<u8>, r: Option<Frame>)
    requires
        call_ensures(parse_frame, (buf,), r),
    ensures
        r is Some ==> r->0.payload@.len() <= 12 && final(buf)@.len() + 5 + r->0.payload@.len()
            <= old(buf)@.len(),
        r is Some ==> ({
            let n = r->0.payload@.len();
            let at = old(buf)@.len() - final(buf)@.len() - 5 - n;
            &&& carries(old(buf)@.subrange(at, at + 5 + n), r->0.cmd, r->0.payload@)
            &&& final(buf)@ == old(buf)@.skip(at + 5 + n)
        }),
        r is None ==> final(buf)@.len() <= old(buf)@.len() && final(buf)@ == old(buf)@.skip(
            old(buf)@.len() - final(buf)@.len(),
        ),
        r is None ==> final(buf)@.len() < 17,
{
    lemma_found(old(buf)@);
}

proof fn lemma_found(b: Seq<u8>)
    ensures
        ({
            let (found, rest) = crate::apps::robot::find_frame(b);
            &&& rest.len() <= b.len()
            &&& rest == b.skip(b.len() - rest.len())
            &&& match found {
                Some((cmd, p)) => {
                    let at = b.len() - rest.len() - 5 - p.len();
                    &&& p.len() <= 12
                    &&& 0 <= at
                    &&& carries(b.subrange(at, at + 5 + p.len()), cmd, p)
                },
                None => rest.len() < 17,
            }
        }),
    decreases b.len(),
{
    let (found, rest) = crate::apps::robot::find_frame(b);
    let h1 = b.len() >= 1 && !(b[0] == 0xAA && (b.len() < 2 || b[1] == 0x55));
    if h1 || (b.len() >= 5 && b[3] > 12) || (b.len() >= 5 && b[3] <= 12 && b.len() >= 5 + b[3]
        && xor(b.subrange(2, 4 + b[3])) != b[4 + b[3]]) {
        let t = b.skip(1);
        lemma_found(t);
        assert(rest == t.skip(t.len() - rest.len()));
        assert(t.skip(t.len() - rest.len()) =~= b.skip(b.len() - rest.len()));
        if found is Some {
            let p = (found->0).1;
            let at = b.len() - rest.len() - 5 - p.len();
            assert(t.subrange(at - 1, at - 1 + 5 + p.len()) =~= b.subrange(at, at + 5 + p.len()));
        }
    } else if b.len() < 5 || b.len() < 5 + b[3] {
        assert(b.skip(0) =~= b);
    } else {
        let n = b[3] as int;
        let f = b.subrange(0, 5 + n);
        let p = b.subrange(4, 4 + n);
        assert(b.skip(5 + n).len() == b.len() - 5 - n);
        lemma_folded(b.subrange(2, 4 + n));
        assert(f.subrange(2, f.len() - 1) =~= b.subrange(2, 4 + n));
        assert(f.last() == b[4 + n]);
        assert forall|i: int| 0 <= i < p.len() implies f[i + 4] == #[trigger] p[i] by {}
        assert(carries(f, b[2], p));
    }
}

/// The frames of the task: the start has the command 1 and no payload, the
/// question for the encoders 0x22 and no payload, the question for the speeds
/// 0x20 and the payload 2.
pub proof fn law_fixed_frames(start: Vec<u8>, encoders: Vec<u8>, speeds: Vec<u8>)
    requires
        call_ensures(start_frame, (), start),
        call_ensures(encoder_query, (), encoders),
        call_ensures(rpm_query, (), speeds),
    ensures
        carries(start@, 0x01, seq![]),
        carries(encoders@, 0x22, seq![]),
        carries(speeds@, 0x20, seq![2u8]),
{
    lemma_carries(0x01, seq![]);
    lemma_carries(0x22, seq![]);
    lemma_carries(0x20, seq![2u8]);
}

/// The configuration has the command 2; its payload is the pulses per turn and
/// then the drive frequency, each with the high byte first.
pub proof fn law_configuration_frame(ppr: u16, pwm: u16, r: Vec<u8>)
    requires
        call_ensures(config_frame, (ppr, pwm), r),
    ensures
        r@.len() == 9,
        256 * r@[4] + r@[5] == ppr,
        256 * r@[6] + r@[7] == pwm,
        carries(r@, 0x02, r@.subrange(4, 8)),
{
    let p = seq![(ppr / 256) as u8, (ppr % 256) as u8, (pwm / 256) as u8, (pwm % 256) as u8];
    lemma_carries(0x02, p);
    let b = frame_bytes(0x02, p);
    assert(b[4] == p[0] && b[5] == p[1] && b[6] == p[2] && b[7] == p[3]);
    assert(b.subrange(4, 8) =~= p);
}

/// A start is carried out by two commands, and succeeds where both are
/// acknowledged with 0x80.
pub proof fn law_start_needs_both_answers(
    first: Option<u8>,
    second: Option<u8>,
    a: InitStep,
    b: InitStep,
)
    requires
        call_ensures(init_step, (InitStep::Start, first), a),
        call_ensures(init_step, (a, second), b),
    ensures
        a == InitStep::Configure <==> first == Some(0x80u8),
        first != Some(0x80u8) ==> a == InitStep::Done(false),
        b is Done,
        b == InitStep::Done(true) <==> first == Some(0x80u8) && second == Some(0x80u8),
{
}

/// The two bytes of a number between -0x8000 and 0x7fff, high byte first, are
/// those of the number modulo 2^16.
pub proof fn law_two_bytes(v: int)
    requires
        -0x8000 <= v < 0x8000,
    ensures
        be_bytes(v).len() == 2,
        256 * be_bytes(v)[0] + be_bytes(v)[1] == v % 0x1_0000,
{
}

/// A snapshot of a chassis that is as it began: nothing is known.
pub proof fn law_nothing_is_known_at_first(c: Chassis, nonce: u32, r: Snapshot)
    requires
        call_ensures(Chassis::new, (), c),
        call_ensures(Chassis::chassis_get, (&c, nonce), r),
    ensures
        r == (nonce, 0u32, 0i32, 0i32, 0i32, 0i32, 0u32, 0u64),
{
}

/// An answer about the speed of a wheel is what the next snapshot shows: wheel 0 is
/// the right one, wheel 1 the left one, and the other wheel keeps its speed. All
/// else that a snapshot shows stays.
pub proof fn law_speed_of_a_wheel(
    c: &mut Chassis,
    reply: &Option<Frame>,
    owed: bool,
    v: int,
    n: u32,
    before: Snapshot,
    after: Snapshot,
)
    requires
        -0x8000 <= v < 0x8000,
        *reply is Some,
        (*reply)->0.cmd == 0x90,
        (*reply)->0.payload@.len() >= 3,
        256 * (*reply)->0.payload@[1] + (*reply)->0.payload@[2] == v % 0x1_0000,
        call_ensures(Chassis::chassis_get, (old(c), n), before),
        call_ensures(Chassis::rpm_reply, (c, reply, owed), ()),
        call_ensures(Chassis::chassis_get, (final(c), n), after),
    ensures
        (*reply)->0.payload@[0] == 0 ==> after.3 == v && after.2 == before.2,
        (*reply)->0.payload@[0] == 1 ==> after.2 == v && after.3 == before.3,
        (*reply)->0.payload@[0] > 1 ==> after.2 == before.2 && after.3 == before.3,
        after.0 == n,
        after.1 == before.1,
        after.4 == before.4,
        after.5 == before.5,
        after.6 == before.6,
        after.7 == before.7,
        final(c).inited == old(c).inited,
{
}

/// An answer about wheel 0 with the two bytes of `v` makes `v` the speed of the right
/// wheel, one about wheel 1 the speed of the left wheel.
pub proof fn law_speed_bytes_are_read(
    c: &mut Chassis,
    reply: &Option<Frame>,
    owed: bool,
    wheel: u8,
    v: int,
    n: u32,
    before: Snapshot,
    after: Snapshot,
)
    requires
        -0x8000 <= v < 0x8000,
        wheel <= 1,
        *reply is Some,
        (*reply)->0.cmd == 0x90,
        (*reply)->0.payload@ == seq![wheel] + be_bytes(v),
        call_ensures(Chassis::chassis_get, (old(c), n), before),
        call_ensures(Chassis::rpm_reply, (c, reply, owed), ()),
        call_ensures(Chassis::chassis_get, (final(c), n), after),
    ensures
        wheel == 0 ==> after.3 == v && after.2 == before.2,
        wheel == 1 ==> after.2 == v && after.3 == before.3,
{
    let p = seq![wheel] + be_bytes(v);
    assert(p[0] == wheel && p[1] == be_bytes(v)[0] && p[2] == be_bytes(v)[1]);
}

/// The frame `f` tells the speed `v` of wheel `wheel`.
pub open spec fn tells_speed(f: Option<Frame>, wheel: u8, v: int) -> bool {
    &&& f is Some
    &&& f->0.cmd == 0x90
    &&& f->0.payload@ == seq![wheel] + be_bytes(v)
}

/// A round of telemetry with one answer of each wheel, in either order, leaves
/// exactly those two speeds.
pub proof fn law_round_shows_both_speeds(
    c: &mut Chassis,
    encoder: &Option<Frame>,
    first: &Option<Frame>,
    second: &Option<Frame>,
    now: u64,
    left: int,
    right: int,
    n: u32,
    after: Snapshot,
)
    requires
        -0x8000 <= left < 0x8000,
        -0x8000 <= right < 0x8000,
        (tells_speed(*first, 0, right) && tells_speed(*second, 1, left)) || (tells_speed(
            *first,
            1,
            left,
        ) && tells_speed(*second, 0, right)),
        call_ensures(Chassis::telemetry, (c, encoder, first, second, now), ()),
        call_ensures(Chassis::chassis_get, (final(c), n), after),
    ensures
        after.2 == left,
        after.3 == right,
        after.6 == (if *encoder is Some {
            old(c).err as int
        } else {
            (old(c).err + 1) % 0x1_0000_0000
        }),
        after.7 == (if *encoder is Some {
            now
        } else {
            old(c).last_ms
        }),
{
    let pl = seq![1u8] + be_bytes(left);
    let pr = seq![0u8] + be_bytes(right);
    assert(pl[0] == 1 && pl[1] == be_bytes(left)[0] && pl[2] == be_bytes(left)[1]);
    assert(pr[0] == 0 && pr[1] == be_bytes(right)[0] && pr[2] == be_bytes(right)[1]);
}

/// The number of the four bytes of `p` from `at` on, high byte first.
pub open spec fn four(p: Seq<u8>, at: int) -> int {
    0x100_0000 * p[at] + 0x1_0000 * p[at + 1] + 0x100 * p[at + 2] + p[at + 3]
}

/// An answer about the encoders is what the next snapshot shows: the first four
/// bytes are the first encoder, the next four the second. A missing answer is
/// counted and leaves them as they were, and the speeds stay in any case.
pub proof fn law_encoders_are_shown(
    c: &mut Chassis,
    reply: &Option<Frame>,
    n: u32,
    before: Snapshot,
    after: Snapshot,
)
    requires
        call_ensures(Chassis::chassis_get, (old(c), n), before),
        call_ensures(Chassis::encoder_reply, (c, reply), ()),
        call_ensures(Chassis::chassis_get, (final(c), n), after),
    ensures
        *reply is Some && (*reply)->0.payload@.len() >= 8 ==> after.4 as int % 0x1_0000_0000 == four(
            (*reply)->0.payload@,
            0,
        ) && after.5 as int % 0x1_0000_0000 == four((*reply)->0.payload@, 4) && after.6 == before.6,
        *reply is Some && (*reply)->0.payload@.len() < 8 ==> after == before,
        *reply is None ==> after.4 == before.4 && after.5 == before.5 && after.6 == (before.6 + 1)
            % 0x1_0000_0000,
        after.1 == before.1,
        after.2 == before.2,
        after.3 == before.3,
        after.7 == before.7,
{
    if *reply is Some && (*reply)->0.payload@.len() >= 8 {
        let p = (*reply)->0.payload@;
        let a = p.subrange(0, 4);
        let b = p.subrange(4, 8);
        assert(a[0] == p[0] && a[1] == p[1] && a[2] == p[2] && a[3] == p[3]);
        assert(b[0] == p[4] && b[1] == p[5] && b[2] == p[6] && b[3] == p[7]);
    }
}

/// The answer to the question for the speeds is owed: where none comes, or one that
/// tells no speed, that is counted, and nothing else is changed. The second answer
/// is not owed.
pub proof fn law_missing_speed_is_counted(c: &mut Chassis, reply: &Option<Frame>, owed: bool)
    requires
        *reply is None || (*reply)->0.cmd != 0x90,
        call_ensures(Chassis::rpm_reply, (c, reply, owed), ()),
    ensures
        final(c).err == (old(c).err + (if owed {
            1int
        } else {
            0int
        })) % 0x1_0000_0000,
        *final(c) == (Chassis { err: final(c).err, ..*old(c) }),
{
}

/// A round moves the time of the last success where the encoders and a speed were
/// told, and only there; it counts each of the two questions that got no answer;
/// what is to be sent stays.
pub proof fn law_round_is_counted(
    c: &mut Chassis,
    encoder: &Option<Frame>,
    first: &Option<Frame>,
    second: &Option<Frame>,
    now: u64,
)
    requires
        call_ensures(Chassis::telemetry, (c, encoder, first, second, now), ()),
    ensures
        ({
            let told = *first is Some && (*first)->0.cmd == 0x90;
            let missed = (if *encoder is Some {
                0int
            } else {
                1int
            }) + (if told {
                0int
            } else {
                1int
            });
            &&& final(c).last_ms == (if *encoder is Some && told {
                now
            } else {
                old(c).last_ms
            })
            &&& final(c).err == (old(c).err + missed) % 0x1_0000_0000
        }),
        final(c).inited == old(c).inited,
        final(c).set_l == old(c).set_l,
        final(c).set_r == old(c).set_r,
        final(c).set_dirty == old(c).set_dirty,
        final(c).stop_req == old(c).stop_req,
        final(c).init_pending == old(c).init_pending,
        final(c).tick == old(c).tick,
{
}

/// The time of the last success moves only with a round that got its answers.
pub proof fn law_success_is_timed(c: &mut Chassis, ok: bool, now: u64)
    requires
        call_ensures(Chassis::telemetry_done, (c, ok, now), ()),
    ensures
        ok ==> *final(c) == (Chassis { last_ms: now, ..*old(c) }),
        !ok ==> *final(c) == *old(c),
{
}

/// The word `w` is the speed `v`, held within -100 and 100, modulo 2^16.
pub open spec fn commands_speed(w: int, v: int) -> bool {
    &&& -100 <= v <= 100 ==> w == v % 0x1_0000
    &&& v > 100 ==> w == 100
    &&& v < -100 ==> w == 0x1_0000 - 100
}

/// Speeds that were set are sent once, with the command 0x13, the left one first,
/// each held within -100 and 100.
pub proof fn law_speeds_are_sent(
    c: &mut Chassis,
    left: i16,
    right: i16,
    d: &mut Chassis,
    r: Option<Vec<u8>>,
    e: &mut Chassis,
    again: Option<Vec<u8>>,
)
    requires
        old(c).stop_req != 1,
        old(c).stop_req != 2,
        call_ensures(Chassis::chassis_set_speed, (c, left, right), ()),
        *old(d) == *final(c),
        call_ensures(Chassis::take_motion, (d,), r),
        *old(e) == *final(d),
        call_ensures(Chassis::take_motion, (e,), again),
    ensures
        r is Some,
        r->0@.len() == 9,
        carries(r->0@, 0x13, r->0@.subrange(4, 8)),
        commands_speed(256 * r->0@[4] + r->0@[5], left as int),
        commands_speed(256 * r->0@[6] + r->0@[7], right as int),
        again is None,
{
    let a = crate::apps::robot::clamped(left as int);
    let b = crate::apps::robot::clamped(right as int);
    let p = be_bytes(a) + be_bytes(b);
    lemma_carries(0x13, p);
    let f = frame_bytes(0x13, p);
    assert(f[4] == p[0] && f[5] == p[1] && f[6] == p[2] && f[7] == p[3]);
    assert(p[0] == be_bytes(a)[0] && p[1] == be_bytes(a)[1]);
    assert(p[2] == be_bytes(b)[0] && p[3] == be_bytes(b)[1]);
    assert(f.subrange(4, 8) =~= p);
}

/// A stop that is asked for is sent before speeds that wait, with the command 0x12
/// to brake and 0x11 to roll, and the payload 2. The speeds that wait stay to be
/// sent.
pub proof fn law_stop_comes_first(c: &mut Chassis, brake: u8, d: &mut Chassis, r: Option<Vec<u8>>)
    requires
        call_ensures(Chassis::chassis_stop, (c, brake), ()),
        *old(d) == *final(c),
        call_ensures(Chassis::take_motion, (d,), r),
    ensures
        brake == 2 ==> r is Some && carries(r->0@, 0x12, seq![2u8]),
        brake == 1 ==> r is Some && carries(r->0@, 0x11, seq![2u8]),
        brake == 1 || brake == 2 ==> *final(d) == (Chassis { stop_req: 0, ..*old(c) }),
        brake != 1 && brake != 2 ==> (r is Some <==> old(c).set_dirty) && !final(d).set_dirty,
{
    lemma_carries(0x12, seq![2u8]);
    lemma_carries(0x11, seq![2u8]);
}

/// The task counts its ticks and asks the chassis at every tenth, once the chassis
/// is started.
pub proof fn law_every_tenth_tick_asks(c: &mut Chassis, r: bool)
    requires
        call_ensures(Chassis::tick, (c,), r),
    ensures
        final(c).tick == (old(c).tick + 1) % 0x1_0000_0000,
        r <==> final(c).tick % 10 == 0 && old(c).inited,
        *final(c) == (Chassis { tick: final(c).tick, ..*old(c) }),
{
}

/// A start that was accepted is handed to the task once, with its numbers; while it
/// waits, another is refused and changes nothing.
pub proof fn law_start_is_handed_over(
    c: &mut Chassis,
    shm: &mut SharedMemory<3>,
    rid: u64,
    ppr: u16,
    pwm: u16,
    r: Admission,
    d: &mut Chassis,
    taken: Option<InitRequest>,
    e: &mut Chassis,
    again: Option<InitRequest>,
)
    requires
        old(shm).wf(),
        call_ensures(Chassis::chassis_init, (c, shm, rid, ppr, pwm), r),
        *old(d) == *final(c),
        call_ensures(Chassis::take_init, (d,), taken),
        *old(e) == *final(d),
        call_ensures(Chassis::take_init, (e,), again),
    ensures
        r == Admission::Accepted <==> !old(c).init_pending,
        r == Admission::Accepted ==> taken == Some(InitRequest { rid, ppr, pwm }) && final(shm)@
            == old(shm)@,
        r != Admission::Accepted ==> *final(c) == *old(c) && taken == Some(
            InitRequest { rid: old(c).init_rid, ppr: old(c).init_ppr, pwm: old(c).init_pwm },
        ),
        again is None,
{
}

/// A start that was carried out shows in the snapshot and is answered with 1, one
/// that failed with 0.
pub proof fn law_start_is_shown(c: &mut Chassis, ok: bool, r: u32, n: u32, after: Snapshot)
    requires
        call_ensures(Chassis::init_done, (c, ok), r),
        call_ensures(Chassis::chassis_get, (final(c), n), after),
    ensures
        r == after.1,
        ok ==> r == 1,
        !ok ==> r == 0,
        *final(c) == (Chassis { inited: ok, ..*old(c) }),
{
}

/// A millisecond is 24000 ticks.
pub proof fn law_milliseconds(ticks: u64, r: u64)
    requires
        call_ensures(now_ms, (ticks,), r),
    ensures
        24000 * r <= ticks < 24000 * (r + 1),
{
}

/// A wait for a frame ends without one as soon as the time is over, and asks for a
/// byte before that.
pub proof fn law_wait_is_limited(now: u64, limit: u64, a: Receiving, w: &mut Receiving, t: u64)
    requires
        now + limit <= u64::MAX,
        call_ensures(Receiving::begin, (now, limit), a),
        *old(w) == a,
        call_ensures(Receiving::time, (w, t), ()),
    ensures
        a@.wanted == Wanted::Time,
        a@.found is None,
        t >= now + limit ==> final(w)@.wanted == Wanted::Nothing && final(w)@.found is None,
        t < now + limit ==> final(w)@.wanted == Wanted::Byte,
{
}

/// A byte that comes in is kept behind those before it, as long as fewer than 32
/// wait with it.
pub proof fn law_byte_is_kept(w: &mut Receiving, b: u8)
    requires
        old(w)@.wanted == Wanted::Byte,
        old(w)@.rx.len() < 31,
        call_ensures(Receiving::byte, (w, Some(b)), ()),
    ensures
        final(w)@.rx == old(w)@.rx.push(b),
        final(w)@.wanted == Wanted::Byte,
        final(w)@.deadline == old(w)@.deadline,
{
}

/// When the bytes pause, or 32 of them wait, they are parsed: a frame that stands
/// first ends the wait and is what the wait gives.
pub proof fn law_wait_gives_the_frame(
    w: &mut Receiving,
    b: Option<u8>,
    cmd: u8,
    payload: &[u8],
    sent: Vec<u8>,
    rest: Seq<u8>,
    r: Option<Frame>,
)
    requires
        payload@.len() <= 12,
        call_ensures(build_frame, (cmd, payload), sent),
        old(w)@.wanted == Wanted::Byte,
        b is None ==> old(w)@.rx == sent@ + rest,
        b is Some ==> old(w)@.rx.len() == 31 && old(w)@.rx.push(b->0) == sent@ + rest,
        call_ensures(Receiving::byte, (w, b), ()),
        call_ensures(Receiving::frame, (*final(w),), r),
    ensures
        final(w)@.wanted == Wanted::Nothing,
        r is Some,
        r->0.cmd == cmd,
        r->0.payload@ == payload@,
{
    crate::apps::robot::law_frame_round_trip(cmd, payload@, rest);
}

} // verus!
