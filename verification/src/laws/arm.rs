//! The arm of the robot: what its lines say, what a grab does, and which commands
//! wait.

use crate::apps::robot::{
    angle_cmd, angle_line, angle_to_pulse, arm_steps, law_angle_line_digits, respond, Admission,
    ArmCmd, ArmRing, ArmStep, Step,
};
use crate::laws::messages::{holds, word_at};
use crate::shm::SharedMemory;
use vstd::prelude::*;

verus! {

/// The servo and the pulse width that a line names: `#`, three digits, `P`, four
/// digits.
pub open spec fn named(l: Seq<u8>) -> (int, int) {
    (
        100 * (l[1] - 48) + 10 * (l[2] - 48) + (l[3] - 48),
        1000 * (l[5] - 48) + 100 * (l[6] - 48) + 10 * (l[7] - 48) + (l[8] - 48),
    )
}

/// A line that moves a servo within a second: `#sssPppppT1000!`.
pub open spec fn moves(l: Seq<u8>) -> bool {
    &&& l.len() == 15
    &&& l[0] == 35
    &&& forall|i: int| 1 <= i <= 3 || 5 <= i <= 8 ==> 48 <= #[trigger] l[i] <= 57
    &&& l[4] == 80
    &&& l[9] == 84
    &&& l[10] == 49
    &&& l[11] == 48
    &&& l[12] == 48
    &&& l[13] == 48
    &&& l[14] == 33
}

/// The pulse width `p` stands for `angle`: 500 for none, 2500 for 270 degrees, and in
/// proportion between, rounded down.
pub open spec fn stands_for(p: int, angle: int) -> bool {
    &&& angle <= 270 ==> 270 * (p - 500) <= 2000 * angle < 270 * (p - 499)
    &&& angle > 270 ==> p == 2500
}

/// The pulse width of an angle.
pub proof fn law_pulse_of_an_angle(angle: u16, p: u32)
    requires
        call_ensures(angle_to_pulse, (angle,), p),
    ensures
        stands_for(p as int, angle as int),
        angle == 0 ==> p == 500,
        angle >= 270 ==> p == 2500,
{
}

proof fn lemma_line(servo: u8, angle: u16)
    ensures
        moves(angle_line(servo, angle)),
        named(angle_line(servo, angle)).0 == servo,
        named(angle_line(servo, angle)).1 == crate::apps::robot::pulse(angle),
        stands_for(named(angle_line(servo, angle)).1, angle as int),
{
    law_angle_line_digits(servo, angle);
    let l = angle_line(servo, angle);
    assert forall|i: int| 1 <= i <= 3 || 5 <= i <= 8 implies 48 <= #[trigger] l[i] <= 57 by {
        assert(i == 1 || i == 2 || i == 3 || i == 5 || i == 6 || i == 7 || i == 8);
    }
}

/// The line for a servo and an angle names that servo and the pulse width of that
/// angle.
pub proof fn law_line_names_servo_and_angle(servo: u8, angle: u16, r: Vec<u8>)
    requires
        call_ensures(angle_cmd, (servo, angle), r),
    ensures
        moves(r@),
        named(r@).0 == servo,
        stands_for(named(r@).1, angle as int),
{
    lemma_line(servo, angle);
}

/// The steps as mathematical values.
pub open spec fn shown(r: Vec<ArmStep>) -> Seq<Step> {
    Seq::new(r@.len(), |i: int| r@[i]@)
}

/// Step `s` moves servo `k`.
pub open spec fn turns(s: Step, k: int) -> bool {
    s is Send && moves(s->Send_0) && named(s->Send_0).0 == k
}

/// Step `s` moves servo `k` to `angle`.
pub open spec fn turns_to(s: Step, k: int, angle: int) -> bool {
    turns(s, k) && stands_for(named(s->Send_0).1, angle)
}

/// Of the first `n` steps, the last that moves servo `k` moves it to `angle`.
pub open spec fn stands_at(s: Seq<Step>, n: int, k: int, angle: int) -> bool {
    exists|i: int|
        0 <= i < n && turns_to(#[trigger] s[i], k, angle) && forall|j: int|
            i < j < n ==> !turns(#[trigger] s[j], k)
}

/// Milliseconds that the first `n` steps wait.
pub open spec fn waited(s: Seq<Step>, n: nat) -> int
    decreases n,
{
    if n == 0 {
        0
    } else {
        waited(s, (n - 1) as nat) + match s[n - 1] {
            Step::Sleep(ms) => ms as int,
            _ => 0,
        }
    }
}

/// A grab of request `rid`, carried out in steps `s`: step `opens` opens the gripper
/// (150 degrees) and step `closes` closes it (90 degrees). The arm is down (245 and
/// 180 degrees) when it closes, and moved there while the gripper was open, half a
/// second after it opened and a second before it closes. The arm is lifted (200
/// and 180 degrees) two seconds after it closed, and at the end it is up with the
/// gripper closed. The answer, 0, comes last and once.
pub open spec fn grabs(s: Seq<Step>, opens: int, closes: int, rid: u64) -> bool {
    &&& 0 <= opens < closes < s.len()
    &&& turns_to(s[opens], 2, 150)
    &&& turns_to(s[closes], 2, 90)
    &&& stands_at(s, closes, 0, 245)
    &&& stands_at(s, closes, 1, 180)
    &&& stands_at(s, closes, 2, 150)
    &&& stands_at(s, s.len() as int, 0, 200)
    &&& stands_at(s, s.len() as int, 1, 180)
    &&& stands_at(s, s.len() as int, 2, 90)
    &&& forall|i: int|
        0 <= i < closes && (turns(#[trigger] s[i], 0) || turns(s[i], 1)) ==> {
            &&& opens < i
            &&& stands_at(s, i, 2, 150)
            &&& waited(s, i as nat) >= waited(s, opens as nat) + 500
            &&& waited(s, closes as nat) >= waited(s, i as nat) + 1000
        }
    &&& forall|i: int|
        closes < i < s.len() && (turns(#[trigger] s[i], 0) || turns(s[i], 1)) ==> {
            &&& stands_at(s, i, 2, 90)
            &&& waited(s, i as nat) >= waited(s, closes as nat) + 2000
        }
    &&& waited(s, s.len()) == 3500
    &&& s.last() == Step::Respond(rid, 0)
    &&& forall|i: int| 0 <= i < s.len() - 1 ==> !(#[trigger] s[i] is Respond)
}

proof fn lemma_stands(s: Seq<Step>, n: int, k: int, angle: int, i: int)
    requires
        0 <= i < n <= s.len(),
        turns_to(s[i], k, angle),
        forall|j: int| i < j < n ==> !turns(#[trigger] s[j], k),
    ensures
        stands_at(s, n, k, angle),
{
}

/// A grab opens the gripper, lowers the arm, closes the gripper, lifts the arm and
/// answers, with the waits between.
pub proof fn law_grab_closes_on_what_it_lifts(rid: u64, r: Vec<ArmStep>)
    requires
        call_ensures(arm_steps, (ArmCmd::Grab { rid },), r),
    ensures
        exists|opens: int, closes: int| #[trigger] grabs(shown(r), opens, closes, rid),
{
    let s = shown(r);
    let want = crate::apps::robot::steps(ArmCmd::Grab { rid });
    assert forall|i: int| 0 <= i < s.len() implies s[i] == want[i] by {
        assert(r@[i]@ == want[i]);
    }
    assert(s =~= want);
    lemma_line(2, 150);
    lemma_line(2, 90);
    lemma_line(0, 245);
    lemma_line(1, 180);
    lemma_line(0, 200);
    assert(turns_to(s[0], 2, 150));
    assert(turns_to(s[2], 0, 245));
    assert(turns_to(s[3], 1, 180));
    assert(turns_to(s[5], 2, 90));
    assert(turns_to(s[7], 0, 200));
    assert(turns_to(s[8], 1, 180));
    assert(s[1] == Step::Sleep(500) && s[4] == Step::Sleep(1000) && s[6] == Step::Sleep(2000));
    lemma_stands(s, 5, 0, 245, 2);
    lemma_stands(s, 5, 1, 180, 3);
    lemma_stands(s, 5, 2, 150, 0);
    lemma_stands(s, 10, 0, 200, 7);
    lemma_stands(s, 10, 1, 180, 8);
    lemma_stands(s, 10, 2, 90, 5);
    lemma_stands(s, 2, 2, 150, 0);
    lemma_stands(s, 3, 2, 150, 0);
    lemma_stands(s, 7, 2, 90, 5);
    lemma_stands(s, 8, 2, 90, 5);
    reveal_with_fuel(waited, 11);
    assert(waited(s, 0) == 0);
    assert(waited(s, 2) == 500);
    assert(waited(s, 3) == 500);
    assert(waited(s, 5) == 1500);
    assert(waited(s, 7) == 3500);
    assert(waited(s, 8) == 3500);
    assert(waited(s, 10) == 3500);
    assert forall|i: int|
        0 <= i < 5 && (turns(#[trigger] s[i], 0) || turns(s[i], 1)) implies i == 2 || i == 3 by {
        assert(i == 0 || i == 1 || i == 2 || i == 3 || i == 4);
    }
    assert forall|i: int|
        5 < i < 10 && (turns(#[trigger] s[i], 0) || turns(s[i], 1)) implies i == 7 || i == 8 by {
        assert(i == 6 || i == 7 || i == 8 || i == 9);
    }
    assert(s.len() == 10);
    assert(grabs(s, 0, 5, rid));
}

/// Letting go opens the gripper (150 degrees), waits half a second and answers with
/// 0; the joints stay.
pub proof fn law_release_opens_the_gripper(rid: u64, r: Vec<ArmStep>)
    requires
        call_ensures(arm_steps, (ArmCmd::Release { rid },), r),
    ensures
        stands_at(shown(r), shown(r).len() as int, 2, 150),
        forall|i: int| 0 <= i < r@.len() ==> !turns(#[trigger] shown(r)[i], 0) && !turns(
            shown(r)[i],
            1,
        ),
        r@.len() > 1,
        turns_to(shown(r)[0], 2, 150),
        waited(shown(r), shown(r).len()) == 500,
        shown(r).last() == Step::Respond(rid, 0),
        forall|i: int| 0 <= i < r@.len() - 1 ==> !(#[trigger] shown(r)[i] is Respond),
{
    let s = shown(r);
    let want = crate::apps::robot::steps(ArmCmd::Release { rid });
    assert forall|i: int| 0 <= i < s.len() implies s[i] == want[i] by {
        assert(r@[i]@ == want[i]);
    }
    assert(s =~= want);
    lemma_line(2, 150);
    assert(turns_to(s[0], 2, 150));
    lemma_stands(s, 3, 2, 150, 0);
    reveal_with_fuel(waited, 4);
    assert(s.len() == 3);
}

/// A servo that is to move is moved by one line, and nothing else happens.
pub proof fn law_angle_is_one_line(servo: u8, angle: u16, r: Vec<ArmStep>)
    requires
        call_ensures(arm_steps, (ArmCmd::Angle { servo, angle },), r),
    ensures
        shown(r).len() == 1,
        turns_to(shown(r)[0], servo as int, angle as int),
{
    lemma_line(servo, angle);
    assert(r@[0]@ == crate::apps::robot::steps(ArmCmd::Angle { servo, angle })[0]);
}

/// All servos are addressed as 255: `#255PULK` lets them go, `#255PULR` makes them
/// hold again.
pub proof fn law_torque_is_one_line(release: bool, r: Vec<ArmStep>)
    requires
        call_ensures(arm_steps, (ArmCmd::Torque { release },), r),
    ensures
        shown(r).len() == 1,
        shown(r)[0] is Send,
        ({
            let l = shown(r)[0]->Send_0;
            &&& l.len() == 8
            &&& l[0] == 35
            &&& l[1] == 50
            &&& l[2] == 53
            &&& l[3] == 53
            &&& l[4] == 80
            &&& l[5] == 85
            &&& l[6] == 76
            &&& l[7] == 75 <==> release
            &&& l[7] == 82 <==> !release
        }),
{
    assert(r@[0]@ == crate::apps::robot::steps(ArmCmd::Torque { release })[0]);
}

/// A command waits behind those before it while fewer than eight wait. One that finds
/// no room is dropped and counted.
pub proof fn law_commands_wait_in_order(q: &mut ArmRing, cmd: ArmCmd, r: bool)
    requires
        old(q).wf(),
        call_ensures(ArmRing::push, (q, cmd), r),
    ensures
        r <==> old(q)@.len() < 8,
        r ==> final(q)@.len() == old(q)@.len() + 1 && final(q)@.drop_last() == old(q)@
            && final(q)@.last() == cmd && final(q).lost() == old(q).lost(),
        !r ==> final(q)@ == old(q)@ && final(q).lost() == (old(q).lost() + 1) % 0x1_0000_0000,
{
    assert(old(q)@.push(cmd).drop_last() =~= old(q)@);
}

/// The oldest command is taken first.
pub proof fn law_oldest_command_is_taken(q: &mut ArmRing, r: Option<ArmCmd>, n: u32)
    requires
        old(q).wf(),
        call_ensures(ArmRing::pop, (q,), r),
        call_ensures(ArmRing::arm_dropped, (final(q),), n),
    ensures
        r is None <==> old(q)@.len() == 0,
        r is None ==> final(q)@ == old(q)@,
        r is Some ==> seq![r->0] + final(q)@ == old(q)@,
        n == old(q).lost(),
{
    if old(q)@.len() > 0 {
        assert(seq![old(q)@[0]] + old(q)@.skip(1) =~= old(q)@);
    }
}

/// What becomes of a command that the service is asked for, in a ring that has room:
/// it waits last.
pub open spec fn waits(before: Seq<ArmCmd>, after: Seq<ArmCmd>, cmd: ArmCmd) -> bool {
    &&& before.len() < 8 ==> after.len() == before.len() + 1 && after.drop_last() == before
        && after.last() == cmd
    &&& before.len() >= 8 ==> after == before
}

/// A servo that is to move waits for the task with its number and its angle.
pub proof fn law_angle_waits(q: &mut ArmRing, servo: u8, angle: u16)
    requires
        old(q).wf(),
        call_ensures(ArmRing::arm_set_angle, (q, servo, angle), ()),
    ensures
        waits(old(q)@, final(q)@, ArmCmd::Angle { servo, angle }),
        final(q).lost() == (old(q).lost() + (if old(q)@.len() < 8 {
            0int
        } else {
            1int
        })) % 0x1_0000_0000,
{
    let c = ArmCmd::Angle { servo, angle };
    assert(old(q)@.push(c).drop_last() =~= old(q)@);
}

/// The servos are to let go for any number but 0.
pub proof fn law_torque_waits(q: &mut ArmRing, release: u8)
    requires
        old(q).wf(),
        call_ensures(ArmRing::arm_torque, (q, release), ()),
    ensures
        release != 0 ==> waits(old(q)@, final(q)@, ArmCmd::Torque { release: true }),
        release == 0 ==> waits(old(q)@, final(q)@, ArmCmd::Torque { release: false }),
        final(q).lost() == (old(q).lost() + (if old(q)@.len() < 8 {
            0int
        } else {
            1int
        })) % 0x1_0000_0000,
{
    let c = ArmCmd::Torque { release: release != 0 };
    assert(old(q)@.push(c).drop_last() =~= old(q)@);
}

/// The window after request `rid` was answered with `v` on channel 1: the answer is
/// queued last where the channel is set up and fewer than 127 messages wait in it,
/// and the doorbell is due then; nothing is changed where not.
pub open spec fn answered_with(
    before: crate::shm::Window,
    after: crate::shm::Window,
    rid: u64,
    v: u32,
    doorbell: bool,
) -> bool {
    let c = before.channels[1];
    &&& doorbell <==> c.magic == 0x4F56 && c.queue.len() < 127
    &&& !doorbell ==> after == before
    &&& doorbell ==> {
        let q = after.channels[1].queue;
        let m = q.last();
        let b = <u32 as crate::wire::Wire>::wire(v);
        &&& q.len() == c.queue.len() + 1
        &&& q.drop_last() == c.queue
        &&& m.kind == 3
        &&& m.payload.len() == 255
        &&& word_at(m.payload, 0) == rid
        &&& holds(m.payload, 8, b)
        &&& after.busy == before.busy
        &&& after.channels[0] == before.channels[0]
        &&& after.channels[2] == before.channels[2]
    }
}

proof fn lemma_answered(
    before: crate::shm::Window,
    after: crate::shm::Window,
    rid: u64,
    v: u32,
    doorbell: bool,
)
    requires
        before.channels.len() == 3,
        (doorbell, after) == crate::apps::robot::answer_sent(before, rid, v),
    ensures
        answered_with(before, after, rid, v, doorbell),
{
    broadcast use crate::bytes::lemma_le_len;

    crate::varint::lemma_pow128_words();
    crate::varint::lemma_varint_len(v as nat, 10);
    let b = <u32 as crate::wire::Wire>::wire(v);
    let m = crate::message::Msg::response(rid, b);
    let q = before.channels[1].queue;
    assert((q + seq![m]).drop_last() =~= q);
    assert(before.channels.update(1, before.channels[1]) =~= before.channels);
    let p = m.payload;
    let a = crate::bytes::le(rid as nat, 8);
    crate::bytes::law_weights_of_eight(rid);
    assert(forall|i: int| 0 <= i < 8 ==> p[i] == a[i]);
}

/// A request that was accepted earlier is answered with the number that is given.
pub proof fn law_later_answer_is_sent(shm: &mut SharedMemory<3>, rid: u64, v: u32, r: bool)
    requires
        old(shm).wf(),
        call_ensures(respond, (shm, rid, v), r),
    ensures
        answered_with(old(shm)@, final(shm)@, rid, v, r),
{
    old(shm).lemma_count();
    lemma_answered(old(shm)@, final(shm)@, rid, v, r);
}

/// A grab waits for the task, with the request that it is to answer; one that finds
/// no room is answered at once with 0xffffffff.
pub proof fn law_grab_waits_or_is_refused(
    q: &mut ArmRing,
    shm: &mut SharedMemory<3>,
    rid: u64,
    nonce: u32,
    r: Admission,
)
    requires
        old(q).wf(),
        old(shm).wf(),
        call_ensures(ArmRing::arm_grab, (q, shm, rid, nonce), r),
    ensures
        waits(old(q)@, final(q)@, ArmCmd::Grab { rid }),
        old(q)@.len() < 8 ==> r == Admission::Accepted && final(shm)@ == old(shm)@,
        old(q)@.len() >= 8 ==> r is Refused && answered_with(
            old(shm)@,
            final(shm)@,
            rid,
            0xffff_ffff,
            r->doorbell,
        ) && final(q).lost() == (old(q).lost() + 1) % 0x1_0000_0000,
{
    assert(old(q)@.push(ArmCmd::Grab { rid }).drop_last() =~= old(q)@);
    if old(q)@.len() >= 8 {
        old(shm).lemma_count();
        lemma_answered(old(shm)@, final(shm)@, rid, 0xffff_ffff, r->doorbell);
    }
}

/// So does a command to let go.
pub proof fn law_release_waits_or_is_refused(
    q: &mut ArmRing,
    shm: &mut SharedMemory<3>,
    rid: u64,
    nonce: u32,
    r: Admission,
)
    requires
        old(q).wf(),
        old(shm).wf(),
        call_ensures(ArmRing::arm_release, (q, shm, rid, nonce), r),
    ensures
        waits(old(q)@, final(q)@, ArmCmd::Release { rid }),
        old(q)@.len() < 8 ==> r == Admission::Accepted && final(shm)@ == old(shm)@,
        old(q)@.len() >= 8 ==> r is Refused && answered_with(
            old(shm)@,
            final(shm)@,
            rid,
            0xffff_ffff,
            r->doorbell,
        ) && final(q).lost() == (old(q).lost() + 1) % 0x1_0000_0000,
{
    assert(old(q)@.push(ArmCmd::Release { rid }).drop_last() =~= old(q)@);
    if old(q)@.len() >= 8 {
        old(shm).lemma_count();
        lemma_answered(old(shm)@, final(shm)@, rid, 0xffff_ffff, r->doorbell);
    }
}

/// A start of the chassis that finds another still waiting is answered at once with
/// 0xffffffff.
pub proof fn law_second_start_is_refused(
    c: &mut crate::apps::robot::Chassis,
    shm: &mut SharedMemory<3>,
    rid: u64,
    ppr: u16,
    pwm: u16,
    r: Admission,
)
    requires
        old(shm).wf(),
        old(c).init_pending,
        call_ensures(crate::apps::robot::Chassis::chassis_init, (c, shm, rid, ppr, pwm), r),
    ensures
        r is Refused,
        *final(c) == *old(c),
        answered_with(old(shm)@, final(shm)@, rid, 0xffff_ffff, r->doorbell),
{
    old(shm).lemma_count();
    lemma_answered(old(shm)@, final(shm)@, rid, 0xffff_ffff, r->doorbell);
}

} // verus!
