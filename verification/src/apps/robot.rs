//! Control of the robot: the chassis, which speaks in framed bytes, and the
//! arm, which takes lines of text.

use crate::apps::intercom::send_message;
use crate::channel::CHANNEL_CAPACITY;
use crate::client::{
    arrived, entries, law_response_arrives, law_result_arrives, result_of,
};
use crate::message::{Message, Msg};
use crate::server::{response_bytes, response_sent};
use crate::shm::{SharedMemory, Window};
use crate::stream::whole;
use crate::wire::Wire;
use vstd::prelude::*;
use vstd::slice::slice_subrange;

verus! {

/// The port of the chassis.
pub const PORT_CHASSIS: usize = 0;

/// First byte of a frame.
pub const FRAME_H1: u8 = 0xAA;

/// Second byte of a frame.
pub const FRAME_H2: u8 = 0x55;

/// Command: start.
pub const CMD_INIT: u8 = 0x01;

/// Command: configure.
pub const CMD_CONFIG: u8 = 0x02;

/// Command: roll to a stop.
pub const CMD_STOP: u8 = 0x11;

/// Command: brake.
pub const CMD_BRAKE: u8 = 0x12;

/// Command: set the speeds.
pub const CMD_SET_SPEEDS: u8 = 0x13;

/// Command: read the speeds.
pub const CMD_GET_RPM: u8 = 0x20;

/// Command: read the encoders.
pub const CMD_GET_ENCODER: u8 = 0x22;

/// Answer: done.
pub const RSP_ACK: u8 = 0x80;

/// Answer: a speed.
pub const RSP_RPM_DATA: u8 = 0x90;

/// Most bytes that wait to be parsed.
pub const RX_BUF: usize = 32;

/// Most payload bytes of a frame that is accepted.
pub const FRAME_PAYLOAD_MAX: usize = 12;

/// All bytes of `b` combined by exclusive or.
pub open spec fn xor(b: Seq<u8>) -> u8
    decreases b.len(),
{
    if b.len() == 0 {
        0
    } else {
        xor(b.drop_last()) ^ b.last()
    }
}

/// The frame of a command: two marks, the command, the length of the payload,
/// the payload, and a check byte over all but the marks.
pub open spec fn frame_bytes(cmd: u8, payload: Seq<u8>) -> Seq<u8> {
    let covered = seq![cmd, payload.len() as u8] + payload;
    seq![FRAME_H1, FRAME_H2] + covered + seq![xor(covered)]
}

/// A frame that was found, and what is left after it. Bytes that start no
/// frame are dropped; bytes that may become one stay.
pub open spec fn find_frame(b: Seq<u8>) -> (Option<(u8, Seq<u8>)>, Seq<u8>)
    decreases b.len(),
{
    if b.len() >= 1 && !(b[0] == FRAME_H1 && (b.len() < 2 || b[1] == FRAME_H2)) {
        find_frame(b.skip(1))
    } else if b.len() < 5 {
        (None, b)
    } else if b[3] > 12 {
        find_frame(b.skip(1))
    } else if b.len() < 5 + b[3] {
        (None, b)
    } else if xor(b.subrange(2, 4 + b[3])) != b[4 + b[3]] {
        find_frame(b.skip(1))
    } else {
        (Some((b[2], b.subrange(4, 4 + b[3]))), b.skip(5 + b[3]))
    }
}

/// A frame that was received.
#[derive(Debug)]
pub struct Frame {
    /// The command.
    pub cmd: u8,
    /// The payload.
    pub payload: Vec<u8>,
}

/// The bytes `b[from..to]` combined by exclusive or.
fn xor_of(b: &[u8], from: usize, to: usize) -> (r: u8)
    requires
        from <= to <= b@.len(),
    ensures
        r == xor(b@.subrange(from as int, to as int)),
{
    let ghost s = b@.subrange(from as int, to as int);
    let mut r: u8 = 0;
    let mut i: usize = from;
    proof {
        assert(s.take(0).len() == 0);
    }
    while i < to
        invariant
            from <= i <= to <= b@.len(),
            s == b@.subrange(from as int, to as int),
            r == xor(s.take(i - from)),
        decreases to - i,
    {
        proof {
            let k = i - from;
            assert(s.take(k + 1).drop_last() =~= s.take(k));
            assert(s.take(k + 1).last() == b@[i as int]);
        }
        r = r ^ b[i];
        i = i + 1;
    }
    proof {
        assert(s.take(to - from) =~= s);
    }
    r
}

/// The frame of a command.
pub fn build_frame(cmd: u8, payload: &[u8]) -> (r: Vec<u8>)
    requires
        payload@.len() <= 255,
    ensures
        r@ == frame_bytes(cmd, payload@),
{
    let mut out: Vec<u8> = Vec::new();
    out.push(FRAME_H1);
    out.push(FRAME_H2);
    out.push(cmd);
    out.push(payload.len() as u8);
    out.extend_from_slice(payload);
    let chk: u8 = xor_of(out.as_slice(), 2, out.len());
    proof {
        let covered = seq![cmd, payload@.len() as u8] + payload@;
        assert(out@.subrange(2, out@.len() as int) =~= covered);
    }
    out.push(chk);
    proof {
        assert(out@ =~= frame_bytes(cmd, payload@));
    }
    out
}

/// Takes the first frame out of `buf`. Bytes before it that start no frame are
/// dropped; `None` when there is no complete frame yet.
pub fn parse_frame(buf: &mut Vec<u8>) -> (r: Option<Frame>)
    ensures
        ({
            let (found, rest) = find_frame(old(buf)@);
            &&& final(buf)@ == rest
            &&& match found {
                Some((cmd, payload)) => r matches Some(f) && f.cmd == cmd && f.payload@ == payload,
                None => r is None,
            }
        }),
{
    let ghost all = buf@;
    let n: usize = buf.len();
    let mut at: usize = 0;
    proof {
        assert(all.skip(0) =~= all);
    }
    loop
        invariant
            all == old(buf)@,
            buf@ == all,
            n == all.len(),
            at <= n,
            find_frame(all) == find_frame(all.skip(at as int)),
        decreases n - at,
    {
        let ghost s = all.skip(at as int);
        proof {
            if at < n {
                assert(s.skip(1) =~= all.skip(at + 1));
            }
        }
        if at < n && !(buf[at] == FRAME_H1 && (n - at < 2 || buf[at + 1] == FRAME_H2)) {
            at = at + 1;
            continue;
        }
        if n - at < 5 {
            let mut rest: Vec<u8> = Vec::new();
            rest.extend_from_slice(slice_subrange(buf.as_slice(), at, n));
            proof {
                assert(rest@ =~= s);
            }
            *buf = rest;
            return None;
        }
        let plen: usize = buf[at + 3] as usize;
        if plen > 12 {
            at = at + 1;
            continue;
        }
        if n - at < 5 + plen {
            let mut rest: Vec<u8> = Vec::new();
            rest.extend_from_slice(slice_subrange(buf.as_slice(), at, n));
            proof {
                assert(rest@ =~= s);
            }
            *buf = rest;
            return None;
        }
        let chk: u8 = xor_of(buf.as_slice(), at + 2, at + 4 + plen);
        proof {
            assert(all.subrange(at + 2, at + 4 + plen) =~= s.subrange(2, 4 + plen));
        }
        if chk != buf[at + 4 + plen] {
            at = at + 1;
            continue;
        }
        let cmd: u8 = buf[at + 2];
        let mut payload: Vec<u8> = Vec::new();
        payload.extend_from_slice(slice_subrange(buf.as_slice(), at + 4, at + 4 + plen));
        let mut rest: Vec<u8> = Vec::new();
        rest.extend_from_slice(slice_subrange(buf.as_slice(), at + 5 + plen, n));
        proof {
            assert(payload@ =~= s.subrange(4, 4 + plen));
            assert(rest@ =~= s.skip(5 + plen));
        }
        *buf = rest;
        return Some(Frame { cmd, payload });
    }
}

/// A frame is found where it starts, whatever follows it.
pub proof fn law_frame_round_trip(cmd: u8, payload: Seq<u8>, rest: Seq<u8>)
    requires
        payload.len() <= FRAME_PAYLOAD_MAX,
    ensures
        find_frame(frame_bytes(cmd, payload) + rest) == (Some((cmd, payload)), rest),
{
    let b = frame_bytes(cmd, payload) + rest;
    let covered = seq![cmd, payload.len() as u8] + payload;
    assert(b[3] == payload.len());
    assert(b.subrange(2, 4 + b[3]) =~= covered);
    assert(b.subrange(4, 4 + b[3]) =~= payload);
    assert(b.skip(5 + b[3]) =~= rest);
}

/// Text and other bytes that hold no first mark do not hide a frame behind
/// them.
pub proof fn law_noise_is_skipped(noise: Seq<u8>, cmd: u8, payload: Seq<u8>, rest: Seq<u8>)
    requires
        payload.len() <= FRAME_PAYLOAD_MAX,
        forall|i: int| 0 <= i < noise.len() ==> (#[trigger] noise[i]) != FRAME_H1,
    ensures
        find_frame(noise + frame_bytes(cmd, payload) + rest) == (Some((cmd, payload)), rest),
    decreases noise.len(),
{
    if noise.len() == 0 {
        assert(noise + frame_bytes(cmd, payload) + rest =~= frame_bytes(cmd, payload) + rest);
        law_frame_round_trip(cmd, payload, rest);
    } else {
        let b = noise + frame_bytes(cmd, payload) + rest;
        assert(b[0] == noise[0]);
        let tail = noise.skip(1);
        assert forall|i: int| 0 <= i < tail.len() implies (#[trigger] tail[i]) != FRAME_H1 by {
            assert(tail[i] == noise[i + 1]);
        }
        law_noise_is_skipped(tail, cmd, payload, rest);
        assert(b.skip(1) =~= tail + frame_bytes(cmd, payload) + rest);
    }
}

/// Whether another received byte fits into the buffer.
pub fn rx_room(buf: &Vec<u8>) -> (r: bool)
    ensures
        r == (buf@.len() < RX_BUF),
{
    buf.len() < RX_BUF
}

/// Ticks of the system clock as milliseconds.
pub fn now_ms(ticks: u64) -> (r: u64)
    ensures
        r == ticks / 24_000,
{
    ticks / 24_000
}

/// When to give up waiting for an answer.
pub fn deadline_ms(now: u64, timeout_ms: u64) -> (r: u64)
    requires
        now + timeout_ms <= u64::MAX,
    ensures
        r == now + timeout_ms,
{
    now + timeout_ms
}

/// What a wait for a frame asks for next.
#[derive(Debug, Clone, Copy, PartialEq, Eq, Structural)]
pub enum Wanted {
    /// The time in milliseconds.
    Time,
    /// The next byte that the port has received, if any.
    Byte,
    /// Nothing: a frame was found, or the time is over.
    Nothing,
}

/// A wait for a frame, as a mathematical value.
#[verifier::ext_equal]
pub struct Wait {
    /// The bytes that wait to be parsed.
    pub rx: Seq<u8>,
    /// When to give up.
    pub deadline: u64,
    /// What is asked for next.
    pub wanted: Wanted,
    /// The frame that was found: the command and the payload.
    pub found: Option<(u8, Seq<u8>)>,
}

/// The wait after the bytes were parsed: it is over where they hold a frame, and
/// looks at the time where not.
pub open spec fn wait_parsed(s: Wait) -> Wait {
    let (found, rest) = find_frame(s.rx);
    Wait {
        rx: rest,
        wanted: if found is Some {
            Wanted::Nothing
        } else {
            Wanted::Time
        },
        found,
        ..s
    }
}

/// The wait after it was told the time.
pub open spec fn wait_timed(s: Wait, now: u64) -> Wait {
    if s.wanted != Wanted::Time {
        s
    } else if now >= s.deadline {
        Wait { wanted: Wanted::Nothing, ..s }
    } else if s.rx.len() < RX_BUF {
        Wait { wanted: Wanted::Byte, ..s }
    } else {
        wait_parsed(s)
    }
}

/// The wait after it was told what the port had received. Bytes are collected
/// while there is room and more of them; then they are parsed.
pub open spec fn wait_fed(s: Wait, b: Option<u8>) -> Wait {
    if s.wanted != Wanted::Byte {
        s
    } else {
        match b {
            None => wait_parsed(s),
            Some(x) => if s.rx.len() + 1 < RX_BUF {
                Wait { rx: s.rx.push(x), ..s }
            } else {
                wait_parsed(Wait { rx: s.rx.push(x), ..s })
            },
        }
    }
}

/// A wait for a frame.
#[derive(Debug)]
pub struct Receiving {
    rx: Vec<u8>,
    deadline: u64,
    wanted: Wanted,
    found: Option<Frame>,
}

impl View for Receiving {
    type V = Wait;

    closed spec fn view(&self) -> Wait {
        Wait {
            rx: self.rx@,
            deadline: self.deadline,
            wanted: self.wanted,
            found: match self.found {
                Some(f) => Some((f.cmd, f.payload@)),
                None => None,
            },
        }
    }
}

impl Receiving {
    /// Waits from `now` on for at most `timeout_ms` milliseconds.
    pub fn begin(now: u64, timeout_ms: u64) -> (r: Receiving)
        requires
            now + timeout_ms <= u64::MAX,
        ensures
            r@ == (Wait {
                rx: Seq::empty(),
                deadline: (now + timeout_ms) as u64,
                wanted: Wanted::Time,
                found: None,
            }),
    {
        Receiving {
            rx: Vec::new(),
            deadline: deadline_ms(now, timeout_ms),
            wanted: Wanted::Time,
            found: None,
        }
    }

    /// What is asked for next.
    pub fn wanted(&self) -> (r: Wanted)
        ensures
            r == self@.wanted,
    {
        self.wanted
    }

    /// Parses the bytes.
    fn parse(&mut self)
        ensures
            final(self)@ == wait_parsed(old(self)@),
    {
        self.found = parse_frame(&mut self.rx);
        self.wanted = if self.found.is_some() {
            Wanted::Nothing
        } else {
            Wanted::Time
        };
    }

    /// Takes in the time.
    pub fn time(&mut self, now: u64)
        ensures
            final(self)@ == wait_timed(old(self)@, now),
    {
        if self.wanted != Wanted::Time {
            return;
        }
        if now >= self.deadline {
            self.wanted = Wanted::Nothing;
        } else if rx_room(&self.rx) {
            self.wanted = Wanted::Byte;
        } else {
            self.parse();
        }
    }

    /// Takes in what the port had received.
    pub fn byte(&mut self, b: Option<u8>)
        ensures
            final(self)@ == wait_fed(old(self)@, b),
    {
        if self.wanted != Wanted::Byte {
            return;
        }
        match b {
            None => self.parse(),
            Some(x) => {
                self.rx.push(x);
                if !rx_room(&self.rx) {
                    self.parse();
                }
            },
        }
    }

    /// The frame that was found.
    pub fn frame(self) -> (r: Option<Frame>)
        ensures
            match self@.found {
                Some((cmd, payload)) => r matches Some(f) && f.cmd == cmd && f.payload@ == payload,
                None => r is None,
            },
    {
        self.found
    }
}

/// The wait after the port handed over the bytes `b`, one after the other.
pub open spec fn wait_fed_all(s: Wait, b: Seq<u8>) -> Wait
    decreases b.len(),
{
    if b.len() == 0 {
        s
    } else {
        wait_fed(wait_fed_all(s, b.drop_last()), Some(b.last()))
    }
}

proof fn lemma_bytes_collect(s: Wait, b: Seq<u8>)
    requires
        s.wanted == Wanted::Byte,
        s.rx.len() + b.len() < RX_BUF,
    ensures
        wait_fed_all(s, b) == (Wait { rx: s.rx + b, ..s }),
    decreases b.len(),
{
    if b.len() > 0 {
        lemma_bytes_collect(s, b.drop_last());
        assert((s.rx + b.drop_last()).push(b.last()) =~= s.rx + b);
    } else {
        assert(s.rx + b =~= s.rx);
    }
}

/// A frame that comes in before the time is over is found, and the wait ends
/// with it.
pub proof fn law_frame_is_received(s: Wait, now: u64, cmd: u8, payload: Seq<u8>)
    requires
        s.wanted == Wanted::Time,
        s.rx.len() == 0,
        now < s.deadline,
        payload.len() <= FRAME_PAYLOAD_MAX,
    ensures
        ({
            let r = wait_fed(
                wait_fed_all(wait_timed(s, now), frame_bytes(cmd, payload)),
                None,
            );
            &&& r.found == Some((cmd, payload))
            &&& r.wanted == Wanted::Nothing
        }),
{
    let b = frame_bytes(cmd, payload);
    lemma_bytes_collect(wait_timed(s, now), b);
    assert(s.rx + b =~= b + Seq::<u8>::empty());
    law_frame_round_trip(cmd, payload, Seq::empty());
}

/// A wait that finds no frame ends as soon as the time is over, and not before.
pub proof fn law_wait_ends_in_time(s: Wait, now: u64)
    requires
        s.wanted == Wanted::Time,
        find_frame(s.rx).0 is None,
    ensures
        wait_timed(s, now).wanted == Wanted::Nothing <==> now >= s.deadline,
        now >= s.deadline ==> wait_timed(s, now).found == s.found,
{
}

/// The pulse width for an angle: 500 for none, 2500 for 270 degrees and more.
pub open spec fn pulse(angle: u16) -> nat {
    let p = 500 + angle as nat * 2000 / 270;
    if p > 2500 {
        2500
    } else {
        p
    }
}

/// The pulse width for an angle.
pub fn angle_to_pulse(angle: u16) -> (r: u32)
    ensures
        r == pulse(angle),
        500 <= r <= 2500,
{
    let p: u32 = 500 + (angle as u32 * 2000) / 270;
    if p > 2500 {
        2500
    } else {
        p
    }
}

/// The decimal digit of `n` with the weight `w`, as a character.
pub open spec fn digit(n: nat, w: nat) -> u8 {
    (48 + n / w % 10) as u8
}

/// The line that moves a servo: `#` and three digits, `P` and four digits,
/// `T1000!`.
pub open spec fn angle_line(servo: u8, angle: u16) -> Seq<u8> {
    let s = servo as nat;
    let p = pulse(angle);
    seq![
        35u8,
        digit(s, 100),
        digit(s, 10),
        digit(s, 1),
        80u8,
        digit(p, 1000),
        digit(p, 100),
        digit(p, 10),
        digit(p, 1),
        84u8,
        49u8,
        48u8,
        48u8,
        48u8,
        33u8,
    ]
}

/// The line that moves a servo to an angle.
pub fn angle_cmd(servo: u8, angle: u16) -> (r: Vec<u8>)
    ensures
        r@ == angle_line(servo, angle),
{
    let p: u32 = angle_to_pulse(angle);
    let mut out: Vec<u8> = Vec::new();
    out.push(35);
    out.push(48 + servo / 100 % 10);
    out.push(48 + servo / 10 % 10);
    out.push(48 + servo % 10);
    out.push(80);
    out.push((48 + p / 1000 % 10) as u8);
    out.push((48 + p / 100 % 10) as u8);
    out.push((48 + p / 10 % 10) as u8);
    out.push((48 + p % 10) as u8);
    out.push(84);
    out.push(49);
    out.push(48);
    out.push(48);
    out.push(48);
    out.push(33);
    proof {
        assert(out@ =~= angle_line(servo, angle));
    }
    out
}

/// The digits of a line give the servo and the pulse width back.
pub proof fn law_angle_line_digits(servo: u8, angle: u16)
    ensures
        ({
            let l = angle_line(servo, angle);
            &&& l.len() == 15
            &&& 100 * (l[1] - 48) + 10 * (l[2] - 48) + (l[3] - 48) == servo
            &&& 1000 * (l[5] - 48) + 100 * (l[6] - 48) + 10 * (l[7] - 48) + (l[8] - 48) == pulse(
                angle,
            )
        }),
{
    let p = pulse(angle);
    let s = servo as nat;
    let l = angle_line(servo, angle);
    assert(p < 10000);
    lemma_four_digits(p);
    lemma_four_digits(s);
    assert(l[1] == digit(s, 100) && l[2] == digit(s, 10) && l[3] == digit(s, 1));
    assert(l[5] == digit(p, 1000) && l[6] == digit(p, 100));
    assert(l[7] == digit(p, 10) && l[8] == digit(p, 1));
}

proof fn lemma_four_digits(n: nat)
    requires
        n < 10000,
    ensures
        1000 * (digit(n, 1000) - 48) + 100 * (digit(n, 100) - 48) + 10 * (digit(n, 10) - 48) + (
        digit(n, 1) - 48) == n,
        n < 1000 ==> digit(n, 1000) == 48,
{
    let tens = n / 10;
    let hundreds = n / 100;
    let thousands = n / 1000;
    assert(n / 1 == n);
    assert(hundreds == tens / 10);
    assert(thousands == hundreds / 10);
    assert(thousands % 10 == thousands);
    assert(digit(n, 1) - 48 == n - 10 * tens);
    assert(digit(n, 10) - 48 == tens - 10 * hundreds);
    assert(digit(n, 100) - 48 == hundreds - 10 * thousands);
    assert(digit(n, 1000) - 48 == thousands);
}

/// The line that lets the servos go.
pub fn torque_release() -> (r: Vec<u8>)
    ensures
        r@ == seq![35u8, 50u8, 53u8, 53u8, 80u8, 85u8, 76u8, 75u8],
{
    let r: Vec<u8> = vec![35u8, 50u8, 53u8, 53u8, 80u8, 85u8, 76u8, 75u8];
    proof {
        assert(r@ =~= seq![35u8, 50u8, 53u8, 53u8, 80u8, 85u8, 76u8, 75u8]);
    }
    r
}

/// The line that makes the servos hold again.
pub fn torque_restore() -> (r: Vec<u8>)
    ensures
        r@ == seq![35u8, 50u8, 53u8, 53u8, 80u8, 85u8, 76u8, 82u8],
{
    let r: Vec<u8> = vec![35u8, 50u8, 53u8, 53u8, 80u8, 85u8, 76u8, 82u8];
    proof {
        assert(r@ =~= seq![35u8, 50u8, 53u8, 53u8, 80u8, 85u8, 76u8, 82u8]);
    }
    r
}

/// First joint when grabbing.
pub const POSE_GRAB_S0: u16 = 245;

/// Second joint when grabbing.
pub const POSE_GRAB_S1: u16 = 180;

/// First joint when lifting.
pub const POSE_LIFT_S0: u16 = 200;

/// Second joint when lifting.
pub const POSE_LIFT_S1: u16 = 180;

/// The gripper when open.
pub const GRIPPER_OPEN: u16 = 150;

/// The gripper when closed.
pub const GRIPPER_CLOSE: u16 = 90;

/// The signed number of two bytes, most significant first.
pub open spec fn be16(hi: u8, lo: u8) -> int {
    let u = 256 * hi + lo;
    if u >= 0x8000 {
        u - 0x1_0000
    } else {
        u
    }
}

/// The signed number of four bytes, most significant first.
pub open spec fn be32(b: Seq<u8>) -> int {
    let u = 0x100_0000 * b[0] + 0x1_0000 * b[1] + 0x100 * b[2] + b[3];
    if u >= 0x8000_0000 {
        u - 0x1_0000_0000
    } else {
        u
    }
}

/// The signed number of the two bytes from `at` on, most significant first.
pub fn be_i16(b: &[u8], at: usize) -> (r: i16)
    requires
        at + 2 <= b@.len(),
    ensures
        r == be16(b@[at as int], b@[at + 1]),
{
    let u: i32 = 256 * b[at] as i32 + b[at + 1] as i32;
    if u >= 0x8000 {
        (u - 0x1_0000) as i16
    } else {
        u as i16
    }
}

/// The signed number of the four bytes from `at` on, most significant first.
pub fn be_i32(b: &[u8], at: usize) -> (r: i32)
    requires
        at + 4 <= b@.len(),
    ensures
        r == be32(b@.subrange(at as int, at + 4)),
{
    let u: i64 = 0x100_0000 * b[at] as i64 + 0x1_0000 * b[at + 1] as i64 + 0x100 * b[at + 2] as i64
        + b[at + 3] as i64;
    if u >= 0x8000_0000 {
        (u - 0x1_0000_0000) as i32
    } else {
        u as i32
    }
}

/// The two bytes of `v`, most significant first.
pub open spec fn be_bytes(v: int) -> Seq<u8> {
    let u = if v < 0 {
        v + 0x1_0000
    } else {
        v
    };
    seq![(u / 256) as u8, (u % 256) as u8]
}

/// Sixteen-bit numbers read back from their two bytes.
pub proof fn law_be16_round_trip(v: int)
    requires
        -0x8000 <= v < 0x8000,
    ensures
        be16(be_bytes(v)[0], be_bytes(v)[1]) == v,
{
}

/// `v` held within -100 and 100.
pub open spec fn clamped(v: int) -> int {
    if v < -100 {
        -100
    } else if v > 100 {
        100
    } else {
        v
    }
}

/// The chassis as the service and the task share it.
#[derive(Debug, Clone, Copy, PartialEq, Eq, Structural)]
pub struct Chassis {
    /// The chassis has been started and configured.
    pub inited: bool,
    /// Speed of the left wheel.
    pub rpm_l: i32,
    /// Speed of the right wheel.
    pub rpm_r: i32,
    /// First encoder.
    pub enc_m1: i32,
    /// Second encoder.
    pub enc_m2: i32,
    /// Questions without an answer, modulo 2^32.
    pub err: u32,
    /// When the last questions were asked, in milliseconds.
    pub last_ms: u64,
    /// Wanted speed of the left wheel.
    pub set_l: i32,
    /// Wanted speed of the right wheel.
    pub set_r: i32,
    /// The wanted speeds have not been sent.
    pub set_dirty: bool,
    /// A stop that is wanted: 1 to roll, 2 to brake.
    pub stop_req: u8,
    /// The request that asked for a start.
    pub init_rid: u64,
    /// Encoder pulses per turn.
    pub init_ppr: u16,
    /// Frequency of the motor drive.
    pub init_pwm: u16,
    /// A start has been asked for.
    pub init_pending: bool,
    /// Ticks of the task, modulo 2^32.
    pub tick: u32,
}

/// A start that is to be carried out.
#[derive(Debug, Clone, Copy, PartialEq, Eq, Structural)]
pub struct InitRequest {
    /// The request.
    pub rid: u64,
    /// Encoder pulses per turn.
    pub ppr: u16,
    /// Frequency of the motor drive.
    pub pwm: u16,
}

/// The motion frame that is due.
pub open spec fn motion(c: Chassis) -> Option<Seq<u8>> {
    if c.stop_req == 2 {
        Some(frame_bytes(CMD_BRAKE, seq![2u8]))
    } else if c.stop_req == 1 {
        Some(frame_bytes(CMD_STOP, seq![2u8]))
    } else if c.set_dirty {
        Some(
            frame_bytes(
                CMD_SET_SPEEDS,
                be_bytes(clamped(c.set_l as int)) + be_bytes(clamped(c.set_r as int)),
            ),
        )
    } else {
        None
    }
}

/// Holds `v` within -100 and 100.
fn clamp100(v: i32) -> (r: i16)
    ensures
        r == clamped(v as int),
{
    if v < -100 {
        -100
    } else if v > 100 {
        100
    } else {
        v as i16
    }
}

/// Appends the two bytes of `v`, most significant first.
fn put_be(out: &mut Vec<u8>, v: i16)
    ensures
        final(out)@ == old(out)@ + be_bytes(v as int),
{
    let u: i32 = if v < 0 {
        v as i32 + 0x1_0000
    } else {
        v as i32
    };
    out.push((u / 256) as u8);
    out.push((u % 256) as u8);
    proof {
        assert(out@ =~= old(out)@ + be_bytes(v as int));
    }
}

/// The telemetry after an answer about a speed: wheel, then speed.
pub open spec fn rpm_taken(c: Chassis, cmd: u8, p: Seq<u8>) -> Chassis {
    if cmd == RSP_RPM_DATA && p.len() >= 3 && p[0] == 0 {
        Chassis { rpm_r: be16(p[1], p[2]) as i32, ..c }
    } else if cmd == RSP_RPM_DATA && p.len() >= 3 && p[0] == 1 {
        Chassis { rpm_l: be16(p[1], p[2]) as i32, ..c }
    } else {
        c
    }
}

/// One more question without an answer.
pub open spec fn missed(c: Chassis) -> Chassis {
    Chassis {
        err: if c.err == u32::MAX {
            0
        } else {
            (c.err + 1) as u32
        },
        ..c
    }
}

/// The chassis after an answer about the encoders.
pub open spec fn encoder_told(c: Chassis, reply: Option<Frame>) -> Chassis {
    match reply {
        None => missed(c),
        Some(f) => if f.payload@.len() >= 8 {
            Chassis {
                enc_m1: be32(f.payload@.subrange(0, 4)) as i32,
                enc_m2: be32(f.payload@.subrange(4, 8)) as i32,
                ..c
            }
        } else {
            c
        },
    }
}

/// The chassis after an answer about the speeds, where an answer is owed or
/// not.
pub open spec fn rpm_told(c: Chassis, reply: Option<Frame>, owed: bool) -> Chassis {
    match reply {
        Some(f) => if f.cmd == RSP_RPM_DATA {
            rpm_taken(c, f.cmd, f.payload@)
        } else if owed {
            missed(c)
        } else {
            c
        },
        None => if owed {
            missed(c)
        } else {
            c
        },
    }
}

/// A round of telemetry got its answers: one about the encoders, and one about
/// a speed to the question for both speeds.
pub open spec fn answered(encoder: Option<Frame>, first: Option<Frame>) -> bool {
    encoder is Some && first is Some && first->0.cmd == RSP_RPM_DATA
}

/// What became of a request that is carried out later.
#[derive(Debug, Clone, Copy, PartialEq, Eq, Structural)]
pub enum Admission {
    /// It is answered when it has been carried out.
    Accepted,
    /// It was answered at once, with all ones.
    Refused {
        /// The doorbell of the other core is due.
        doorbell: bool,
    },
}

/// Whether the answer to request `rid` was sent, and the window after it.
pub open spec fn answer_sent(w: Window, rid: u64, result: u32) -> (bool, Window) {
    let (sent, c) = w.channels[1].send(seq![Msg::response(rid, u32::wire(result))]);
    (sent is Ok, w.with(1, c))
}

/// The admission of request `rid`, and the window after it.
pub open spec fn admission(w: Window, rid: u64, room: bool) -> (Admission, Window) {
    if room {
        (Admission::Accepted, w)
    } else {
        let (doorbell, after) = answer_sent(w, rid, u32::MAX);
        (Admission::Refused { doorbell }, after)
    }
}

/// Admits request `rid` or refuses it with all ones.
fn accept_or_refuse(shm: &mut SharedMemory<3>, rid: u64, room: bool) -> (r: Admission)
    requires
        old(shm).wf(),
    ensures
        final(shm).wf(),
        (r, final(shm)@) == admission(old(shm)@, rid, room),
{
    if room {
        Admission::Accepted
    } else {
        Admission::Refused { doorbell: respond(shm, rid, u32::MAX) }
    }
}

impl Chassis {
    /// Nothing has happened.
    pub fn new() -> (r: Chassis)
        ensures
            r == (Chassis {
                inited: false,
                rpm_l: 0,
                rpm_r: 0,
                enc_m1: 0,
                enc_m2: 0,
                err: 0,
                last_ms: 0,
                set_l: 0,
                set_r: 0,
                set_dirty: false,
                stop_req: 0,
                init_rid: 0,
                init_ppr: 0,
                init_pwm: 0,
                init_pending: false,
                tick: 0,
            }),
    {
        Chassis {
            inited: false,
            rpm_l: 0,
            rpm_r: 0,
            enc_m1: 0,
            enc_m2: 0,
            err: 0,
            last_ms: 0,
            set_l: 0,
            set_r: 0,
            set_dirty: false,
            stop_req: 0,
            init_rid: 0,
            init_ppr: 0,
            init_pwm: 0,
            init_pending: false,
            tick: 0,
        }
    }

    /// Sets the wanted speeds.
    pub fn chassis_set_speed(&mut self, left: i16, right: i16)
        ensures
            *final(self) == (Chassis {
                set_l: left as i32,
                set_r: right as i32,
                set_dirty: true,
                ..*old(self)
            }),
    {
        self.set_l = left as i32;
        self.set_r = right as i32;
        self.set_dirty = true;
    }

    /// Asks for a stop: 1 to roll, 2 to brake.
    pub fn chassis_stop(&mut self, brake: u8)
        ensures
            *final(self) == (Chassis { stop_req: brake, ..*old(self) }),
    {
        self.stop_req = brake;
    }

    /// What is known of the chassis, with `nonce` in front.
    pub fn chassis_get(&self, nonce: u32) -> (r: (u32, u32, i32, i32, i32, i32, u32, u64))
        ensures
            r == (
                nonce,
                if self.inited {
                    1u32
                } else {
                    0u32
                },
                self.rpm_l,
                self.rpm_r,
                self.enc_m1,
                self.enc_m2,
                self.err,
                self.last_ms,
            ),
    {
        let inited: u32 = if self.inited {
            1
        } else {
            0
        };
        (
            nonce,
            inited,
            self.rpm_l,
            self.rpm_r,
            self.enc_m1,
            self.enc_m2,
            self.err,
            self.last_ms,
        )
    }

    /// Asks for a start. Where one is still to be carried out, nothing is
    /// changed and the request is refused with all ones.
    pub fn chassis_init(
        &mut self,
        shm: &mut SharedMemory<3>,
        rid: u64,
        ppr: u16,
        pwm_freq: u16,
    ) -> (r: Admission)
        requires
            old(shm).wf(),
        ensures
            final(shm).wf(),
            (r, final(shm)@) == admission(old(shm)@, rid, !old(self).init_pending),
            *final(self) == (if old(self).init_pending {
                *old(self)
            } else {
                Chassis {
                    init_rid: rid,
                    init_ppr: ppr,
                    init_pwm: pwm_freq,
                    init_pending: true,
                    ..*old(self)
                }
            }),
    {
        let room = !self.init_pending;
        if room {
            self.init_rid = rid;
            self.init_ppr = ppr;
            self.init_pwm = pwm_freq;
            self.init_pending = true;
        }
        accept_or_refuse(shm, rid, room)
    }

    /// Takes the start that is to be carried out.
    pub fn take_init(&mut self) -> (r: Option<InitRequest>)
        ensures
            r == (if old(self).init_pending {
                Some(
                    InitRequest {
                        rid: old(self).init_rid,
                        ppr: old(self).init_ppr,
                        pwm: old(self).init_pwm,
                    },
                )
            } else {
                None
            }),
            *final(self) == (Chassis { init_pending: false, ..*old(self) }),
    {
        if self.init_pending {
            self.init_pending = false;
            Some(InitRequest { rid: self.init_rid, ppr: self.init_ppr, pwm: self.init_pwm })
        } else {
            None
        }
    }

    /// A start was carried out or failed; the request is answered with 1 or 0.
    pub fn init_done(&mut self, ok: bool) -> (r: u32)
        ensures
            r == (if ok {
                1u32
            } else {
                0u32
            }),
            *final(self) == (Chassis { inited: ok, ..*old(self) }),
    {
        self.inited = ok;
        if ok {
            1
        } else {
            0
        }
    }

    /// The motion frame that is due: a stop that is wanted comes before the
    /// wanted speeds, which then stay to be sent.
    pub fn take_motion(&mut self) -> (r: Option<Vec<u8>>)
        ensures
            match motion(*old(self)) {
                Some(f) => r matches Some(v) && v@ == f,
                None => r is None,
            },
            *final(self) == (Chassis {
                stop_req: 0,
                set_dirty: old(self).set_dirty && (old(self).stop_req == 1 || old(self).stop_req
                    == 2),
                ..*old(self)
            }),
    {
        let stop: u8 = self.stop_req;
        self.stop_req = 0;
        let two: [u8; 1] = [2u8];
        proof {
            assert(two@ =~= seq![2u8]);
        }
        if stop == 2 {
            Some(build_frame(CMD_BRAKE, two.as_slice()))
        } else if stop == 1 {
            Some(build_frame(CMD_STOP, two.as_slice()))
        } else if self.set_dirty {
            self.set_dirty = false;
            let mut p: Vec<u8> = Vec::new();
            put_be(&mut p, clamp100(self.set_l));
            put_be(&mut p, clamp100(self.set_r));
            proof {
                assert(p@ =~= be_bytes(clamped(self.set_l as int)) + be_bytes(
                    clamped(self.set_r as int),
                ));
            }
            Some(build_frame(CMD_SET_SPEEDS, p.as_slice()))
        } else {
            None
        }
    }

    /// One tick of the task: `true` when the chassis is to be asked for its
    /// speeds and encoders, which is every tenth tick once it is started.
    pub fn tick(&mut self) -> (r: bool)
        ensures
            *final(self) == (Chassis {
                tick: if old(self).tick == u32::MAX {
                    0
                } else {
                    (old(self).tick + 1) as u32
                },
                ..*old(self)
            }),
            r == (final(self).tick % 10 == 0 && old(self).inited),
    {
        self.tick = self.tick.wrapping_add(1);
        self.tick % 10 == 0 && self.inited
    }

    /// Takes in the answer about the encoders.
    pub fn encoder_reply(&mut self, reply: &Option<Frame>)
        ensures
            *final(self) == encoder_told(*old(self), *reply),
    {
        match reply {
            None => {
                self.err = self.err.wrapping_add(1);
            },
            Some(f) => {
                if f.payload.len() >= 8 {
                    self.enc_m1 = be_i32(f.payload.as_slice(), 0);
                    self.enc_m2 = be_i32(f.payload.as_slice(), 4);
                }
            },
        }
    }

    /// Takes in the answer about the speeds. The first answer is owed: where
    /// it is missing or of another kind that counts as a miss. The second is
    /// not.
    pub fn rpm_reply(&mut self, reply: &Option<Frame>, owed: bool)
        ensures
            *final(self) == rpm_told(*old(self), *reply, owed),
    {
        let mut ok = false;
        if let Some(f) = reply {
            if f.cmd == RSP_RPM_DATA {
                ok = true;
                if f.payload.len() >= 3 {
                    let rpm: i32 = be_i16(f.payload.as_slice(), 1) as i32;
                    if f.payload[0] == 0 {
                        self.rpm_r = rpm;
                    } else if f.payload[0] == 1 {
                        self.rpm_l = rpm;
                    }
                }
            }
        }
        if !ok && owed {
            self.err = self.err.wrapping_add(1);
        }
    }

    /// A round of questions is over; whether it got its answers. Only then the
    /// time of the last successful round moves.
    pub fn telemetry_done(&mut self, ok: bool, now_ms: u64)
        ensures
            *final(self) == (if ok {
                Chassis { last_ms: now_ms, ..*old(self) }
            } else {
                *old(self)
            }),
    {
        if ok {
            self.last_ms = now_ms;
        }
    }

    /// One round of telemetry: the answer about the encoders and the two about
    /// the speeds.
    pub fn telemetry(
        &mut self,
        encoder: &Option<Frame>,
        first: &Option<Frame>,
        second: &Option<Frame>,
        now_ms: u64,
    )
        ensures
            *final(self) == ({
                let told = rpm_told(
                    rpm_told(encoder_told(*old(self), *encoder), *first, true),
                    *second,
                    false,
                );
                if answered(*encoder, *first) {
                    Chassis { last_ms: now_ms, ..told }
                } else {
                    told
                }
            }),
    {
        self.encoder_reply(encoder);
        self.rpm_reply(first, true);
        self.rpm_reply(second, false);
        let speeds = match first {
            Some(f) => f.cmd == RSP_RPM_DATA,
            None => false,
        };
        self.telemetry_done(encoder.is_some() && speeds, now_ms);
    }
}

/// A round without a single answer leaves what is known as it was, counts both
/// questions as missed, and does not move the time of the last success.
pub proof fn law_silence_is_no_telemetry(c: Chassis)
    ensures
        !answered(None, None),
        rpm_told(rpm_told(encoder_told(c, None), None, true), None, false) == missed(missed(c)),
        missed(missed(c)).last_ms == c.last_ms,
{
}

/// Carries a start out: two commands, the second only where the first was
/// acknowledged.
#[derive(Debug, Clone, Copy, PartialEq, Eq, Structural)]
pub enum InitStep {
    /// Send the start command and wait for the answer.
    Start,
    /// Send the configuration and wait for the answer.
    Configure,
    /// Done; whether both were acknowledged.
    Done(bool),
}

/// The step after an answer: its command, or `None` where none came.
pub fn init_step(step: InitStep, answer: Option<u8>) -> (r: InitStep)
    ensures
        r == (match step {
            InitStep::Start => if answer == Some(RSP_ACK) {
                InitStep::Configure
            } else {
                InitStep::Done(false)
            },
            InitStep::Configure => InitStep::Done(answer == Some(RSP_ACK)),
            InitStep::Done(ok) => InitStep::Done(ok),
        }),
{
    let ack = match answer {
        Some(c) => c == RSP_ACK,
        None => false,
    };
    match step {
        InitStep::Start => if ack {
            InitStep::Configure
        } else {
            InitStep::Done(false)
        },
        InitStep::Configure => InitStep::Done(ack),
        InitStep::Done(ok) => InitStep::Done(ok),
    }
}

/// Milliseconds between two ticks of the tasks.
pub const TICK_MS: u64 = 10;

/// Milliseconds to wait for the answer to a command of a start.
pub const START_TIMEOUT_MS: u64 = 200;

/// Milliseconds to wait for the answer to a question.
pub const QUERY_TIMEOUT_MS: u64 = 100;

/// Milliseconds to wait for the second answer about the speeds.
pub const SECOND_TIMEOUT_MS: u64 = 50;

/// The frame of the start.
pub fn start_frame() -> (r: Vec<u8>)
    ensures
        r@ == frame_bytes(CMD_INIT, seq![]),
{
    let p: [u8; 0] = [];
    assert(p@ =~= seq![]);
    build_frame(CMD_INIT, p.as_slice())
}

/// The frame that asks for the encoders.
pub fn encoder_query() -> (r: Vec<u8>)
    ensures
        r@ == frame_bytes(CMD_GET_ENCODER, seq![]),
{
    let p: [u8; 0] = [];
    assert(p@ =~= seq![]);
    build_frame(CMD_GET_ENCODER, p.as_slice())
}

/// The frame that asks for the speeds of both sides.
pub fn rpm_query() -> (r: Vec<u8>)
    ensures
        r@ == frame_bytes(CMD_GET_RPM, seq![2u8]),
{
    let p: [u8; 1] = [2];
    assert(p@ =~= seq![2u8]);
    build_frame(CMD_GET_RPM, p.as_slice())
}

/// The frame of the configuration.
pub fn config_frame(ppr: u16, pwm: u16) -> (r: Vec<u8>)
    ensures
        r@ == frame_bytes(
            CMD_CONFIG,
            seq![(ppr / 256) as u8, (ppr % 256) as u8, (pwm / 256) as u8, (pwm % 256) as u8],
        ),
{
    let p: [u8; 4] = [
        (ppr / 256) as u8,
        (ppr % 256) as u8,
        (pwm / 256) as u8,
        (pwm % 256) as u8,
    ];
    proof {
        assert(p@ =~= seq![
            (ppr / 256) as u8,
            (ppr % 256) as u8,
            (pwm / 256) as u8,
            (pwm % 256) as u8,
        ]);
    }
    build_frame(CMD_CONFIG, p.as_slice())
}

/// A command for the arm.
#[derive(Debug, Clone, Copy, PartialEq, Eq, Structural)]
pub enum ArmCmd {
    /// Move a servo to an angle.
    Angle {
        /// The servo.
        servo: u8,
        /// The angle in degrees.
        angle: u16,
    },
    /// Let the servos go, or make them hold again.
    Torque {
        /// Let go.
        release: bool,
    },
    /// Grab, then answer the request.
    Grab {
        /// The request.
        rid: u64,
    },
    /// Open the gripper, then answer the request.
    Release {
        /// The request.
        rid: u64,
    },
}

/// Most commands that wait.
pub const ARM_SLOTS: usize = 8;

/// The commands that wait after one more came: one that finds no room is
/// dropped.
pub open spec fn queued(waiting: Seq<ArmCmd>, cmd: ArmCmd) -> Seq<ArmCmd> {
    if waiting.len() < ARM_SLOTS {
        waiting.push(cmd)
    } else {
        waiting
    }
}

/// The number of dropped commands after one more came, modulo 2^32.
pub open spec fn lost_after(waiting: Seq<ArmCmd>, lost: u32) -> u32 {
    if waiting.len() < ARM_SLOTS {
        lost
    } else if lost == u32::MAX {
        0
    } else {
        (lost + 1) as u32
    }
}

/// Commands that wait for the arm.
pub struct ArmRing {
    slots: [ArmCmd; 8],
    head: usize,
    len: usize,
    dropped: u32,
}

impl View for ArmRing {
    type V = Seq<ArmCmd>;

    /// The commands, oldest first.
    closed spec fn view(&self) -> Seq<ArmCmd> {
        Seq::new(
            self.len as nat,
            |i: int|
                self.slots@[if self.head + i < 8 {
                    self.head + i
                } else {
                    self.head + i - 8
                }],
        )
    }
}

impl ArmRing {
    /// No more wait than there are slots.
    pub closed spec fn wf(&self) -> bool {
        self.head < 8 && self.len <= 8
    }

    /// Commands that were dropped, modulo 2^32.
    pub closed spec fn lost(&self) -> u32 {
        self.dropped
    }

    /// Nothing waits.
    pub fn new() -> (r: ArmRing)
        ensures
            r.wf(),
            r@ == Seq::<ArmCmd>::empty(),
            r.lost() == 0,
    {
        let r = ArmRing {
            slots: [ArmCmd::Torque { release: false };8],
            head: 0,
            len: 0,
            dropped: 0,
        };
        proof {
            assert(r@ =~= Seq::<ArmCmd>::empty());
        }
        r
    }

    /// Adds a command. `false` when there is no room: the command is then
    /// dropped and counted.
    pub fn push(&mut self, cmd: ArmCmd) -> (r: bool)
        requires
            old(self).wf(),
        ensures
            final(self).wf(),
            r == (old(self)@.len() < ARM_SLOTS),
            final(self)@ == (if r {
                old(self)@.push(cmd)
            } else {
                old(self)@
            }),
            final(self).lost() == lost_after(old(self)@, old(self).lost()),
    {
        if self.len >= 8 {
            self.dropped = self.dropped.wrapping_add(1);
            return false;
        }
        let at: usize = if self.head + self.len < 8 {
            self.head + self.len
        } else {
            self.head + self.len - 8
        };
        self.slots[at] = cmd;
        self.len = self.len + 1;
        proof {
            assert(self@ =~= old(self)@.push(cmd));
        }
        true
    }

    /// Takes the oldest command.
    pub fn pop(&mut self) -> (r: Option<ArmCmd>)
        requires
            old(self).wf(),
        ensures
            final(self).wf(),
            final(self).lost() == old(self).lost(),
            r == (if old(self)@.len() > 0 {
                Some(old(self)@[0])
            } else {
                None
            }),
            final(self)@ == (if old(self)@.len() > 0 {
                old(self)@.skip(1)
            } else {
                old(self)@
            }),
    {
        if self.len == 0 {
            return None;
        }
        let cmd = self.slots[self.head];
        self.head = if self.head == 7 {
            0
        } else {
            self.head + 1
        };
        self.len = self.len - 1;
        proof {
            assert(self@ =~= old(self)@.skip(1));
        }
        Some(cmd)
    }

    /// Moves a servo; a command that finds no room is dropped.
    pub fn arm_set_angle(&mut self, servo: u8, angle: u16)
        requires
            old(self).wf(),
        ensures
            final(self).wf(),
            final(self)@ == queued(old(self)@, ArmCmd::Angle { servo, angle }),
            final(self).lost() == lost_after(old(self)@, old(self).lost()),
    {
        let _ = self.push(ArmCmd::Angle { servo, angle });
    }

    /// Lets the servos go (any number but 0) or makes them hold again.
    pub fn arm_torque(&mut self, release: u8)
        requires
            old(self).wf(),
        ensures
            final(self).wf(),
            final(self)@ == queued(old(self)@, ArmCmd::Torque { release: release != 0 }),
            final(self).lost() == lost_after(old(self)@, old(self).lost()),
    {
        let _ = self.push(ArmCmd::Torque { release: release != 0 });
    }

    /// Grabs. Where there is no room, the command is dropped and the request is
    /// refused with all ones.
    pub fn arm_grab(&mut self, shm: &mut SharedMemory<3>, rid: u64, _nonce: u32) -> (r: Admission)
        requires
            old(self).wf(),
            old(shm).wf(),
        ensures
            final(self).wf(),
            final(shm).wf(),
            (r, final(shm)@) == admission(old(shm)@, rid, old(self)@.len() < ARM_SLOTS),
            final(self)@ == queued(old(self)@, ArmCmd::Grab { rid }),
            final(self).lost() == lost_after(old(self)@, old(self).lost()),
    {
        let room = self.push(ArmCmd::Grab { rid });
        accept_or_refuse(shm, rid, room)
    }

    /// Opens the gripper. Where there is no room, the command is dropped and the
    /// request is refused with all ones.
    pub fn arm_release(&mut self, shm: &mut SharedMemory<3>, rid: u64, _nonce: u32) -> (r:
        Admission)
        requires
            old(self).wf(),
            old(shm).wf(),
        ensures
            final(self).wf(),
            final(shm).wf(),
            (r, final(shm)@) == admission(old(shm)@, rid, old(self)@.len() < ARM_SLOTS),
            final(self)@ == queued(old(self)@, ArmCmd::Release { rid }),
            final(self).lost() == lost_after(old(self)@, old(self).lost()),
    {
        let room = self.push(ArmCmd::Release { rid });
        accept_or_refuse(shm, rid, room)
    }

    /// The number of commands that were dropped, modulo 2^32.
    pub fn arm_dropped(&self) -> (r: u32)
        ensures
            r == self.lost(),
    {
        self.dropped
    }
}

/// One step of carrying a command out, as a mathematical value.
#[verifier::ext_equal]
pub enum Step {
    /// Send a line.
    Send(Seq<u8>),
    /// Wait for so many milliseconds.
    Sleep(u64),
    /// Answer the request with the number.
    Respond(u64, u32),
}

/// One step of carrying a command out.
#[derive(Debug)]
pub enum ArmStep {
    /// Send a line.
    Send(Vec<u8>),
    /// Wait for so many milliseconds.
    Sleep(u64),
    /// Answer the request with the number.
    Respond(u64, u32),
}

impl View for ArmStep {
    type V = Step;

    open spec fn view(&self) -> Step {
        match self {
            ArmStep::Send(l) => Step::Send(l@),
            ArmStep::Sleep(ms) => Step::Sleep(*ms),
            ArmStep::Respond(rid, v) => Step::Respond(*rid, *v),
        }
    }
}

/// The steps of a command.
pub open spec fn steps(cmd: ArmCmd) -> Seq<Step> {
    match cmd {
        ArmCmd::Angle { servo, angle } => seq![Step::Send(angle_line(servo, angle))],
        ArmCmd::Torque { release } => seq![
            Step::Send(
                if release {
                    seq![35u8, 50u8, 53u8, 53u8, 80u8, 85u8, 76u8, 75u8]
                } else {
                    seq![35u8, 50u8, 53u8, 53u8, 80u8, 85u8, 76u8, 82u8]
                },
            ),
        ],
        ArmCmd::Grab { rid } => seq![
            Step::Send(angle_line(2, GRIPPER_OPEN)),
            Step::Sleep(500),
            Step::Send(angle_line(0, POSE_GRAB_S0)),
            Step::Send(angle_line(1, POSE_GRAB_S1)),
            Step::Sleep(1000),
            Step::Send(angle_line(2, GRIPPER_CLOSE)),
            Step::Sleep(2000),
            Step::Send(angle_line(0, POSE_LIFT_S0)),
            Step::Send(angle_line(1, POSE_LIFT_S1)),
            Step::Respond(rid, 0),
        ],
        ArmCmd::Release { rid } => seq![
            Step::Send(angle_line(2, GRIPPER_OPEN)),
            Step::Sleep(500),
            Step::Respond(rid, 0),
        ],
    }
}

/// The steps of a command, in order.
pub fn arm_steps(cmd: ArmCmd) -> (r: Vec<ArmStep>)
    ensures
        r@.len() == steps(cmd).len(),
        forall|i: int| 0 <= i < r@.len() ==> (#[trigger] r@[i])@ == steps(cmd)[i],
{
    let mut out: Vec<ArmStep> = Vec::new();
    match cmd {
        ArmCmd::Angle { servo, angle } => {
            out.push(ArmStep::Send(angle_cmd(servo, angle)));
        },
        ArmCmd::Torque { release } => {
            out.push(
                ArmStep::Send(
                    if release {
                        torque_release()
                    } else {
                        torque_restore()
                    },
                ),
            );
        },
        ArmCmd::Grab { rid } => {
            out.push(ArmStep::Send(angle_cmd(2, GRIPPER_OPEN)));
            out.push(ArmStep::Sleep(500));
            out.push(ArmStep::Send(angle_cmd(0, POSE_GRAB_S0)));
            out.push(ArmStep::Send(angle_cmd(1, POSE_GRAB_S1)));
            out.push(ArmStep::Sleep(1000));
            out.push(ArmStep::Send(angle_cmd(2, GRIPPER_CLOSE)));
            out.push(ArmStep::Sleep(2000));
            out.push(ArmStep::Send(angle_cmd(0, POSE_LIFT_S0)));
            out.push(ArmStep::Send(angle_cmd(1, POSE_LIFT_S1)));
            out.push(ArmStep::Respond(rid, 0));
        },
        ArmCmd::Release { rid } => {
            out.push(ArmStep::Send(angle_cmd(2, GRIPPER_OPEN)));
            out.push(ArmStep::Sleep(500));
            out.push(ArmStep::Respond(rid, 0));
        },
    }
    out
}

/// Every command that answers a request does so once, as its last step.
pub proof fn law_answer_comes_last(cmd: ArmCmd, i: int)
    requires
        0 <= i < steps(cmd).len(),
    ensures
        steps(cmd)[i] is Respond ==> i == steps(cmd).len() - 1,
        (cmd is Grab || cmd is Release) ==> steps(cmd).last() is Respond,
        (cmd is Angle || cmd is Torque) ==> steps(cmd)[i] is Send,
{
}

/// Answers a request that was accepted earlier; `true` when the doorbell of
/// the other core is due.
pub fn respond(shm: &mut SharedMemory<3>, rid: u64, result: u32) -> (r: bool)
    requires
        old(shm).wf(),
    ensures
        final(shm).wf(),
        (r, final(shm)@) == answer_sent(old(shm)@, rid, result),
{
    proof {
        crate::varint::lemma_pow128_words();
        crate::varint::lemma_varint_len(result as nat, 10);
    }
    match Message::response(rid, &result) {
        Ok(msg) => send_message(shm, &msg),
        Err(_) => false,
    }
}

/// The answer to a request that was accepted earlier comes out of the response
/// channel after all responses that were waiting there, and the caller reads the
/// result from it.
pub proof fn law_late_answer_arrives(w: Window, rid: u64, result: u32)
    requires
        w.channels.len() == 3,
        w.channels[1].valid(),
        whole(w.channels[1].queue),
        w.channels[1].queue.len() < CHANNEL_CAPACITY - 1,
    ensures
        ({
            let (sent, after) = answer_sent(w, rid, result);
            let e = arrived(rid, u32::wire(result));
            &&& sent
            &&& whole(after.channels[1].queue)
            &&& entries(after.channels[1].queue) == entries(w.channels[1].queue).push(e)
            &&& e.rid == rid
            &&& result_of::<u32>(e) == Some(result)
        }),
{
    broadcast use crate::bytes::lemma_le_len;

    crate::varint::lemma_pow128_words();
    crate::varint::lemma_varint_len(result as nat, 10);
    let data = response_bytes(rid, u32::wire(result));
    assert(data.len() <= 255);
    assert(answer_sent(w, rid, result).1.channels[1] == response_sent(w.channels[1], data).1);
    law_response_arrives(w.channels[1], rid, u32::wire(result));
    law_result_arrives::<u32>(rid, result);
}

/// A request that is refused is answered once, at once and with all ones, where
/// the response channel has room: the answer comes out of it after all responses
/// that were waiting there.
pub proof fn law_refusal_is_told(w: Window, rid: u64)
    requires
        w.channels.len() == 3,
        w.channels[1].valid(),
        whole(w.channels[1].queue),
        w.channels[1].queue.len() < CHANNEL_CAPACITY - 1,
    ensures
        ({
            let (r, after) = admission(w, rid, false);
            let e = arrived(rid, u32::wire(u32::MAX));
            &&& r == (Admission::Refused { doorbell: true })
            &&& whole(after.channels[1].queue)
            &&& entries(after.channels[1].queue) == entries(w.channels[1].queue).push(e)
            &&& e.rid == rid
            &&& result_of::<u32>(e) == Some(u32::MAX)
        }),
{
    law_late_answer_arrives(w, rid, u32::MAX);
}

} // verus!
