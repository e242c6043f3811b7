//! The serving end of remote calls.

use crate::bytes;
use crate::channel::{Chan, ChannelId, SendError, Sender};
use crate::descriptor::PROTOCOL_VERSION;
use crate::message::{Message, Msg, MsgType, PAYLOAD_SIZE};
use crate::rpc::{
    is_one_way, notifies, one_way, strip_flags, stripped, wants_notify, MethodId, CHANNEL_REQ,
    CHANNEL_RESP, CHANNEL_URGENT, METHOD_INIT,
};
use crate::shm::{SharedMemory, Window};
use crate::stream::MAX_STREAM_LEN;
use crate::wire::Wire;
use vstd::prelude::*;

verus! {

/// Why a handler could not answer a request.
#[derive(Debug, Clone, Copy, PartialEq, Eq, Structural)]
pub enum RpcError {
    /// The method is known but its arguments cannot be read.
    DeserializeFailed,
    /// The result takes more than [`RESPONSE_DATA_MAX`] bytes.
    ResponseTooLarge,
}

impl RpcError {
    /// The error in words.
    pub fn describe(&self) -> (r: &'static str)
        ensures
            r@ == (match self {
                RpcError::DeserializeFailed => "request deserialization failed"@,
                RpcError::ResponseTooLarge => "response exceeds message size limit"@,
            }),
    {
        match self {
            RpcError::DeserializeFailed => "request deserialization failed",
            RpcError::ResponseTooLarge => "response exceeds message size limit",
        }
    }
}

/// Most bytes that a result can take: a frame less the request number.
pub const RESPONSE_DATA_MAX: usize = 2028;

/// The bytes of a response: the request number and the result.
pub open spec fn response_bytes(rid: u64, result: Seq<u8>) -> Seq<u8> {
    bytes::le(rid as nat, 8) + result
}

/// Holds the bytes of a response until it is sent.
pub struct Response {
    data: Vec<u8>,
}

impl View for Response {
    type V = Seq<u8>;

    closed spec fn view(&self) -> Seq<u8> {
        self.data@
    }
}

impl Response {
    /// Nothing written yet.
    pub fn empty() -> (r: Response)
        ensures
            r@ == Seq::<u8>::empty(),
    {
        Response { data: Vec::new() }
    }

    /// Writes the response to request `rid` with the given result. Fails, and
    /// writes nothing, when the result takes more than [`RESPONSE_DATA_MAX`]
    /// bytes.
    pub fn write<T: Wire>(&mut self, rid: u64, result: &T) -> (r: Result<(), RpcError>)
        ensures
            match r {
                Ok(()) => T::wire(result@).len() <= RESPONSE_DATA_MAX && final(self)@
                    == response_bytes(rid, T::wire(result@)),
                Err(e) => T::wire(result@).len() > RESPONSE_DATA_MAX && final(self)@ == old(self)@
                    && e == RpcError::ResponseTooLarge,
            },
    {
        let mut data: Vec<u8> = Vec::new();
        bytes::put_u64_le(&mut data, rid);
        result.put(&mut data);
        proof {
            broadcast use bytes::lemma_le_len;

            assert(data@ =~= response_bytes(rid, T::wire(result@)));
        }
        if data.len() > MAX_STREAM_LEN {
            return Err(RpcError::ResponseTooLarge);
        }
        self.data = data;
        Ok(())
    }

    /// Writes the response to request `rid` whose result bytes are given.
    pub fn write_raw(&mut self, rid: u64, result: &[u8]) -> (r: Result<(), RpcError>)
        ensures
            match r {
                Ok(()) => result@.len() <= RESPONSE_DATA_MAX && final(self)@ == response_bytes(
                    rid,
                    result@,
                ),
                Err(e) => result@.len() > RESPONSE_DATA_MAX && final(self)@ == old(self)@ && e
                    == RpcError::ResponseTooLarge,
            },
    {
        if result.len() > RESPONSE_DATA_MAX {
            return Err(RpcError::ResponseTooLarge);
        }
        let mut data: Vec<u8> = Vec::new();
        bytes::put_u64_le(&mut data, rid);
        data.extend_from_slice(result);
        proof {
            assert(data@ =~= response_bytes(rid, result@));
        }
        self.data = data;
        Ok(())
    }

    /// The bytes written.
    pub fn bytes(&self) -> (r: &[u8])
        ensures
            r@ == self@,
    {
        self.data.as_slice()
    }

    /// The request number, where a response has been written.
    pub fn rid(&self) -> (r: Option<u64>)
        ensures
            r == (if self@.len() >= 8 {
                Some(bytes::from_le(self@.take(8)) as u64)
            } else {
                None
            }),
    {
        if self.data.len() >= 8 {
            proof {
                assert(self@.subrange(0, 8) =~= self@.take(8));
            }
            Some(bytes::get_u64_le(self.data.as_slice(), 0))
        } else {
            None
        }
    }

    /// The number of bytes written.
    pub fn len(&self) -> (r: usize)
        ensures
            r == self@.len(),
    {
        self.data.len()
    }

    /// Always `false`: a response holds at least a request number. The method
    /// is there because [`Response::len`] is.
    pub fn is_empty(&self) -> (r: bool)
        ensures
            r == false,
    {
        false
    }
}

/// What a handler did with a request.
#[derive(Debug, Clone, Copy, PartialEq, Eq, Structural)]
pub enum Reply {
    /// There is no response: the call was one-way, or the method is unknown.
    Silent,
    /// The call is accepted; whoever completes it sends the response.
    Deferred,
    /// The response has been written.
    Written,
}

/// How an attempt to send response bytes on `c` ends, and the channel after
/// it: up to one payload as a plain message, more as a frame.
pub open spec fn response_sent(c: Chan, data: Seq<u8>) -> (Result<(), SendError>, Chan) {
    if data.len() <= PAYLOAD_SIZE {
        c.send_raw(MsgType::Response.spec_code(), data)
    } else {
        c.send_stream(MsgType::Response.spec_code(), data)
    }
}

/// Sends a response, as a plain message where it fits in one payload and as a
/// frame where not.
pub fn send_response(tx: &mut Sender<'_>, resp: &Response) -> (r: Result<(), SendError>)
    requires
        old(tx).target().wf(),
    ensures
        *final(final(tx).target()) == *final(old(tx).target()),
        final(tx).target().wf(),
        (r, final(tx).target()@) == response_sent(old(tx).target()@, resp@),
{
    let kind: u8 = MsgType::Response.code();
    if resp.len() <= PAYLOAD_SIZE {
        tx.try_send_raw(kind, resp.bytes())
    } else {
        tx.try_send_stream(kind, resp.bytes())
    }
}

/// The message that answers request `rid` where there is no result: a response
/// whose result bytes are all `0xFF`.
pub open spec fn poison(rid: u64) -> Msg {
    Msg {
        kind: MsgType::Response.spec_code(),
        payload: bytes::le(rid as nat, 8) + Seq::new(247, |i: int| 0xFFu8),
    }
}

/// The message that answers request `rid` where there is no result.
fn poison_response(rid: u64) -> (r: Message)
    ensures
        r@ == poison(rid),
{
    broadcast use bytes::lemma_le_len;

    let mut b: Vec<u8> = Vec::new();
    bytes::put_u64_le(&mut b, rid);
    let ghost head = b@;
    let mut fill: Vec<u8> = Vec::new();
    fill.resize(247, 0xFF);
    b.append(&mut fill);
    proof {
        assert(head =~= bytes::le(rid as nat, 8));
        assert(b@ =~= poison(rid).payload);
        assert(crate::message::pad(b@) =~= poison(rid).payload);
    }
    Message::padded(MsgType::Response.code(), b.as_slice())
}

/// Answers requests.
pub trait RpcHandler: Sized {
    /// What may come out of a call of [`RpcHandler::handle`]: from the handler
    /// before the call, the method and the message, the handler after it, the
    /// response bytes and the result. A handler that says nothing of itself may
    /// do anything.
    open spec fn handled(
        pre: Self,
        method: MethodId,
        msg: Msg,
        post: Self,
        out: Seq<u8>,
        r: Result<Reply, RpcError>,
    ) -> bool {
        true
    }

    /// The bytes of the service's table of methods; one without methods where
    /// the service offers none.
    open spec fn described(&self) -> Seq<u8> {
        seq![PROTOCOL_VERSION, 1u8, 0u8]
    }

    /// Answers the request `msg` for `method`, which has no flags. A response
    /// is written into `out`.
    fn handle(&mut self, method: MethodId, msg: Message, out: &mut Response) -> (r: Result<
        Reply,
        RpcError,
    >)
        ensures
            Self::handled(*old(self), method, msg@, *final(self), final(out)@, r),
    ;

    /// The table of methods.
    fn descriptor(&self) -> (r: Vec<u8>)
        ensures
            r@ == self.described(),
    ;
}

/// The table without methods.
pub fn empty_descriptor() -> (r: Vec<u8>)
    ensures
        r@ == seq![PROTOCOL_VERSION, 1u8, 0u8],
        crate::descriptor::parsed(r@) == Some(Seq::<crate::descriptor::Method>::empty()),
{
    let r: Vec<u8> = vec![PROTOCOL_VERSION, 1u8, 0u8];
    proof {
        let ms = Seq::<crate::descriptor::Method>::empty();
        assert(crate::descriptor::entries_bytes(ms) =~= Seq::<u8>::empty());
        assert(crate::descriptor::body_bytes(ms) =~= seq![0u8]);
        assert(crate::descriptor::table_bytes(ms) + Seq::<u8>::empty() =~= r@);
        crate::descriptor::law_table_round_trip(ms, Seq::empty());
    }
    r
}

/// How a request was handled.
#[derive(Debug, Clone, Copy, PartialEq, Eq, Structural)]
pub enum HandledKind {
    /// With a response and a doorbell.
    Notify,
    /// With a response, now or later, and no doorbell.
    Quiet,
    /// With no response.
    OneWay,
}

/// What became of one message.
#[derive(Debug)]
pub enum ProcessResult {
    /// There was none.
    NoMessage,
    /// It was a request, and it was handled.
    Handled(HandledKind),
    /// It was a request for the given method, and it was refused.
    Unhandled(MethodId),
    /// It was no request; it is the caller's.
    NotRpc(Message),
}

/// What became of one message, as a mathematical value.
#[verifier::ext_equal]
pub enum Processed {
    /// There was none.
    NoMessage,
    /// It was a request, and it was handled.
    Handled(HandledKind),
    /// It was a request for the given method, and it was refused.
    Unhandled(MethodId),
    /// It was no request.
    NotRpc(Msg),
}

impl View for ProcessResult {
    type V = Processed;

    open spec fn view(&self) -> Processed {
        match self {
            ProcessResult::NoMessage => Processed::NoMessage,
            ProcessResult::Handled(k) => Processed::Handled(*k),
            ProcessResult::Unhandled(m) => Processed::Unhandled(*m),
            ProcessResult::NotRpc(m) => Processed::NotRpc(m@),
        }
    }
}

/// What a server works on: the window and the count of failed responses.
#[verifier::ext_equal]
pub struct Served {
    /// The window.
    pub window: Window,
    /// Responses that could not be sent, modulo 2^64.
    pub fails: u64,
}

/// One more failure.
pub open spec fn bumped(fails: u64) -> u64 {
    if fails == u64::MAX {
        0
    } else {
        (fails + 1) as u64
    }
}

impl Served {
    /// After an attempt to send on channel `ch` that ended as `end` says.
    pub open spec fn sent(self, ch: u8, end: (Result<(), SendError>, Chan)) -> Served {
        Served {
            window: self.window.with(ch as int, end.1),
            fails: if end.0 is Err {
                bumped(self.fails)
            } else {
                self.fails
            },
        }
    }

    /// After sending the response bytes `data` on channel `ch`, where there is
    /// such a channel.
    pub open spec fn responded(self, ch: u8, data: Seq<u8>) -> Served {
        if ch < 3 {
            self.sent(ch, response_sent(self.window.channels[ch as int], data))
        } else {
            self
        }
    }

    /// After refusing request `rid` on channel `ch`, where there is such a
    /// channel.
    pub open spec fn refused(self, ch: u8, rid: u64) -> Served {
        if ch < 3 {
            self.sent(ch, self.window.channels[ch as int].send(seq![poison(rid)]))
        } else {
            self
        }
    }
}

/// What becomes of a discovery request, and the server's state after it.
pub open spec fn discovered(s: Served, resp_ch: u8, rid: u64, raw: u64, table: Seq<u8>) -> (
    Processed,
    Served,
) {
    if table.len() <= RESPONSE_DATA_MAX {
        (
            Processed::Handled(
                if notifies(raw) {
                    HandledKind::Notify
                } else {
                    HandledKind::Quiet
                },
            ),
            if one_way(raw) {
                s
            } else {
                s.responded(resp_ch, response_bytes(rid, table))
            },
        )
    } else {
        (
            Processed::Unhandled(stripped(raw)),
            if one_way(raw) {
                s
            } else {
                s.refused(resp_ch, rid)
            },
        )
    }
}

/// What becomes of a request that the handler answered with `r` and the
/// response bytes `out`, and the server's state after it.
pub open spec fn concluded(
    s: Served,
    resp_ch: u8,
    rid: u64,
    raw: u64,
    out: Seq<u8>,
    r: Result<Reply, RpcError>,
) -> (Processed, Served) {
    match r {
        Ok(Reply::Written) => if one_way(raw) {
            (Processed::Handled(HandledKind::OneWay), s)
        } else if notifies(raw) {
            (Processed::Handled(HandledKind::Notify), s.responded(resp_ch, out))
        } else {
            (Processed::Handled(HandledKind::Quiet), s.responded(resp_ch, out))
        },
        Ok(Reply::Deferred) => (Processed::Handled(HandledKind::Quiet), s),
        Ok(Reply::Silent) => if one_way(raw) {
            (Processed::Handled(HandledKind::OneWay), s)
        } else {
            (Processed::Unhandled(stripped(raw)), s.refused(resp_ch, rid))
        },
        Err(e) => (
            Processed::Unhandled(stripped(raw)),
            if one_way(raw) {
                s
            } else {
                s.refused(resp_ch, rid)
            },
        ),
    }
}

/// Whether a message can be taken from channel `ch`.
pub open spec fn can_take(w: Window, ch: u8) -> bool {
    ch < 3 && w.channels[ch as int].valid() && w.channels[ch as int].queue.len() > 0
}

/// The window after a message is taken from channel `ch`.
pub open spec fn without_head(w: Window, ch: u8) -> Window {
    let c = w.channels[ch as int];
    w.with(ch as int, c.with(c.queue.skip(1)))
}

/// What may come out of processing one message of channel `ch`.
pub open spec fn processed<H: RpcHandler>(
    ch: u8,
    resp_ch: u8,
    s0: Served,
    h0: H,
    s1: Served,
    h1: H,
    r: Processed,
) -> bool {
    if !can_take(s0.window, ch) {
        r == Processed::NoMessage && s1 == s0 && h1 == h0
    } else {
        let m = s0.window.channels[ch as int].queue[0];
        let s = Served { window: without_head(s0.window, ch), fails: s0.fails };
        match m.method_id() {
            None => r == Processed::NotRpc(m) && s1 == s && h1 == h0,
            Some(raw) => {
                let rid = m.request_id().unwrap();
                if stripped(raw) == METHOD_INIT {
                    (r, s1) == discovered(s, resp_ch, rid, raw, h0.described()) && h1 == h0
                } else {
                    exists|out: Seq<u8>, reply: Result<Reply, RpcError>|
                        #[trigger] H::handled(h0, stripped(raw), m, h1, out, reply) && (r, s1)
                            == concluded(s, resp_ch, rid, raw, out, reply)
                }
            },
        }
    }
}

/// Is told what [`RpcServer::process_all`] leaves to its caller, as soon as it
/// is due.
pub trait Attendant: Sized {
    /// What may come out of a call of [`Attendant::on_notify`]: from the
    /// attendant before the call and the window at that moment, the attendant
    /// after it. One that says nothing of itself may do anything.
    open spec fn rung(pre: Self, window: Window, post: Self) -> bool {
        true
    }

    /// What may come out of a call of [`Attendant::on_other`]: from the
    /// attendant before the call and the message, the attendant after it.
    open spec fn passed(pre: Self, msg: Msg, post: Self) -> bool {
        true
    }

    /// Rings the client's doorbell. The response is in the window already.
    fn on_notify(&mut self, shm: &SharedMemory<3>)
        requires
            shm.wf(),
        ensures
            Self::rung(*old(self), shm@, *final(self)),
    ;

    /// Looks at a message that is no request.
    fn on_other(&mut self, msg: Message)
        ensures
            Self::passed(*old(self), msg@, *final(self)),
    ;
}

/// What an attendant is told after a message was processed with result `p`,
/// which left the window as `window`.
pub open spec fn attended<A: Attendant>(a0: A, p: Processed, window: Window, a1: A) -> bool {
    match p {
        Processed::Handled(HandledKind::Notify) => A::rung(a0, window, a1),
        Processed::NotRpc(m) => A::passed(a0, m, a1),
        _ => a1 == a0,
    }
}

/// An attendant that counts the doorbells and keeps the messages.
#[derive(Debug)]
pub struct Notes {
    /// Doorbells, modulo 2^64.
    pub bells: u64,
    /// Messages that are no requests, in order.
    pub others: Vec<Message>,
}

/// The messages, as mathematical values.
pub open spec fn views(msgs: Seq<Message>) -> Seq<Msg> {
    msgs.map_values(|m: Message| m@)
}

impl Notes {
    /// Nothing yet.
    pub fn new() -> (r: Notes)
        ensures
            r.bells == 0,
            r.others@ == Seq::<Message>::empty(),
    {
        Notes { bells: 0, others: Vec::new() }
    }
}

impl Attendant for Notes {
    open spec fn rung(pre: Notes, window: Window, post: Notes) -> bool {
        &&& post.bells == (if pre.bells == u64::MAX {
            0
        } else {
            (pre.bells + 1) as u64
        })
        &&& views(post.others@) == views(pre.others@)
    }

    open spec fn passed(pre: Notes, msg: Msg, post: Notes) -> bool {
        &&& post.bells == pre.bells
        &&& views(post.others@) == views(pre.others@).push(msg)
    }

    fn on_notify(&mut self, shm: &SharedMemory<3>) {
        self.bells = self.bells.wrapping_add(1);
    }

    fn on_other(&mut self, msg: Message) {
        self.others.push(msg);
        proof {
            assert(views(self.others@) =~= views(old(self).others@).push(msg@));
        }
    }
}

/// The number of requests handled among the given results.
pub open spec fn handled_count(log: Seq<Processed>) -> nat
    decreases log.len(),
{
    if log.len() == 0 {
        0
    } else {
        handled_count(log.drop_last()) + (if log.last() is Handled {
            1nat
        } else {
            0
        })
    }
}

/// The states of a server, its handler and its attendant, one after the other,
/// while it processes the messages of channel `ch` with the results in `log`,
/// until none is left. The attendant is told of each result before the next
/// message is taken.
pub open spec fn drained<H: RpcHandler, A: Attendant>(
    ch: u8,
    resp_ch: u8,
    states: Seq<(Served, H, A)>,
    log: Seq<Processed>,
) -> bool {
    &&& states.len() == log.len() + 1
    &&& forall|i: int|
        0 <= i < log.len() ==> (#[trigger] log[i]) !is NoMessage && stepped(
            ch,
            resp_ch,
            states[i],
            log[i],
            states[i + 1],
        )
    &&& !can_take(states.last().0.window, ch)
}

/// One message is processed, and the attendant is told of it.
pub open spec fn stepped<H: RpcHandler, A: Attendant>(
    ch: u8,
    resp_ch: u8,
    s0: (Served, H, A),
    p: Processed,
    s1: (Served, H, A),
) -> bool {
    &&& processed(ch, resp_ch, s0.0, s0.1, s1.0, s1.1, p)
    &&& attended(s0.2, p, s1.0.window, s1.2)
}

/// The doorbells that are due for the given results.
pub open spec fn bells_due(log: Seq<Processed>) -> nat
    decreases log.len(),
{
    if log.len() == 0 {
        0
    } else {
        bells_due(log.drop_last()) + (if log.last() == Processed::Handled(HandledKind::Notify) {
            1nat
        } else {
            0
        })
    }
}

/// The messages that are no requests among the given results.
pub open spec fn others_of(log: Seq<Processed>) -> Seq<Msg>
    decreases log.len(),
{
    if log.len() == 0 {
        Seq::empty()
    } else {
        match log.last() {
            Processed::NotRpc(m) => others_of(log.drop_last()).push(m),
            _ => others_of(log.drop_last()),
        }
    }
}

proof fn lemma_notes<H: RpcHandler>(
    ch: u8,
    resp_ch: u8,
    states: Seq<(Served, H, Notes)>,
    log: Seq<Processed>,
    k: int,
)
    requires
        drained(ch, resp_ch, states, log),
        0 <= k <= log.len(),
    ensures
        states[k].2.bells == (states[0].2.bells + bells_due(log.take(k)))
            % 0x1_0000_0000_0000_0000,
        views(states[k].2.others@) == views(states[0].2.others@) + others_of(log.take(k)),
    decreases k,
{
    if k > 0 {
        lemma_notes(ch, resp_ch, states, log, k - 1);
        assert(log.take(k).drop_last() =~= log.take(k - 1));
        assert(log[k - 1] !is NoMessage);
        assert(stepped(ch, resp_ch, states[k - 1], log[k - 1], states[k - 1 + 1]));
    }
    assert(views(states[k].2.others@) =~= views(states[0].2.others@) + others_of(log.take(k)));
}

/// Every answered call that asks for a doorbell rings it once, and every message
/// that is no request is handed over, in order.
pub proof fn law_nothing_goes_untold<H: RpcHandler>(
    ch: u8,
    resp_ch: u8,
    states: Seq<(Served, H, Notes)>,
    log: Seq<Processed>,
)
    requires
        drained(ch, resp_ch, states, log),
    ensures
        states.last().2.bells == (states[0].2.bells + bells_due(log)) % 0x1_0000_0000_0000_0000,
        views(states.last().2.others@) == views(states[0].2.others@) + others_of(log),
{
    lemma_notes(ch, resp_ch, states, log, log.len() as int);
    assert(log.take(log.len() as int) =~= log);
}

/// A bound on the messages still to be processed: a request counts nine times,
/// since its response takes at most eight messages.
pub open spec fn load(q: Seq<Msg>) -> nat
    decreases q.len(),
{
    if q.len() == 0 {
        0
    } else {
        load(q.drop_last()) + (if q.last().kind == 2 {
            9nat
        } else {
            1
        })
    }
}

/// The load of two queues adds up.
proof fn lemma_load_add(a: Seq<Msg>, b: Seq<Msg>)
    ensures
        load(a + b) == load(a) + load(b),
    decreases b.len(),
{
    if b.len() == 0 {
        assert(a + b =~= a);
    } else {
        lemma_load_add(a, b.drop_last());
        assert((a + b).drop_last() =~= a + b.drop_last());
    }
}

/// Messages that are no requests weigh one each.
proof fn lemma_load_plain(q: Seq<Msg>)
    requires
        forall|i: int| 0 <= i < q.len() ==> (#[trigger] q[i]).kind != 2,
    ensures
        load(q) == q.len(),
    decreases q.len(),
{
    if q.len() > 0 {
        lemma_load_plain(q.drop_last());
    }
}

/// No message weighs more than nine.
proof fn lemma_load_bound(q: Seq<Msg>)
    ensures
        load(q) <= 9 * q.len(),
    decreases q.len(),
{
    if q.len() > 0 {
        lemma_load_bound(q.drop_last());
    }
}

/// What an answer adds to the response channel weighs at most eight.
proof fn lemma_answer_load(c: Chan, data: Seq<u8>, rid: u64)
    ensures
        load(response_sent(c, data).1.queue) <= load(c.queue) + 8,
        load(c.send(seq![poison(rid)]).1.queue) <= load(c.queue) + 8,
{
    broadcast use bytes::lemma_le_len;

    let one = seq![poison(rid)];
    lemma_load_add(c.queue, one);
    lemma_load_plain(one);
    if data.len() <= PAYLOAD_SIZE {
        let m = seq![Msg { kind: 3, payload: crate::message::pad(data) }];
        lemma_load_add(c.queue, m);
        lemma_load_plain(m);
    } else if data.len() <= MAX_STREAM_LEN {
        let ms = crate::stream::chain(3, crate::stream::frame(data));
        assert(ms.len() <= 8);
        lemma_load_add(c.queue, ms);
        lemma_load_plain(ms);
    }
}

/// Processing a message lightens its channel.
proof fn lemma_progress<H: RpcHandler>(
    ch: u8,
    resp_ch: u8,
    s0: Served,
    h0: H,
    s1: Served,
    h1: H,
    r: Processed,
)
    requires
        processed(ch, resp_ch, s0, h0, s1, h1, r),
        r !is NoMessage,
        s0.window.channels.len() == 3,
    ensures
        ch < 3,
        s1.window.channels.len() == 3,
        load(s1.window.channels[ch as int].queue) < load(s0.window.channels[ch as int].queue),
{
    let q = s0.window.channels[ch as int].queue;
    let m = q[0];
    assert(q =~= seq![m] + q.skip(1));
    lemma_load_add(seq![m], q.skip(1));
    reveal_with_fuel(load, 2);
    assert(seq![m].drop_last() =~= Seq::<Msg>::empty());
    assert(seq![m].last() == m);
    assert(load(seq![m]) == (if m.kind == 2 {
        9nat
    } else {
        1
    }));
    if let Some(raw) = m.method_id() {
        let rid = m.request_id().unwrap();
        let s = Served { window: without_head(s0.window, ch), fails: s0.fails };
        if resp_ch < 3 {
            let c = s.window.channels[resp_ch as int];
            if stripped(raw) == METHOD_INIT {
                lemma_answer_load(c, response_bytes(rid, h0.described()), rid);
            } else {
                let (out, reply) = choose|out: Seq<u8>, reply: Result<Reply, RpcError>|
                    #[trigger] H::handled(h0, stripped(raw), m, h1, out, reply) && (r, s1)
                        == concluded(s, resp_ch, rid, raw, out, reply);
                lemma_answer_load(c, out, rid);
            }
        }
    }
}

/// The serving end of remote calls on a window of three channels.
pub struct RpcServer {
    shm_addr: usize,
    req_ch: ChannelId,
    resp_ch: ChannelId,
    urgent_ch: ChannelId,
    resp_send_fails: u64,
}

impl RpcServer {
    /// The address of the window.
    pub closed spec fn spec_shm_addr(&self) -> usize {
        self.shm_addr
    }

    /// The channel of ordinary requests.
    pub closed spec fn req(&self) -> u8 {
        self.req_ch.spec_get()
    }

    /// The channel of responses.
    pub closed spec fn resp(&self) -> u8 {
        self.resp_ch.spec_get()
    }

    /// The channel of urgent requests.
    pub closed spec fn urgent(&self) -> u8 {
        self.urgent_ch.spec_get()
    }

    /// Responses that could not be sent.
    pub closed spec fn fails(&self) -> u64 {
        self.resp_send_fails
    }

    /// The server is the same but for the count of failures.
    pub open spec fn same_but_fails(&self, other: &RpcServer) -> bool {
        &&& self.spec_shm_addr() == other.spec_shm_addr()
        &&& self.req() == other.req()
        &&& self.resp() == other.resp()
        &&& self.urgent() == other.urgent()
    }

    /// The server and its window.
    pub open spec fn on(&self, w: Window) -> Served {
        Served { window: w, fails: self.fails() }
    }

    /// A server for the window at `shm_addr`, on the usual channels.
    pub fn new(shm_addr: usize) -> (r: RpcServer)
        ensures
            r.spec_shm_addr() == shm_addr,
            r.req() == CHANNEL_REQ,
            r.resp() == CHANNEL_RESP,
            r.urgent() == CHANNEL_URGENT,
            r.fails() == 0,
    {
        RpcServer::with_channels(
            shm_addr,
            ChannelId::new(CHANNEL_REQ),
            ChannelId::new(CHANNEL_RESP),
            ChannelId::new(CHANNEL_URGENT),
        )
    }

    /// A server for the window at `shm_addr`, on the given channels.
    pub fn with_channels(
        shm_addr: usize,
        req_ch: ChannelId,
        resp_ch: ChannelId,
        urgent_ch: ChannelId,
    ) -> (r: RpcServer)
        ensures
            r.spec_shm_addr() == shm_addr,
            r.req() == req_ch.spec_get(),
            r.resp() == resp_ch.spec_get(),
            r.urgent() == urgent_ch.spec_get(),
            r.fails() == 0,
    {
        RpcServer { shm_addr, req_ch, resp_ch, urgent_ch, resp_send_fails: 0 }
    }

    /// The address of the window.
    pub fn shm_addr(&self) -> (r: usize)
        ensures
            r == self.spec_shm_addr(),
    {
        self.shm_addr
    }

    /// The number of responses that could not be sent, modulo 2^64.
    pub fn resp_send_fails(&self) -> (r: u64)
        ensures
            r == self.fails(),
    {
        self.resp_send_fails
    }

    /// Sends the response and counts a failure.
    fn respond(&mut self, shm: &mut SharedMemory<3>, resp: &Response)
        requires
            old(shm).wf(),
        ensures
            final(shm).wf(),
            final(self).same_but_fails(old(self)),
            final(self).on(final(shm)@) == old(self).on(old(shm)@).responded(
                old(self).resp(),
                resp@,
            ),
    {
        let failed = match shm.sender(self.resp_ch) {
            Ok(mut tx) => send_response(&mut tx, resp).is_err(),
            Err(_) => false,
        };
        if failed {
            self.resp_send_fails = self.resp_send_fails.wrapping_add(1);
        }
    }

    /// Refuses request `rid` and counts a failure.
    fn refuse(&mut self, shm: &mut SharedMemory<3>, rid: u64)
        requires
            old(shm).wf(),
        ensures
            final(shm).wf(),
            final(self).same_but_fails(old(self)),
            final(self).on(final(shm)@) == old(self).on(old(shm)@).refused(old(self).resp(), rid),
    {
        let failed = match shm.sender(self.resp_ch) {
            Ok(mut tx) => tx.try_send(&poison_response(rid)).is_err(),
            Err(_) => false,
        };
        if failed {
            self.resp_send_fails = self.resp_send_fails.wrapping_add(1);
        }
    }

    /// Answers the discovery request `rid`, whose method number with its flags
    /// is `raw`, with the table of methods.
    pub fn discover(
        &mut self,
        shm: &mut SharedMemory<3>,
        rid: u64,
        raw: MethodId,
        table: &[u8],
    ) -> (r: ProcessResult)
        requires
            old(shm).wf(),
        ensures
            final(shm).wf(),
            final(self).same_but_fails(old(self)),
            (r@, final(self).on(final(shm)@)) == discovered(
                old(self).on(old(shm)@),
                old(self).resp(),
                rid,
                raw,
                table@,
            ),
    {
        let mut resp = Response::empty();
        match resp.write_raw(rid, table) {
            Ok(()) => {
                if !is_one_way(raw) {
                    self.respond(shm, &resp);
                }
                ProcessResult::Handled(
                    if wants_notify(raw) {
                        HandledKind::Notify
                    } else {
                        HandledKind::Quiet
                    },
                )
            },
            Err(_) => {
                if !is_one_way(raw) {
                    self.refuse(shm, rid);
                }
                ProcessResult::Unhandled(strip_flags(raw))
            },
        }
    }

    /// Finishes request `rid`, whose method number with its flags is `raw`,
    /// after the handler answered it with `outcome` and wrote `resp`.
    pub fn conclude(
        &mut self,
        shm: &mut SharedMemory<3>,
        rid: u64,
        raw: MethodId,
        resp: &Response,
        outcome: Result<Reply, RpcError>,
    ) -> (r: ProcessResult)
        requires
            old(shm).wf(),
        ensures
            final(shm).wf(),
            final(self).same_but_fails(old(self)),
            (r@, final(self).on(final(shm)@)) == concluded(
                old(self).on(old(shm)@),
                old(self).resp(),
                rid,
                raw,
                resp@,
                outcome,
            ),
    {
        match outcome {
            Ok(Reply::Written) => {
                if is_one_way(raw) {
                    return ProcessResult::Handled(HandledKind::OneWay);
                }
                self.respond(shm, resp);
                ProcessResult::Handled(
                    if wants_notify(raw) {
                        HandledKind::Notify
                    } else {
                        HandledKind::Quiet
                    },
                )
            },
            Ok(Reply::Deferred) => ProcessResult::Handled(HandledKind::Quiet),
            Ok(Reply::Silent) => {
                if is_one_way(raw) {
                    return ProcessResult::Handled(HandledKind::OneWay);
                }
                self.refuse(shm, rid);
                ProcessResult::Unhandled(strip_flags(raw))
            },
            Err(_) => {
                if !is_one_way(raw) {
                    self.refuse(shm, rid);
                }
                ProcessResult::Unhandled(strip_flags(raw))
            },
        }
    }

    /// Processes one message of channel `ch`.
    fn process_channel<H: RpcHandler>(
        &mut self,
        shm: &mut SharedMemory<3>,
        handler: &mut H,
        ch: ChannelId,
    ) -> (r: ProcessResult)
        requires
            old(shm).wf(),
        ensures
            final(shm).wf(),
            final(self).same_but_fails(old(self)),
            processed(
                ch.spec_get(),
                old(self).resp(),
                old(self).on(old(shm)@),
                *old(handler),
                final(self).on(final(shm)@),
                *final(handler),
                r@,
            ),
    {
        proof {
            shm.lemma_count();
            let i = ch.spec_get() as int;
            if i < 3 {
                assert(shm@.channels.update(i, shm@.channels[i]) =~= shm@.channels);
            }
        }
        let taken = match shm.receiver(ch) {
            Ok(mut rx) => rx.try_recv(),
            Err(_) => None,
        };
        let msg = match taken {
            Some(m) => m,
            None => return ProcessResult::NoMessage,
        };
        let raw: u64 = match msg.method_id() {
            Some(x) => x,
            None => return ProcessResult::NotRpc(msg),
        };
        let rid: u64 = match msg.request_id() {
            Some(x) => x,
            None => 0,
        };
        let method: u64 = strip_flags(raw);
        if method == METHOD_INIT {
            let table = handler.descriptor();
            return self.discover(shm, rid, raw, table.as_slice());
        }
        let mut resp = Response::empty();
        let outcome = handler.handle(method, msg, &mut resp);
        proof {
            assert(H::handled(*old(handler), method, msg@, *handler, resp@, outcome));
        }
        self.conclude(shm, rid, raw, &resp, outcome)
    }

    /// Processes one message of the urgent channel.
    pub fn process_urgent<H: RpcHandler>(
        &mut self,
        shm: &mut SharedMemory<3>,
        handler: &mut H,
    ) -> (r: ProcessResult)
        requires
            old(shm).wf(),
        ensures
            final(shm).wf(),
            final(self).same_but_fails(old(self)),
            processed(
                old(self).urgent(),
                old(self).resp(),
                old(self).on(old(shm)@),
                *old(handler),
                final(self).on(final(shm)@),
                *final(handler),
                r@,
            ),
    {
        let ch = self.urgent_ch;
        self.process_channel(shm, handler, ch)
    }

    /// Processes one message of the request channel.
    pub fn process_one<H: RpcHandler>(
        &mut self,
        shm: &mut SharedMemory<3>,
        handler: &mut H,
    ) -> (r: ProcessResult)
        requires
            old(shm).wf(),
        ensures
            final(shm).wf(),
            final(self).same_but_fails(old(self)),
            processed(
                old(self).req(),
                old(self).resp(),
                old(self).on(old(shm)@),
                *old(handler),
                final(self).on(final(shm)@),
                *final(handler),
                r@,
            ),
    {
        let ch = self.req_ch;
        self.process_channel(shm, handler, ch)
    }

    /// Processes the messages of channel `ch` until none is left.
    fn drain<H: RpcHandler, A: Attendant>(
        &mut self,
        shm: &mut SharedMemory<3>,
        handler: &mut H,
        attendant: &mut A,
        ch: ChannelId,
        count: &mut usize,
    ) -> (trace: Ghost<(Seq<(Served, H, A)>, Seq<Processed>)>)
        requires
            old(shm).wf(),
            *old(count) <= 0x1000,
        ensures
            final(shm).wf(),
            final(self).same_but_fails(old(self)),
            ({
                let (states, log) = trace@;
                &&& drained(ch.spec_get(), old(self).resp(), states, log)
                &&& states[0] == (old(self).on(old(shm)@), *old(handler), *old(attendant))
                &&& states.last() == (final(self).on(final(shm)@), *final(handler), *final(attendant))
                &&& *final(count) == *old(count) + handled_count(log)
                &&& handled_count(log) <= 9 * 127
            }),
    {
        let ghost mut states: Seq<(Served, H, A)> = seq![(self.on(shm@), *handler, *attendant)];
        let ghost mut log: Seq<Processed> = Seq::empty();
        let ghost c = ch.spec_get();
        proof {
            shm.lemma_count();
            if c < 3 {
                lemma_load_bound(shm@.channels[c as int].queue);
            }
        }
        loop
            invariant
                shm.wf(),
                c == ch.spec_get(),
                self.same_but_fails(old(self)),
                states.len() == log.len() + 1,
                forall|i: int|
                    0 <= i < log.len() ==> (#[trigger] log[i]) !is NoMessage && stepped(
                        c,
                        old(self).resp(),
                        states[i],
                        log[i],
                        states[i + 1],
                    ),
                states[0] == (old(self).on(old(shm)@), *old(handler), *old(attendant)),
                states.last() == (self.on(shm@), *handler, *attendant),
                *count == *old(count) + handled_count(log),
                *old(count) <= 0x1000,
                handled_count(log) <= log.len(),
                c >= 3 ==> log.len() == 0,
                c < 3 ==> log.len() + load(shm@.channels[c as int].queue) <= 9 * 127,
            ensures
                shm.wf(),
                self.same_but_fails(old(self)),
                drained(c, old(self).resp(), states, log),
                states[0] == (old(self).on(old(shm)@), *old(handler), *old(attendant)),
                states.last() == (self.on(shm@), *handler, *attendant),
                *count == *old(count) + handled_count(log),
                handled_count(log) <= log.len() <= 9 * 127,
            decreases
                    (if c < 3 {
                        load(shm@.channels[c as int].queue)
                    } else {
                        0
                    }),
        {
            let ghost s0 = (self.on(shm@), *handler, *attendant);
            proof {
                shm.lemma_count();
            }
            let result = self.process_channel(shm, handler, ch);
            let ghost p = result@;
            proof {
                if p is NoMessage {
                    assert(!can_take(s0.0.window, c));
                } else {
                    lemma_progress(c, self.resp(), s0.0, s0.1, self.on(shm@), *handler, p);
                }
            }
            match result {
                ProcessResult::NoMessage => {
                    break;
                },
                ProcessResult::Handled(kind) => {
                    *count = *count + 1;
                    if kind == HandledKind::Notify {
                        attendant.on_notify(shm);
                    }
                },
                ProcessResult::Unhandled(_) => {},
                ProcessResult::NotRpc(m) => {
                    attendant.on_other(m);
                },
            }
            proof {
                let s1 = (self.on(shm@), *handler, *attendant);
                let next = log.push(p);
                assert(stepped(c, self.resp(), s0, p, s1));
                assert(next.drop_last() =~= log);
                assert forall|i: int| 0 <= i < next.len() implies (#[trigger] next[i])
                    !is NoMessage && stepped(
                    c,
                    self.resp(),
                    states.push(s1)[i],
                    next[i],
                    states.push(s1)[i + 1],
                ) by {
                    if i < log.len() {
                        assert(next[i] == log[i]);
                    }
                }
                log = next;
                states = states.push(s1);
            }
        }
        Ghost((states, log))
    }

    /// Processes every urgent message, then every ordinary one. The attendant is
    /// told right after each message; returned is the number of requests that
    /// were handled.
    pub fn process_all<H: RpcHandler, A: Attendant>(
        &mut self,
        shm: &mut SharedMemory<3>,
        handler: &mut H,
        attendant: &mut A,
    ) -> (r: usize)
        requires
            old(shm).wf(),
        ensures
            final(shm).wf(),
            final(self).same_but_fails(old(self)),
            exists|
                u: (Seq<(Served, H, A)>, Seq<Processed>),
                o: (Seq<(Served, H, A)>, Seq<Processed>),
            |
                {
                    &&& #[trigger] drained(old(self).urgent(), old(self).resp(), u.0, u.1)
                    &&& #[trigger] drained(old(self).req(), old(self).resp(), o.0, o.1)
                    &&& u.0[0] == (old(self).on(old(shm)@), *old(handler), *old(attendant))
                    &&& o.0[0] == u.0.last()
                    &&& o.0.last() == (final(self).on(final(shm)@), *final(handler), *final(attendant))
                    &&& r == handled_count(u.1) + handled_count(o.1)
                },
    {
        let mut count: usize = 0;
        let urgent_ch = self.urgent_ch;
        let req_ch = self.req_ch;
        let u = self.drain(shm, handler, attendant, urgent_ch, &mut count);
        let o = self.drain(shm, handler, attendant, req_ch, &mut count);
        count
    }

    /// Whether an urgent message waits.
    pub fn has_urgent(&self, shm: &SharedMemory<3>) -> (r: bool)
        requires
            shm.wf(),
        ensures
            r == can_take(shm@, self.urgent()),
    {
        self.urgent_ch.get() < 3 && shm.channel_unchecked(self.urgent_ch).has_pending()
    }

    /// Whether an ordinary message waits.
    pub fn has_pending(&self, shm: &SharedMemory<3>) -> (r: bool)
        requires
            shm.wf(),
        ensures
            r == can_take(shm@, self.req()),
    {
        self.req_ch.get() < 3 && shm.channel_unchecked(self.req_ch).has_pending()
    }
}

/// A one-way request is never answered, not even when it is refused.
pub proof fn law_one_way_is_silent(
    s: Served,
    resp_ch: u8,
    rid: u64,
    raw: u64,
    out: Seq<u8>,
    r: Result<Reply, RpcError>,
)
    requires
        one_way(raw),
    ensures
        concluded(s, resp_ch, rid, raw, out, r).1 == s,
        discovered(s, resp_ch, rid, raw, out).1 == s,
{
}

/// A request that is accepted for later is not answered now, and in particular
/// not refused.
pub proof fn law_deferred_is_silent(s: Served, resp_ch: u8, rid: u64, raw: u64, out: Seq<u8>)
    ensures
        concluded(s, resp_ch, rid, raw, out, Ok(Reply::Deferred)) == (
            Processed::Handled(HandledKind::Quiet),
            s,
        ),
{
}

/// A request that wants an answer gets one, whatever the handler did but to
/// defer it: its response, or a refusal that bears its number.
pub proof fn law_every_call_is_answered(
    s: Served,
    resp_ch: u8,
    rid: u64,
    raw: u64,
    out: Seq<u8>,
    r: Result<Reply, RpcError>,
)
    requires
        !one_way(raw),
        r != Ok::<Reply, RpcError>(Reply::Deferred),
    ensures
        r == Ok::<Reply, RpcError>(Reply::Written) ==> concluded(
            s,
            resp_ch,
            rid,
            raw,
            out,
            r,
        ).1 == s.responded(resp_ch, out),
        r != Ok::<Reply, RpcError>(Reply::Written) ==> concluded(s, resp_ch, rid, raw, out, r) == (
            Processed::Unhandled(stripped(raw)),
            s.refused(resp_ch, rid),
        ),
{
}

/// Processing a message takes it from its channel; where responses have a
/// channel of their own, nothing else changes there, and the channels that are
/// neither stay as they are.
pub proof fn law_processing_takes_one<H: RpcHandler>(
    ch: u8,
    resp_ch: u8,
    s0: Served,
    h0: H,
    s1: Served,
    h1: H,
    r: Processed,
)
    requires
        processed(ch, resp_ch, s0, h0, s1, h1, r),
        s0.window.channels.len() == 3,
        ch != resp_ch,
        r !is NoMessage,
    ensures
        s1.window.channels.len() == 3,
        s1.window.busy == s0.window.busy,
        s1.window.channels[ch as int].queue == s0.window.channels[ch as int].queue.skip(1),
        forall|i: int|
            0 <= i < 3 && i != ch && i != resp_ch ==> s1.window.channels[i]
                == s0.window.channels[i],
{
}

} // verus!
