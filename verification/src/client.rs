//! The calling end of remote calls.

use crate::bytes;
use crate::channel::{Chan, ChannelId, SendError, CHANNEL_CAPACITY};
use crate::message::{Message, Msg, MsgType, REQUEST_ARGS_MAX};
use crate::rpc::{
    MethodId, RequestId, CHANNEL_REQ, CHANNEL_RESP, CHANNEL_URGENT, METHOD_INIT, NOTIFY_FLAG,
    ONE_WAY_FLAG,
};
use crate::server::{poison, response_bytes};
use crate::shm::{SharedMemory, Window};
use crate::stream::{self, unframe, unit, unit_len, whole, RecvOutcome, Unit};
use crate::wire::{PingReply, Wire};
use vstd::prelude::*;
use vstd::slice::slice_subrange;

verus! {

/// Why a response gave no result.
#[derive(Debug, Clone, Copy, PartialEq, Eq, Structural)]
pub enum RecvError {
    /// There was a response, but no result of the wanted type could be read
    /// from it. The response is gone.
    DeserializeFailed,
}

/// Most responses that are buffered.
pub const BUF_CAP: usize = 8;

/// Numbers the requests.
pub struct RequestIds {
    next: RequestId,
}

impl RequestIds {
    /// The number of the next request.
    pub closed spec fn upcoming(&self) -> RequestId {
        self.next
    }

    /// Starts at 1.
    pub fn new() -> (r: RequestIds)
        ensures
            r.upcoming() == 1,
    {
        RequestIds { next: 1 }
    }

    /// A number for a request. After the largest, numbering starts again at 0.
    pub fn take(&mut self) -> (r: RequestId)
        ensures
            r == old(self).upcoming(),
            final(self).upcoming() == following(r),
    {
        let r: u64 = self.next;
        self.next = r.wrapping_add(1);
        r
    }
}

/// The request number after `rid`.
pub open spec fn following(rid: RequestId) -> RequestId {
    if rid == u64::MAX {
        0
    } else {
        (rid + 1) as u64
    }
}

/// The number of the request that comes `n` after request `rid`.
pub open spec fn nth_after(rid: RequestId, n: nat) -> RequestId
    decreases n,
{
    if n == 0 {
        rid
    } else {
        following(nth_after(rid, (n - 1) as nat))
    }
}

proof fn lemma_nth_after(rid: RequestId, n: nat)
    ensures
        nth_after(rid, n) == (rid + n) % 0x1_0000_0000_0000_0000,
    decreases n,
{
    if n > 0 {
        lemma_nth_after(rid, (n - 1) as nat);
    }
}

/// Two requests of one numbering carry different numbers, unless all the
/// numbers of 64 bits were used between them.
pub proof fn law_request_ids_are_unique(rid: RequestId, i: nat, j: nat)
    requires
        i < j,
        j - i < 0x1_0000_0000_0000_0000,
    ensures
        nth_after(rid, i) != nth_after(rid, j),
{
    lemma_nth_after(rid, i);
    lemma_nth_after(rid, j);
}

/// A response as a mathematical value.
#[verifier::ext_equal]
pub struct Entry {
    /// The request number.
    pub rid: RequestId,
    /// The result bytes.
    pub data: Seq<u8>,
}

/// A response in the buffer.
struct RespEntry {
    rid: RequestId,
    data: Vec<u8>,
}

impl View for RespEntry {
    type V = Entry;

    closed spec fn view(&self) -> Entry {
        Entry { rid: self.rid, data: self.data@ }
    }
}

/// The response that a unit of the response channel holds, if any: a plain
/// message that is part of a remote call, or a frame of a response with a
/// request number.
pub open spec fn entry_of(u: Unit) -> Option<Entry> {
    match u {
        Unit::Single(m) => match m.request_id() {
            Some(rid) => Some(Entry { rid, data: m.payload.skip(8) }),
            None => None,
        },
        Unit::Multi(kind, b) => if kind != MsgType::Response.spec_code() {
            None
        } else {
            match unframe(b) {
                Some(d) => if d.len() >= 8 {
                    Some(Entry { rid: bytes::from_le(d.take(8)) as u64, data: d.skip(8) })
                } else {
                    None
                },
                None => None,
            }
        },
    }
}

/// The responses in a queue, up to blocks that form no frame.
pub open spec fn entries(q: Seq<Msg>) -> Seq<Entry>
    decreases q.len(),
{
    if q.len() == 0 {
        Seq::empty()
    } else {
        match unit_len(q) {
            None => Seq::empty(),
            Some(n) => {
                let rest = entries(q.skip(n as int));
                match entry_of(unit(q, n)) {
                    Some(e) => seq![e] + rest,
                    None => rest,
                }
            },
        }
    }
}

/// The buffer and the queue after polling: units are taken while the buffer
/// has room, the queue is not empty and its blocks form a unit.
pub open spec fn polled(buf: Seq<Entry>, q: Seq<Msg>) -> (Seq<Entry>, Seq<Msg>)
    decreases q.len(),
{
    if buf.len() >= BUF_CAP || q.len() == 0 {
        (buf, q)
    } else {
        match unit_len(q) {
            None => (buf, q),
            Some(n) => match entry_of(unit(q, n)) {
                Some(e) => polled(buf.push(e), q.skip(n as int)),
                None => polled(buf, q.skip(n as int)),
            },
        }
    }
}

/// A request that was sent.
#[derive(Debug, Clone, Copy, PartialEq, Eq, Structural)]
pub struct Ticket {
    /// The request number.
    pub rid: RequestId,
    /// The server may be asleep: ring its doorbell.
    pub doorbell: bool,
}

/// How an attempt to send a request on channel `ch` ends, and the window after
/// it.
pub open spec fn requested(w: Window, ch: u8, rid: u64, mid: u64, args: Seq<u8>) -> (
    Result<Ticket, SendError>,
    Window,
) {
    if args.len() > REQUEST_ARGS_MAX || ch >= 3 {
        (Err(SendError::Invalid), w)
    } else {
        let (r, c) = w.channels[ch as int].send(seq![Msg::request(rid, mid, args)]);
        (
            match r {
                Ok(()) => Ok(Ticket { rid, doorbell: !w.busy }),
                Err(e) => Err(e),
            },
            w.with(ch as int, c),
        )
    }
}

/// The first buffered response to request `rid`.
pub open spec fn found_at(buf: Seq<Entry>, rid: RequestId, i: int) -> bool {
    &&& 0 <= i < buf.len()
    &&& buf[i].rid == rid
    &&& forall|j: int| 0 <= j < i ==> (#[trigger] buf[j]).rid != rid
}

/// No buffered response answers request `rid`.
pub open spec fn not_found(buf: Seq<Entry>, rid: RequestId) -> bool {
    forall|j: int| 0 <= j < buf.len() ==> (#[trigger] buf[j]).rid != rid
}

/// The result that a response gives when read as a `T`.
pub open spec fn result_of<T: Wire>(e: Entry) -> Option<T::V> {
    match T::unwire(e.data) {
        Some((v, n)) => Some(v),
        None => None,
    }
}

/// The result `r` of receiving `e` as a `T`.
pub open spec fn received<T: Wire>(e: Entry, r: Result<Option<T>, RecvError>) -> bool {
    match result_of::<T>(e) {
        Some(v) => r matches Ok(Some(x)) && x@ == v,
        None => r is Err && r->Err_0 == RecvError::DeserializeFailed,
    }
}

/// The calling end of remote calls on a window of three channels.
pub struct RpcClient {
    shm_addr: usize,
    req_ch: ChannelId,
    resp_ch: ChannelId,
    urgent_ch: ChannelId,
    buf: Vec<RespEntry>,
}

impl RpcClient {
    /// The address of the window.
    pub closed spec fn spec_shm_addr(&self) -> usize {
        self.shm_addr
    }

    /// The channel of ordinary requests.
    pub closed spec fn req(&self) -> u8 {
        self.req_ch.spec_get()
    }

    /// The channel of responses.
    pub closed spec fn resp(&self) -> u8 {
        self.resp_ch.spec_get()
    }

    /// The channel of urgent requests.
    pub closed spec fn urgent_channel(&self) -> u8 {
        self.urgent_ch.spec_get()
    }

    /// The buffered responses.
    pub closed spec fn buf(&self) -> Seq<Entry> {
        Seq::new(self.buf@.len(), |i: int| self.buf@[i]@)
    }

    /// No more responses are buffered than there is room for.
    pub open spec fn wf(&self) -> bool {
        self.buf().len() <= BUF_CAP
    }

    /// The client is the same but for its buffer.
    pub open spec fn same_but_buf(&self, other: &RpcClient) -> bool {
        &&& self.spec_shm_addr() == other.spec_shm_addr()
        &&& self.req() == other.req()
        &&& self.resp() == other.resp()
        &&& self.urgent_channel() == other.urgent_channel()
    }

    /// A client for the window at `shm_addr`, on the usual channels.
    pub fn new(shm_addr: usize) -> (r: RpcClient)
        ensures
            r.wf(),
            r.buf() == Seq::<Entry>::empty(),
            r.spec_shm_addr() == shm_addr,
            r.req() == CHANNEL_REQ,
            r.resp() == CHANNEL_RESP,
            r.urgent_channel() == CHANNEL_URGENT,
    {
        RpcClient::with_channels(
            shm_addr,
            ChannelId::new(CHANNEL_REQ),
            ChannelId::new(CHANNEL_RESP),
            ChannelId::new(CHANNEL_URGENT),
        )
    }

    /// A client for the window at `shm_addr`, on the given channels.
    pub fn with_channels(
        shm_addr: usize,
        req_ch: ChannelId,
        resp_ch: ChannelId,
        urgent_ch: ChannelId,
    ) -> (r: RpcClient)
        ensures
            r.wf(),
            r.buf() == Seq::<Entry>::empty(),
            r.spec_shm_addr() == shm_addr,
            r.req() == req_ch.spec_get(),
            r.resp() == resp_ch.spec_get(),
            r.urgent_channel() == urgent_ch.spec_get(),
    {
        let r = RpcClient { shm_addr, req_ch, resp_ch, urgent_ch, buf: Vec::new() };
        proof {
            assert(r.buf() =~= Seq::<Entry>::empty());
        }
        r
    }

    /// The address of the window.
    pub fn shm_addr(&self) -> (r: usize)
        ensures
            r == self.spec_shm_addr(),
    {
        self.shm_addr
    }

    /// Sends a request on channel `ch` and says whether the doorbell is due.
    fn send_request<Args: Wire>(
        &self,
        shm: &mut SharedMemory<3>,
        ids: &mut RequestIds,
        method_id: u64,
        args: &Args,
        ch: ChannelId,
    ) -> (r: Result<Ticket, SendError>)
        requires
            old(shm).wf(),
        ensures
            final(shm).wf(),
            final(ids).upcoming() == following(old(ids).upcoming()),
            (r, final(shm)@) == requested(
                old(shm)@,
                ch.spec_get(),
                old(ids).upcoming(),
                method_id,
                Args::wire(args@),
            ),
    {
        let rid: u64 = ids.take();
        let busy: bool = shm.is_busy();
        let msg = match Message::request(rid, method_id, args) {
            Ok(m) => m,
            Err(_) => return Err(SendError::Invalid),
        };
        let sent = match shm.sender(ch) {
            Ok(mut tx) => tx.try_send(&msg),
            Err(_) => Err(SendError::Invalid),
        };
        match sent {
            Ok(()) => Ok(Ticket { rid, doorbell: !busy }),
            Err(e) => Err(e),
        }
    }

    /// Calls a method; the server rings back when it has answered.
    pub fn call<Args: Wire>(
        &self,
        shm: &mut SharedMemory<3>,
        ids: &mut RequestIds,
        method_id: MethodId,
        args: &Args,
    ) -> (r: Result<Ticket, SendError>)
        requires
            old(shm).wf(),
        ensures
            final(shm).wf(),
            final(ids).upcoming() == following(old(ids).upcoming()),
            (r, final(shm)@) == requested(
                old(shm)@,
                self.req(),
                old(ids).upcoming(),
                method_id | NOTIFY_FLAG,
                Args::wire(args@),
            ),
    {
        self.send_request(shm, ids, method_id | NOTIFY_FLAG, args, self.req_ch)
    }

    /// Calls a method; the caller polls for the answer.
    pub fn call_poll<Args: Wire>(
        &self,
        shm: &mut SharedMemory<3>,
        ids: &mut RequestIds,
        method_id: MethodId,
        args: &Args,
    ) -> (r: Result<Ticket, SendError>)
        requires
            old(shm).wf(),
        ensures
            final(shm).wf(),
            final(ids).upcoming() == following(old(ids).upcoming()),
            (r, final(shm)@) == requested(
                old(shm)@,
                self.req(),
                old(ids).upcoming(),
                method_id,
                Args::wire(args@),
            ),
    {
        self.send_request(shm, ids, method_id, args, self.req_ch)
    }

    /// Calls a method that gives no answer.
    pub fn send<Args: Wire>(
        &self,
        shm: &mut SharedMemory<3>,
        ids: &mut RequestIds,
        method_id: MethodId,
        args: &Args,
    ) -> (r: Result<Ticket, SendError>)
        requires
            old(shm).wf(),
        ensures
            final(shm).wf(),
            final(ids).upcoming() == following(old(ids).upcoming()),
            (r, final(shm)@) == requested(
                old(shm)@,
                self.req(),
                old(ids).upcoming(),
                method_id | ONE_WAY_FLAG,
                Args::wire(args@),
            ),
    {
        self.send_request(shm, ids, method_id | ONE_WAY_FLAG, args, self.req_ch)
    }

    /// Calls a method that gives no answer, ahead of ordinary requests.
    pub fn urgent<Args: Wire>(
        &self,
        shm: &mut SharedMemory<3>,
        ids: &mut RequestIds,
        method_id: MethodId,
        args: &Args,
    ) -> (r: Result<Ticket, SendError>)
        requires
            old(shm).wf(),
        ensures
            final(shm).wf(),
            final(ids).upcoming() == following(old(ids).upcoming()),
            (r, final(shm)@) == requested(
                old(shm)@,
                self.urgent_channel(),
                old(ids).upcoming(),
                method_id | ONE_WAY_FLAG,
                Args::wire(args@),
            ),
    {
        self.send_request(shm, ids, method_id | ONE_WAY_FLAG, args, self.urgent_ch)
    }

    /// Asks for the server's table of methods.
    pub fn discover(&self, shm: &mut SharedMemory<3>, ids: &mut RequestIds) -> (r: Result<
        Ticket,
        SendError,
    >)
        requires
            old(shm).wf(),
        ensures
            final(shm).wf(),
            final(ids).upcoming() == following(old(ids).upcoming()),
            (r, final(shm)@) == requested(
                old(shm)@,
                self.req(),
                old(ids).upcoming(),
                METHOD_INIT | NOTIFY_FLAG,
                Seq::empty(),
            ),
    {
        self.call(shm, ids, METHOD_INIT, &())
    }

    /// Takes responses from the channel into the buffer, as long as it has
    /// room, and returns how many were added. What is left stays queued for
    /// the next time; messages that are part of no remote call are dropped.
    pub fn poll_responses(&mut self, shm: &mut SharedMemory<3>) -> (count: usize)
        requires
            old(self).wf(),
            old(shm).wf(),
        ensures
            final(self).wf(),
            final(shm).wf(),
            final(self).same_but_buf(old(self)),
            ({
                let ch = old(self).resp() as int;
                let w = old(shm)@;
                if ch < 3 && w.channels[ch].valid() {
                    let (buf, q) = polled(old(self).buf(), w.channels[ch].queue);
                    &&& final(self).buf() == buf
                    &&& final(shm)@ == w.with(ch, w.channels[ch].with(q))
                } else {
                    &&& final(self).buf() == old(self).buf()
                    &&& final(shm)@ == w
                }
            }),
            count == final(self).buf().len() - old(self).buf().len(),
    {
        let ghost ch = self.resp() as int;
        let ghost w = shm@;
        proof {
            shm.lemma_count();
            if ch < 3 {
                assert(w.channels.update(ch, w.channels[ch]) =~= w.channels);
            }
        }
        let resp_ch = self.resp_ch;
        let mut count: usize = 0;
        match shm.receiver(resp_ch) {
            Ok(mut rx) => {
                let ghost c0 = rx.target()@;
                let ghost b0 = self.buf();
                let ghost end = rx.target();
                loop
                    invariant
                        self.wf(),
                        self.same_but_buf(old(self)),
                        rx.target().wf(),
                        *final(rx.target()) == *final(end),
                        rx.target()@ == c0.with(rx.target()@.queue),
                        c0.valid() ==> polled(b0, c0.queue) == polled(
                            self.buf(),
                            rx.target()@.queue,
                        ),
                        !c0.valid() ==> self.buf() == b0 && rx.target()@.queue == c0.queue,
                        b0.len() <= BUF_CAP,
                        count == self.buf().len() - b0.len(),
                    ensures
                        self.wf(),
                        self.same_but_buf(old(self)),
                        rx.target().wf(),
                        *final(rx.target()) == *final(end),
                        count == self.buf().len() - b0.len(),
                        rx.target()@ == c0.with(rx.target()@.queue),
                        c0.valid() ==> polled(b0, c0.queue) == (self.buf(), rx.target()@.queue),
                        !c0.valid() ==> self.buf() == b0 && rx.target()@.queue == c0.queue,
                    decreases rx.target()@.queue.len(),
                {
                    if self.buf.len() >= BUF_CAP {
                        break;
                    }
                    let ghost before = *self;
                    let ghost q = rx.target()@.queue;
                    match rx.channel.try_recv_unit() {
                        Ok(None) => {
                            break;
                        },
                        Err(_) => {
                            break;
                        },
                        Ok(Some(RecvOutcome::Single(m))) => {
                            match m.request_id() {
                                None => {},
                                Some(rid) => {
                                    let tail = slice_subrange(m.payload_bytes(), 8, 255);
                                    let mut data: Vec<u8> = Vec::new();
                                    data.extend_from_slice(tail);
                                    let e = RespEntry { rid, data };
                                    proof {
                                        assert(data@ =~= m@.payload.skip(8));
                                    }
                                    self.buf.push(e);
                                    count = count + 1;
                                    proof {
                                        assert(self.buf() =~= before.buf().push(e@));
                                    }
                                },
                            }
                        },
                        Ok(Some(RecvOutcome::Multi(mm))) => {
                            if mm.kind() == MsgType::Response.code() {
                                if let Some(d) = stream::decode(mm.payload()) {
                                    if d.len() >= 8 {
                                        proof {
                                            assert(d@.subrange(0, 8) =~= d@.take(8));
                                        }
                                        let rid: u64 = bytes::get_u64_le(d, 0);
                                        let tail = slice_subrange(d, 8, d.len());
                                        let mut data: Vec<u8> = Vec::new();
                                        data.extend_from_slice(tail);
                                        let e = RespEntry { rid, data };
                                        proof {
                                            assert(data@ =~= d@.skip(8));
                                        }
                                        self.buf.push(e);
                                        count = count + 1;
                                        proof {
                                            assert(self.buf() =~= before.buf().push(e@));
                                        }
                                    }
                                }
                            }
                        },
                    }
                }
            },
            Err(_) => {},
        }
        count
    }

    /// The oldest buffered response, as a `T`. The response is removed from the
    /// buffer whether or not it could be read.
    pub fn recv<T: Wire>(&mut self) -> (r: Result<Option<T>, RecvError>)
        requires
            old(self).wf(),
        ensures
            final(self).wf(),
            final(self).same_but_buf(old(self)),
            old(self).buf().len() == 0 ==> final(self).buf() == old(self).buf() && r == Ok::<
                Option<T>,
                RecvError,
            >(None),
            old(self).buf().len() > 0 ==> final(self).buf() == old(self).buf().skip(1)
                && received::<T>(old(self).buf()[0], r),
    {
        if self.buf.len() == 0 {
            return Ok(None);
        }
        let ghost before = self.buf();
        let e = self.buf.remove(0);
        proof {
            assert(self.buf() =~= before.skip(1));
            assert(e@.data.skip(0) =~= e@.data);
        }
        match T::take(e.data.as_slice(), 0) {
            Some((v, _)) => Ok(Some(v)),
            None => Err(RecvError::DeserializeFailed),
        }
    }

    /// The first buffered response to request `request_id`, as a `T`. The
    /// response is removed from the buffer whether or not it could be read;
    /// the others keep their order.
    pub fn recv_for<T: Wire>(&mut self, request_id: RequestId) -> (r: Result<Option<T>, RecvError>)
        requires
            old(self).wf(),
        ensures
            final(self).wf(),
            final(self).same_but_buf(old(self)),
            not_found(old(self).buf(), request_id) ==> final(self).buf() == old(self).buf() && r
                == Ok::<Option<T>, RecvError>(None),
            forall|i: int|
                #[trigger] found_at(old(self).buf(), request_id, i) ==> final(self).buf() == old(
                    self,
                ).buf().remove(i) && received::<T>(old(self).buf()[i], r),
            not_found(old(self).buf(), request_id) || exists|i: int|
                #[trigger] found_at(old(self).buf(), request_id, i),
    {
        let ghost before = self.buf();
        let mut i: usize = 0;
        while i < self.buf.len()
            invariant
                *self == *old(self),
                before == self.buf(),
                i <= self.buf@.len(),
                self.wf(),
                forall|j: int| 0 <= j < i ==> (#[trigger] before[j]).rid != request_id,
            decreases self.buf@.len() - i,
        {
            if self.buf[i].rid == request_id {
                proof {
                    assert(before[i as int].rid == request_id);
                    assert(found_at(before, request_id, i as int));
                    assert forall|k: int| found_at(before, request_id, k) implies k == i by {
                        if k < i {
                            assert(before[k].rid != request_id);
                        }
                        if k > i {
                            assert(before[i as int].rid != request_id);
                        }
                    }
                }
                let e = self.buf.remove(i);
                proof {
                    assert(self.buf() =~= before.remove(i as int));
                    assert(e@ == before[i as int]);
                    assert(e@.data.skip(0) =~= e@.data);
                }
                return match T::take(e.data.as_slice(), 0) {
                    Some((v, _)) => Ok(Some(v)),
                    None => Err(RecvError::DeserializeFailed),
                };
            }
            i = i + 1;
        }
        Ok(None)
    }

    /// The number of buffered responses.
    pub fn buffered(&self) -> (r: usize)
        ensures
            r == self.buf().len(),
    {
        self.buf.len()
    }

    /// The result bytes of the first buffered response to request
    /// `request_id`, which stays buffered.
    pub fn recv_raw_for(&self, request_id: RequestId) -> (r: Option<&[u8]>)
        ensures
            match r {
                Some(b) => exists|i: int|
                    #[trigger] found_at(self.buf(), request_id, i) && b@ == self.buf()[i].data,
                None => not_found(self.buf(), request_id),
            },
    {
        let ghost before = self.buf();
        let mut i: usize = 0;
        while i < self.buf.len()
            invariant
                before == self.buf(),
                i <= self.buf@.len(),
                forall|j: int| 0 <= j < i ==> (#[trigger] before[j]).rid != request_id,
            decreases self.buf@.len() - i,
        {
            if self.buf[i].rid == request_id {
                proof {
                    assert(found_at(before, request_id, i as int));
                }
                return Some(self.buf[i].data.as_slice());
            }
            i = i + 1;
        }
        None
    }
}

/// Polling loses nothing: what it leaves in the queue still holds exactly the
/// responses that it did not put into the buffer.
pub proof fn law_poll_loses_nothing(buf: Seq<Entry>, q: Seq<Msg>)
    requires
        buf.len() <= BUF_CAP,
    ensures
        polled(buf, q).0 + entries(polled(buf, q).1) == buf + entries(q),
        polled(buf, q).0.len() <= BUF_CAP,
    decreases q.len(),
{
    if buf.len() < BUF_CAP && q.len() > 0 {
        if let Some(n) = unit_len(q) {
            let rest = q.skip(n as int);
            match entry_of(unit(q, n)) {
                Some(e) => {
                    law_poll_loses_nothing(buf.push(e), rest);
                    assert(buf.push(e) + entries(rest) =~= buf + (seq![e] + entries(rest)));
                },
                None => {
                    law_poll_loses_nothing(buf, rest);
                },
            }
        }
    }
}

/// The responses in a whole queue stay what they are when messages follow; the
/// responses among those come after them.
pub proof fn law_responses_add_up(a: Seq<Msg>, b: Seq<Msg>)
    requires
        whole(a),
    ensures
        entries(a + b) == entries(a) + entries(b),
    decreases a.len(),
{
    if a.len() == 0 {
        assert(a + b =~= b);
        assert(entries(a) + entries(b) =~= entries(b));
    } else {
        let n = unit_len(a)->Some_0;
        let rest = a.skip(n as int);
        stream::lemma_unit_stays(a, b);
        law_responses_add_up(rest, b);
        if let Some(e) = entry_of(unit(a, n)) {
            assert(seq![e] + (entries(rest) + entries(b)) =~= (seq![e] + entries(rest)) + entries(
                b,
            ));
        }
    }
}

/// Polling a whole queue leaves it whole, and takes all its responses that the
/// buffer has room for.
pub proof fn law_poll_keeps_whole(buf: Seq<Entry>, q: Seq<Msg>)
    requires
        buf.len() <= BUF_CAP,
        whole(q),
    ensures
        whole(polled(buf, q).1),
        polled(buf, q).0.len() == (if buf.len() + entries(q).len() <= BUF_CAP {
            buf.len() + entries(q).len()
        } else {
            BUF_CAP as nat
        }),
    decreases q.len(),
{
    if buf.len() < BUF_CAP && q.len() > 0 {
        let n = unit_len(q)->Some_0;
        match entry_of(unit(q, n)) {
            Some(e) => law_poll_keeps_whole(buf.push(e), q.skip(n as int)),
            None => law_poll_keeps_whole(buf, q.skip(n as int)),
        }
    }
}

/// What comes out of the queue that holds only the response `result` to request
/// `rid`: the result, filled up with zeros where it travelled in one message.
pub open spec fn arrived(rid: u64, result: Seq<u8>) -> Entry {
    Entry {
        rid,
        data: if result.len() > 247 {
            result
        } else {
            result + Seq::new((247 - result.len()) as nat, |i: int| 0u8)
        },
    }
}

/// Whatever bytes are sent as a response, a whole channel stays whole.
pub proof fn law_sending_keeps_whole(c: Chan, data: Seq<u8>)
    requires
        whole(c.queue),
    ensures
        whole(crate::server::response_sent(c, data).1.queue),
{
    if data.len() <= 255 {
        let m = Msg { kind: 3, payload: crate::message::pad(data) };
        stream::lemma_single_unit(m);
        stream::lemma_whole_join(c.queue, seq![m]);
    } else if data.len() <= stream::MAX_STREAM_LEN {
        stream::lemma_frame_unit(3, data);
        stream::lemma_whole_join(c.queue, stream::chain(3, stream::frame(data)));
    }
}

/// A response that was sent comes out of the response channel after all that
/// were waiting there, as that result for that request, however it was sent.
pub proof fn law_response_arrives(c: Chan, rid: u64, result: Seq<u8>)
    requires
        whole(c.queue),
        result.len() <= crate::server::RESPONSE_DATA_MAX,
        crate::server::response_sent(c, response_bytes(rid, result)).0 is Ok,
    ensures
        ({
            let after = crate::server::response_sent(c, response_bytes(rid, result)).1;
            &&& entries(after.queue) == entries(c.queue).push(arrived(rid, result))
            &&& result.is_prefix_of(arrived(rid, result).data)
            &&& whole(after.queue)
            &&& after.valid()
        }),
{
    broadcast use bytes::lemma_le_len;

    bytes::lemma_pow256_words();
    bytes::law_le_round_trip(rid as nat, 8);
    let data = response_bytes(rid, result);
    let e = arrived(rid, result);
    law_sending_keeps_whole(c, data);
    if data.len() <= 255 {
        let m = Msg { kind: 3, payload: crate::message::pad(data) };
        let q = seq![m];
        stream::lemma_single_unit(m);
        assert(m.payload.take(8) =~= bytes::le(rid as nat, 8));
        assert(m.payload.skip(8) =~= e.data);
        assert(entries(q) =~= seq![e]) by {
            assert(entries(q.skip(1)) =~= Seq::<Entry>::empty());
        }
        law_responses_add_up(c.queue, q);
        assert(entries(c.queue) + seq![e] =~= entries(c.queue).push(e));
    } else {
        let ms = stream::chain(3, stream::frame(data));
        stream::lemma_frame_unit(3, data);
        assert(data.take(8) =~= bytes::le(rid as nat, 8));
        assert(data.skip(8) =~= result);
        assert(entries(ms) =~= seq![e]) by {
            assert(entries(ms.skip(ms.len() as int)) =~= Seq::<Entry>::empty());
        }
        law_responses_add_up(c.queue, ms);
        assert(entries(c.queue) + seq![e] =~= entries(c.queue).push(e));
    }
}

/// What a caller reads of a call that was answered: the result itself.
pub proof fn law_result_arrives<T: Wire>(rid: u64, result: T)
    ensures
        result_of::<T>(arrived(rid, T::wire(result@))) == Some(result@),
{
    let w = T::wire(result@);
    if w.len() > 247 {
        result.law_round_trip(Seq::empty());
        assert(w + Seq::<u8>::empty() =~= w);
    } else {
        result.law_round_trip(Seq::new((247 - w.len()) as nat, |i: int| 0u8));
    }
}

/// The result bytes of a refused call.
pub open spec fn poison_data() -> Seq<u8> {
    Seq::new(247, |i: int| 0xFFu8)
}

/// A refusal comes out of the response channel after all responses that were
/// waiting there, as a response to the refused request with the result bytes of
/// a refused call. There is room for it wherever there is room for a message.
pub proof fn law_refusal_arrives(c: Chan, rid: u64)
    requires
        c.valid(),
        whole(c.queue),
        c.queue.len() < CHANNEL_CAPACITY - 1,
    ensures
        c.send(seq![poison(rid)]).0 == Ok::<(), SendError>(()),
        entries(c.send(seq![poison(rid)]).1.queue) == entries(c.queue).push(
            Entry { rid, data: poison_data() },
        ),
        whole(c.send(seq![poison(rid)]).1.queue),
{
    broadcast use bytes::lemma_le_len;

    bytes::lemma_pow256_words();
    bytes::law_le_round_trip(rid as nat, 8);
    let m = poison(rid);
    let q = seq![m];
    let e = Entry { rid, data: poison_data() };
    stream::lemma_single_unit(m);
    stream::lemma_whole_join(c.queue, q);
    assert(m.payload.take(8) =~= bytes::le(rid as nat, 8));
    assert(m.payload.skip(8) =~= poison_data());
    assert(entries(q) =~= seq![e]) by {
        assert(entries(q.skip(1)) =~= Seq::<Entry>::empty());
    }
    law_responses_add_up(c.queue, q);
    assert(entries(c.queue) + seq![e] =~= entries(c.queue).push(e));
}

/// A response that waits in the buffer or in the channel, with none to the same
/// request before it and room for it in the buffer, is the one that the client
/// finds once it has polled.
pub proof fn law_waiting_response_is_found(buf: Seq<Entry>, q: Seq<Msg>, k: int)
    requires
        buf.len() <= BUF_CAP,
        whole(q),
        0 <= k < buf.len() + entries(q).len(),
        k < BUF_CAP,
        forall|j: int|
            0 <= j < k ==> (#[trigger] (buf + entries(q))[j]).rid != (buf + entries(q))[k].rid,
    ensures
        found_at(polled(buf, q).0, (buf + entries(q))[k].rid, k),
        polled(buf, q).0[k] == (buf + entries(q))[k],
{
    law_poll_loses_nothing(buf, q);
    law_poll_keeps_whole(buf, q);
    let (b, rest) = polled(buf, q);
    let all = buf + entries(q);
    assert(b + entries(rest) == all);
    assert(b[k] == (b + entries(rest))[k]);
    assert forall|j: int| 0 <= j < k implies (#[trigger] b[j]).rid != all[k].rid by {
        assert(b[j] == (b + entries(rest))[j]);
        assert(all[j].rid != all[k].rid);
    }
}

/// A varint never ends among bytes that all have the high bit set.
proof fn lemma_no_varint(b: Seq<u8>, max: nat, last: nat)
    requires
        forall|i: int| 0 <= i < b.len() ==> (#[trigger] b[i]) >= 128,
    ensures
        crate::varint::unvarint(b, max, last) is None,
    decreases max,
{
    if max > 0 && b.len() > 0 {
        assert forall|i: int| 0 <= i < b.skip(1).len() implies (#[trigger] b.skip(1)[i]) >= 128 by {
            assert(b.skip(1)[i] == b[i + 1]);
        }
        lemma_no_varint(b.skip(1), (max - 1) as nat, last);
    }
}

/// A refused call never passes for a truth value, a number wider than a byte or a
/// byte string: reading it fails.
pub proof fn law_refusal_is_no_result()
    ensures
        bool::unwire(poison_data()) is None,
        u16::unwire(poison_data()) is None,
        i16::unwire(poison_data()) is None,
        u32::unwire(poison_data()) is None,
        i32::unwire(poison_data()) is None,
        u64::unwire(poison_data()) is None,
        <Vec<u8> as Wire>::unwire(poison_data()) is None,
        <PingReply as Wire>::unwire(poison_data()) is None,
{
    lemma_no_varint(poison_data(), 3, 3);
    lemma_no_varint(poison_data(), 5, 15);
    lemma_no_varint(poison_data(), 10, 1);
}

/// Nor does it pass for several values the first of which it is none of.
pub proof fn law_refusal_is_no_tuple<A: Wire, B: Wire, C: Wire>()
    requires
        A::unwire(poison_data()) is None,
    ensures
        <(A,) as Wire>::unwire(poison_data()) is None,
        <(A, B) as Wire>::unwire(poison_data()) is None,
        <(A, B, C) as Wire>::unwire(poison_data()) is None,
{
}

/// What a refused caller gets: an error, for every type that the bytes of a
/// refused call are no value of.
pub proof fn law_refused_call_fails<T: Wire>(rid: u64, r: Result<Option<T>, RecvError>)
    requires
        T::unwire(poison_data()) is None,
        received::<T>(Entry { rid, data: poison_data() }, r),
    ensures
        r is Err,
        r->Err_0 == RecvError::DeserializeFailed,
{
}

} // verus!
