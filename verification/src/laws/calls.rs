//! Remote calls, from the request that a client sends to the response that a
//! server leaves.

use crate::bytes;
use crate::channel::SendError;
use crate::client::{RequestIds, RpcClient, Ticket};
use crate::laws::messages::{holds, word_at};
use crate::message::Msg;
use crate::rpc::{is_one_way, strip_flags, wants_notify};
use crate::server::{
    concluded, processed, HandledKind, ProcessResult, Processed, Reply, Response, RpcError,
    RpcHandler, RpcServer, Served,
};
use crate::service::{answer, arguments};
use crate::shm::{SharedMemory, Window};
use crate::wire::Wire;
use vstd::prelude::*;

verus! {

/// The message `m` asks for method number `raw`, flags included, under the number
/// `rid`, with the argument bytes `args`.
pub open spec fn asks(m: Msg, rid: u64, raw: int, args: Seq<u8>) -> bool {
    &&& m.kind == 2
    &&& m.payload.len() == 255
    &&& word_at(m.payload, 0) == rid
    &&& word_at(m.payload, 8) == raw
    &&& holds(m.payload, 16, args)
}

/// What comes of sending a request on channel `ch`. It is queued, behind what
/// waits there, wherever the channel is set up, fewer than 127 messages wait, and
/// the arguments take at most 239 bytes. It is refused otherwise, and nothing is
/// changed: as full where only room is missing. The doorbell is due where the
/// server is not busy.
pub open spec fn request_sent(
    before: Window,
    after: Window,
    ch: int,
    rid: u64,
    raw: int,
    args: Seq<u8>,
    r: Result<Ticket, SendError>,
) -> bool {
    let c = before.channels[ch];
    let fits = args.len() <= 239 && c.magic == 0x4F56;
    &&& r is Ok <==> fits && c.queue.len() < 127
    &&& r == Err::<Ticket, SendError>(SendError::Full) <==> fits && c.queue.len() >= 127
    &&& r is Err ==> after == before
    &&& r matches Ok(t) ==> {
        let q = after.channels[ch].queue;
        &&& t.rid == rid
        &&& t.doorbell == !before.busy
        &&& q.len() == c.queue.len() + 1
        &&& q.drop_last() == c.queue
        &&& asks(q.last(), rid, raw, args)
        &&& after.busy == before.busy
        &&& after.channels.len() == before.channels.len()
        &&& forall|i: int| 0 <= i < 3 && i != ch ==> after.channels[i] == before.channels[i]
        &&& after.channels[ch].magic == c.magic
    }
}

proof fn lemma_request(rid: u64, raw: u64, args: Seq<u8>)
    requires
        args.len() <= 239,
    ensures
        asks(Msg::request(rid, raw, args), rid, raw as int, args),
{
    broadcast use bytes::lemma_le_len;

    let p = Msg::request(rid, raw, args).payload;
    let a = bytes::le(rid as nat, 8);
    let b = bytes::le(raw as nat, 8);
    bytes::law_weights_of_eight(rid);
    bytes::law_weights_of_eight(raw);
    assert(forall|i: int| 0 <= i < 8 ==> p[i] == a[i]);
    assert(p[8] == b[0] && p[9] == b[1] && p[10] == b[2] && p[11] == b[3]);
    assert(p[12] == b[4] && p[13] == b[5] && p[14] == b[6] && p[15] == b[7]);
}

proof fn lemma_sent(
    w: Window,
    ch: u8,
    rid: u64,
    raw: u64,
    args: Seq<u8>,
    r: Result<Ticket, SendError>,
    after: Window,
)
    requires
        w.channels.len() == 3,
        ch < 3,
        (r, after) == crate::client::requested(w, ch, rid, raw, args),
    ensures
        request_sent(w, after, ch as int, rid, raw as int, args, r),
{
    let q = w.channels[ch as int].queue;
    let m = Msg::request(rid, raw, args);
    if args.len() <= 239 {
        lemma_request(rid, raw, args);
    }
    assert((q + seq![m]).drop_last() =~= q);
    assert(w.channels.update(ch as int, w.channels[ch as int]) =~= w.channels);
}

/// A call is queued on channel 0 and asks for a doorbell: its method number has the
/// highest bit set. Requests are numbered one after the other.
pub proof fn law_call_is_sent<A: Wire>(
    c: &RpcClient,
    shm: &mut SharedMemory<3>,
    ids: &mut RequestIds,
    method: u64,
    args: &A,
    r: Result<Ticket, SendError>,
)
    requires
        old(shm).wf(),
        c.req() == 0,
        method < 0x4000_0000_0000_0000,
        call_ensures(RpcClient::call::<A>, (c, shm, ids, method, args), r),
    ensures
        request_sent(
            old(shm)@,
            final(shm)@,
            0,
            old(ids).upcoming(),
            method + 0x8000_0000_0000_0000,
            A::wire(args@),
            r,
        ),
        old(ids).upcoming() < u64::MAX ==> final(ids).upcoming() == old(ids).upcoming() + 1,
{
    old(shm).lemma_count();
    assert(method < 0x4000_0000_0000_0000u64 ==> (method | 0x8000_0000_0000_0000u64) == method
        + 0x8000_0000_0000_0000u64) by (bit_vector);
    lemma_sent(
        old(shm)@,
        0,
        old(ids).upcoming(),
        method | 0x8000_0000_0000_0000u64,
        A::wire(args@),
        r,
        final(shm)@,
    );
}

/// A call whose caller polls is queued on channel 0 under the bare method number.
pub proof fn law_polled_call_is_sent<A: Wire>(
    c: &RpcClient,
    shm: &mut SharedMemory<3>,
    ids: &mut RequestIds,
    method: u64,
    args: &A,
    r: Result<Ticket, SendError>,
)
    requires
        old(shm).wf(),
        c.req() == 0,
        call_ensures(RpcClient::call_poll::<A>, (c, shm, ids, method, args), r),
    ensures
        request_sent(
            old(shm)@,
            final(shm)@,
            0,
            old(ids).upcoming(),
            method as int,
            A::wire(args@),
            r,
        ),
        old(ids).upcoming() < u64::MAX ==> final(ids).upcoming() == old(ids).upcoming() + 1,
{
    old(shm).lemma_count();
    lemma_sent(
        old(shm)@,
        0,
        old(ids).upcoming(),
        method,
        A::wire(args@),
        r,
        final(shm)@,
    );
}

/// A call without an answer is queued on channel 0, an urgent one on channel 2;
/// both have the second-highest bit of the method number set.
pub proof fn law_one_way_call_is_sent<A: Wire>(
    c: &RpcClient,
    s1: &mut SharedMemory<3>,
    i1: &mut RequestIds,
    r1: Result<Ticket, SendError>,
    s2: &mut SharedMemory<3>,
    i2: &mut RequestIds,
    r2: Result<Ticket, SendError>,
    method: u64,
    args: &A,
)
    requires
        old(s1).wf(),
        old(s2).wf(),
        c.req() == 0,
        c.urgent_channel() == 2,
        method < 0x4000_0000_0000_0000,
        call_ensures(RpcClient::send::<A>, (c, s1, i1, method, args), r1),
        call_ensures(RpcClient::urgent::<A>, (c, s2, i2, method, args), r2),
    ensures
        request_sent(
            old(s1)@,
            final(s1)@,
            0,
            old(i1).upcoming(),
            method + 0x4000_0000_0000_0000,
            A::wire(args@),
            r1,
        ),
        request_sent(
            old(s2)@,
            final(s2)@,
            2,
            old(i2).upcoming(),
            method + 0x4000_0000_0000_0000,
            A::wire(args@),
            r2,
        ),
{
    old(s1).lemma_count();
    old(s2).lemma_count();
    assert(method < 0x4000_0000_0000_0000u64 ==> (method | 0x4000_0000_0000_0000u64) == method
        + 0x4000_0000_0000_0000u64) by (bit_vector);
    let raw = method | 0x4000_0000_0000_0000u64;
    lemma_sent(old(s1)@, 0, old(i1).upcoming(), raw, A::wire(args@), r1, final(s1)@);
    lemma_sent(old(s2)@, 2, old(i2).upcoming(), raw, A::wire(args@), r2, final(s2)@);
}

/// Discovery is a call of method 0 without arguments.
pub proof fn law_discovery_is_sent(
    c: &RpcClient,
    shm: &mut SharedMemory<3>,
    ids: &mut RequestIds,
    r: Result<Ticket, SendError>,
)
    requires
        old(shm).wf(),
        c.req() == 0,
        call_ensures(RpcClient::discover, (c, shm, ids), r),
    ensures
        request_sent(
            old(shm)@,
            final(shm)@,
            0,
            old(ids).upcoming(),
            0x8000_0000_0000_0000,
            Seq::empty(),
            r,
        ),
{
    old(shm).lemma_count();
    assert(0u64 | 0x8000_0000_0000_0000u64 == 0x8000_0000_0000_0000u64) by (bit_vector);
    lemma_sent(
        old(shm)@,
        0,
        old(ids).upcoming(),
        0x8000_0000_0000_0000u64,
        Seq::empty(),
        r,
        final(shm)@,
    );
}

/// Requests are numbered from 1 on, one after the other.
pub proof fn law_requests_are_numbered(
    new: RequestIds,
    ids: &mut RequestIds,
    next: &mut RequestIds,
    a: u64,
    b: u64,
    first: &mut RequestIds,
    one: u64,
)
    requires
        call_ensures(RequestIds::new, (), new),
        *old(first) == new,
        call_ensures(RequestIds::take, (first,), one),
        call_ensures(RequestIds::take, (ids,), a),
        *final(ids) == *old(next),
        call_ensures(RequestIds::take, (next,), b),
    ensures
        one == 1,
        a < u64::MAX ==> b == a + 1,
{
}

/// A client and a server that are made for the usual channels take requests on
/// channel 0, urgent ones on channel 2, and responses on channel 1.
pub proof fn law_usual_channels(at: usize, c: RpcClient, s: RpcServer)
    requires
        call_ensures(RpcClient::new, (at,), c),
        call_ensures(RpcServer::new, (at,), s),
    ensures
        c.req() == 0 && c.resp() == 1 && c.urgent_channel() == 2,
        s.req() == 0 && s.resp() == 1 && s.urgent() == 2,
        c.buf().len() == 0,
        s.fails() == 0,
        c.spec_shm_addr() == at,
        s.spec_shm_addr() == at,
{
}

/// The flags of a method number are its two highest bits.
pub proof fn law_flags_are_the_high_bits(raw: u64, bell: bool, silent: bool, bare: u64)
    requires
        call_ensures(wants_notify, (raw,), bell),
        call_ensures(is_one_way, (raw,), silent),
        call_ensures(strip_flags, (raw,), bare),
    ensures
        bell == (raw / 0x8000_0000_0000_0000 == 1),
        silent == (raw / 0x4000_0000_0000_0000 % 2 == 1),
        bare == raw % 0x4000_0000_0000_0000,
{
    lemma_flags(raw);
}

pub(crate) proof fn lemma_flags(raw: u64)
    ensures
        crate::rpc::notifies(raw) == (raw / 0x8000_0000_0000_0000 == 1),
        crate::rpc::one_way(raw) == (raw / 0x4000_0000_0000_0000 % 2 == 1),
        crate::rpc::stripped(raw) == raw % 0x4000_0000_0000_0000,
{
    crate::rpc::law_strip(raw);
    assert((raw & 0x8000_0000_0000_0000u64 != 0) == (raw / 0x8000_0000_0000_0000u64 == 1u64))
        by (bit_vector);
    assert((raw & 0x4000_0000_0000_0000u64 != 0) == (raw / 0x4000_0000_0000_0000u64 % 2u64
        == 1u64)) by (bit_vector);
}

/// The arguments of a request come with its number; what cannot be read as such is
/// an error.
pub proof fn law_arguments_are_read<A: Wire>(
    m: &crate::message::Message,
    r: Result<(u64, A), RpcError>,
)
    requires
        call_ensures(arguments::<A>, (m,), r),
    ensures
        r is Ok <==> m@.kind == 2 && A::unwire(m@.payload.skip(16)) is Some,
        r matches Ok((rid, a)) ==> rid == word_at(m@.payload, 0) && a@ == (A::unwire(
            m@.payload.skip(16),
        )->0).0,
        r matches Err(e) ==> e == RpcError::DeserializeFailed,
{
    crate::message::law_payload_len(*m);
    let p = m@.payload;
    lemma_first_word(p);
}

proof fn lemma_first_word(p: Seq<u8>)
    requires
        p.len() >= 8,
    ensures
        bytes::from_le(p.take(8)) == word_at(p, 0),
        0 <= word_at(p, 0) <= u64::MAX,
{
    let b = p.take(8);
    bytes::law_from_le_round_trip(b);
    bytes::lemma_pow256_words();
    bytes::law_weights_of_eight(bytes::from_le(b) as u64);
}

/// A result of up to 2028 bytes is written as eight bytes of request number and the
/// result; a longer one is refused and nothing is written.
pub proof fn law_result_is_written<R: Wire>(
    out: &mut Response,
    rid: u64,
    result: &R,
    r: Result<(), RpcError>,
    read: Option<u64>,
)
    requires
        call_ensures(Response::write::<R>, (out, rid, result), r),
        call_ensures(Response::rid, (final(out),), read),
    ensures
        r is Ok <==> R::wire(result@).len() <= 2028,
        r is Ok ==> {
            let b = final(out)@;
            &&& b.len() == 8 + R::wire(result@).len()
            &&& word_at(b, 0) == rid
            &&& b.skip(8) == R::wire(result@)
            &&& read == Some(rid)
        },
        r is Err ==> final(out)@ == old(out)@ && r->Err_0 == RpcError::ResponseTooLarge,
{
    bytes::law_weights_of_eight(rid);
    if r is Ok {
        let b = final(out)@;
        assert(b.take(8) =~= bytes::le(rid as nat, 8));
        assert(b.skip(8) =~= R::wire(result@));
    }
}

/// A handler's answer is the result under the number of the request.
pub proof fn law_answer_is_the_result<R: Wire>(
    out: &mut Response,
    rid: u64,
    result: &R,
    r: Result<Reply, RpcError>,
)
    requires
        call_ensures(answer::<R>, (out, rid, result), r),
    ensures
        R::wire(result@).len() > 2028 ==> r == Err::<Reply, RpcError>(RpcError::ResponseTooLarge),
        R::wire(result@).len() <= 2028 ==> r == Ok::<Reply, RpcError>(Reply::Written)
            && word_at(final(out)@, 0) == rid && final(out)@.skip(8) == R::wire(result@),
{
    bytes::law_weights_of_eight(rid);
    if R::wire(result@).len() <= 2028 {
        let b = final(out)@;
        assert(b.take(8) =~= bytes::le(rid as nat, 8));
        assert(b.skip(8) =~= R::wire(result@));
    }
}

/// What becomes of the message that is taken from channel `ch`, in words of the
/// message and the handler's reply: nothing is taken where there is none; what is
/// no request is handed on; a request is handed to the handler and concluded.
pub proof fn law_one_message_is_processed<H: RpcHandler>(
    server: &mut RpcServer,
    shm: &mut SharedMemory<3>,
    handler: &mut H,
    r: ProcessResult,
)
    requires
        old(shm).wf(),
        old(server).req() == 0,
        old(server).resp() == 1,
        call_ensures(RpcServer::process_one::<H>, (server, shm, handler), r),
    ensures
        ({
            let c = old(shm)@.channels[0];
            let after = final(shm)@;
            &&& r is NoMessage <==> c.magic != 0x4F56 || c.queue.len() == 0
            &&& r is NoMessage ==> after == old(shm)@ && *final(handler) == *old(handler)
            &&& r !is NoMessage ==> seq![c.queue[0]] + after.channels[0].queue == c.queue
            &&& r is NotRpc <==> r !is NoMessage && c.queue[0].kind != 2
            &&& r matches ProcessResult::NotRpc(m) ==> m@ == c.queue[0] && after.channels[1]
                == old(shm)@.channels[1] && *final(handler) == *old(handler)
            &&& after.channels[2] == old(shm)@.channels[2]
            &&& after.busy == old(shm)@.busy
        }),
{
    old(shm).lemma_count();
    let q = old(shm)@.channels[0].queue;
    if q.len() > 0 {
        assert(q =~= seq![q[0]] + q.skip(1));
    }
    let s0 = old(server).on(old(shm)@);
    let s1 = final(server).on(final(shm)@);
    assert(processed(0, 1, s0, *old(handler), s1, *final(handler), r@));
}

/// A message that bears the refusal of request `rid`: a response of the number and
/// ones.
pub open spec fn refuses(m: Msg, rid: int) -> bool {
    &&& m.kind == 3
    &&& m.payload.len() == 255
    &&& word_at(m.payload, 0) == rid
    &&& forall|i: int| 8 <= i < 255 ==> #[trigger] m.payload[i] == 255
}

/// How a request of number `rid` and method `raw` ends: one that wants no answer
/// leaves the channel of responses alone; a written answer is sent there, another
/// reply is refused there but for one that comes later.
pub proof fn law_request_is_concluded(
    s: Served,
    rid: u64,
    raw: u64,
    out: Seq<u8>,
    r: Result<Reply, RpcError>,
    end: (Processed, Served),
)
    requires
        s.window.channels.len() == 3,
        s.window.channels[1].magic == 0x4F56,
        s.window.channels[1].queue.len() < 119,
        8 <= out.len() <= 2036,
        end == concluded(s, 1, rid, raw, out, r),
    ensures
        ({
            let silent = raw / 0x4000_0000_0000_0000 % 2 == 1;
            let bell = raw / 0x8000_0000_0000_0000 == 1;
            let method = raw % 0x4000_0000_0000_0000;
            let before = s.window.channels[1].queue;
            let after = end.1.window.channels[1].queue;
            let written = r == Ok::<Reply, RpcError>(Reply::Written);
            let later = r == Ok::<Reply, RpcError>(Reply::Deferred);
            &&& silent || later ==> end.1 == s
            &&& later ==> end.0 == Processed::Handled(HandledKind::Quiet)
            &&& written && silent ==> end.0 == Processed::Handled(HandledKind::OneWay)
            &&& r == Ok::<Reply, RpcError>(Reply::Silent) && silent ==> end.0
                == Processed::Handled(HandledKind::OneWay)
            &&& written && !silent ==> end.0 == Processed::Handled(
                if bell {
                    HandledKind::Notify
                } else {
                    HandledKind::Quiet
                },
            )
            &&& written && !silent && out.len() <= 255 ==> {
                &&& after.drop_last() == before
                &&& after.last().kind == 3
                &&& holds(after.last().payload, 0, out)
            }
            &&& !silent && !written && !later ==> {
                &&& end.0 == Processed::Unhandled(method)
                &&& after.drop_last() == before
                &&& refuses(after.last(), rid as int)
            }
            &&& r is Err ==> end.0 == Processed::Unhandled(method)
            &&& end.1.fails == s.fails
        }),
{
    broadcast use bytes::lemma_le_len;

    let q = s.window.channels[1].queue;
    let m = crate::server::poison(rid);
    lemma_flags(raw);
    bytes::law_weights_of_eight(rid);
    let b = bytes::le(rid as nat, 8);
    assert(forall|i: int| 0 <= i < 8 ==> m.payload[i] == b[i]);
    assert((q + seq![m]).drop_last() =~= q);
    let one = Msg { kind: 3, payload: crate::message::pad(out) };
    assert((q + seq![one]).drop_last() =~= q);
    if out.len() > 255 {
        assert(crate::stream::chain(3, crate::stream::frame(out)).len() <= 8);
    }
}

} // verus!
