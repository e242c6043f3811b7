//! The serving end: what is taken from the window, in which order, and how it ends.

use crate::bytes;
use crate::channel::{ChannelId, SendError, Sender};
use crate::laws::calls::{asks, lemma_flags, refuses};
use crate::laws::messages::{holds, word_at};
use crate::message::{Message, Msg};
use crate::server::{
    concluded, drained, handled_count, processed, send_response, stepped, Attendant, HandledKind,
    Notes, ProcessResult, Processed, Reply, Response, RpcError, RpcHandler, RpcServer, Served,
};
use crate::shm::SharedMemory;
use vstd::prelude::*;

verus! {

/// The urgent channel is looked at for urgent messages and the ordinary one for the
/// others. Neither has any where the channel is not set up.
pub proof fn law_waiting_messages_are_seen(
    server: &RpcServer,
    shm: &SharedMemory<3>,
    urgent: bool,
    ordinary: bool,
)
    requires
        shm.wf(),
        server.req() == 0,
        server.urgent() == 2,
        call_ensures(RpcServer::has_urgent, (server, shm), urgent),
        call_ensures(RpcServer::has_pending, (server, shm), ordinary),
    ensures
        urgent <==> shm@.channels[2].magic == 0x4F56 && shm@.channels[2].queue.len() > 0,
        ordinary <==> shm@.channels[0].magic == 0x4F56 && shm@.channels[0].queue.len() > 0,
{
}

/// A server takes its requests and gives its answers where it was told to, and starts
/// with no failure counted.
pub proof fn law_server_uses_its_channels(
    at: usize,
    req: ChannelId,
    resp: ChannelId,
    urgent: ChannelId,
    s: RpcServer,
    addr: usize,
    fails: u64,
)
    requires
        call_ensures(RpcServer::with_channels, (at, req, resp, urgent), s),
        call_ensures(RpcServer::shm_addr, (&s,), addr),
        call_ensures(RpcServer::resp_send_fails, (&s,), fails),
    ensures
        addr == at,
        s.req() == req.spec_get(),
        s.resp() == resp.spec_get(),
        s.urgent() == urgent.spec_get(),
        fails == 0,
{
}

/// An urgent message is taken from channel 2, the one that has waited longest, and
/// the ordinary ones stay.
pub proof fn law_urgent_message_is_processed<H: RpcHandler>(
    server: &mut RpcServer,
    shm: &mut SharedMemory<3>,
    handler: &mut H,
    r: ProcessResult,
)
    requires
        old(shm).wf(),
        old(server).urgent() == 2,
        old(server).resp() == 1,
        call_ensures(RpcServer::process_urgent::<H>, (server, shm, handler), r),
    ensures
        ({
            let c = old(shm)@.channels[2];
            let after = final(shm)@;
            &&& r is NoMessage <==> c.magic != 0x4F56 || c.queue.len() == 0
            &&& r is NoMessage ==> after == old(shm)@ && *final(handler) == *old(handler)
            &&& r !is NoMessage ==> seq![c.queue[0]] + after.channels[2].queue == c.queue
            &&& r is NotRpc <==> r !is NoMessage && c.queue[0].kind != 2
            &&& r matches ProcessResult::NotRpc(m) ==> m@ == c.queue[0] && after.channels[1]
                == old(shm)@.channels[1] && *final(handler) == *old(handler)
            &&& after.channels[0] == old(shm)@.channels[0]
            &&& after.busy == old(shm)@.busy
        }),
{
    old(shm).lemma_count();
    let q = old(shm)@.channels[2].queue;
    if q.len() > 0 {
        assert(q =~= seq![q[0]] + q.skip(1));
    }
    let s0 = old(server).on(old(shm)@);
    let s1 = final(server).on(final(shm)@);
    assert(processed(2, 1, s0, *old(handler), s1, *final(handler), r@));
}

proof fn lemma_asked(m: Msg, rid: u64, raw: u64, args: Seq<u8>)
    requires
        asks(m, rid, raw as int, args),
    ensures
        m.request_id() == Some(rid),
        m.method_id() == Some(raw),
{
    let a = m.payload.take(8);
    let b = m.payload.subrange(8, 16);
    bytes::law_from_le_round_trip(a);
    bytes::law_from_le_round_trip(b);
    bytes::lemma_pow256_words();
    bytes::law_weights_of_eight(bytes::from_le(a) as u64);
    bytes::law_weights_of_eight(bytes::from_le(b) as u64);
}

/// How a request of number `rid` and method `raw` ends, whose handler wrote `out` and
/// replied `reply`, on a channel of responses with room: a short answer is sent as it
/// was written, what was not answered is refused, and nothing is sent where no answer
/// is wanted or where it comes later.
pub open spec fn ends(
    before: Seq<Msg>,
    after: Seq<Msg>,
    rid: u64,
    raw: u64,
    out: Seq<u8>,
    reply: Result<Reply, RpcError>,
    r: ProcessResult,
) -> bool {
    let silent = raw / 0x4000_0000_0000_0000 % 2 == 1;
    let written = reply == Ok::<Reply, RpcError>(Reply::Written);
    let later = reply == Ok::<Reply, RpcError>(Reply::Deferred);
    &&& silent || later ==> after == before
    &&& !silent && written && out.len() <= 255 ==> {
        &&& after.drop_last() == before
        &&& after.last().kind == 3
        &&& holds(after.last().payload, 0, out)
    }
    &&& !silent && !written && !later ==> after.drop_last() == before && refuses(
        after.last(),
        rid as int,
    )
    &&& r is Unhandled <==> reply is Err || (!silent && !written && !later)
    &&& r matches ProcessResult::Unhandled(m) ==> m == raw % 0x4000_0000_0000_0000
    &&& r is Handled <==> r !is Unhandled
    &&& r matches ProcessResult::Handled(k) ==> k == (if later {
        HandledKind::Quiet
    } else if silent {
        HandledKind::OneWay
    } else if raw >= 0x8000_0000_0000_0000 {
        HandledKind::Notify
    } else {
        HandledKind::Quiet
    })
}

/// The handler is asked for the method without its flags, with the whole request, and
/// what it replies is what the request ends with: under the request's own number.
pub proof fn law_request_reaches_its_handler<H: RpcHandler>(
    server: &mut RpcServer,
    shm: &mut SharedMemory<3>,
    handler: &mut H,
    rid: u64,
    raw: u64,
    args: Seq<u8>,
    ch: int,
    r: ProcessResult,
)
    requires
        old(shm).wf(),
        ch == 0 || ch == 2,
        old(server).req() == 0,
        old(server).resp() == 1,
        old(server).urgent() == 2,
        raw % 0x4000_0000_0000_0000 != 0,
        ({
            let c = old(shm)@.channels[ch];
            &&& c.magic == 0x4F56
            &&& c.queue.len() > 0
            &&& asks(c.queue[0], rid, raw as int, args)
        }),
        old(shm)@.channels[1].magic == 0x4F56,
        old(shm)@.channels[1].queue.len() < 127,
        if ch == 2 {
            call_ensures(RpcServer::process_urgent::<H>, (server, shm, handler), r)
        } else {
            call_ensures(RpcServer::process_one::<H>, (server, shm, handler), r)
        },
    ensures
        exists|out: Seq<u8>, reply: Result<Reply, RpcError>|
            {
                &&& #[trigger] H::handled(
                    *old(handler),
                    (raw % 0x4000_0000_0000_0000) as u64,
                    old(shm)@.channels[ch].queue[0],
                    *final(handler),
                    out,
                    reply,
                )
                &&& ends(
                    old(shm)@.channels[1].queue,
                    final(shm)@.channels[1].queue,
                    rid,
                    raw,
                    out,
                    reply,
                    r,
                )
            },
{
    broadcast use bytes::lemma_le_len;

    old(shm).lemma_count();
    let s0 = old(server).on(old(shm)@);
    let s1 = final(server).on(final(shm)@);
    let m = s0.window.channels[ch].queue[0];
    assert(processed(ch as u8, 1, s0, *old(handler), s1, *final(handler), r@));
    lemma_asked(m, rid, raw, args);
    lemma_flags(raw);
    let s = Served { window: crate::server::without_head(s0.window, ch as u8), fails: s0.fails };
    let method = (raw % 0x4000_0000_0000_0000) as u64;
    let (out, reply) = choose|out: Seq<u8>, reply: Result<Reply, RpcError>|
        #[trigger] H::handled(*old(handler), method, m, *final(handler), out, reply) && (r@, s1)
            == concluded(s, 1, rid, raw, out, reply);
    let q = s.window.channels[1].queue;
    let b = crate::server::poison(rid);
    bytes::law_weights_of_eight(rid);
    let head = bytes::le(rid as nat, 8);
    assert(forall|i: int| 0 <= i < 8 ==> b.payload[i] == head[i]);
    assert((q + seq![b]).drop_last() =~= q);
    let one = Msg { kind: 3, payload: crate::message::pad(out) };
    assert((q + seq![one]).drop_last() =~= q);
    assert(H::handled(*old(handler), method, m, *final(handler), out, reply));
}

/// Result bytes are written behind the number of their request, up to 2028 of them;
/// more are refused, and what was written before stays.
pub proof fn law_bytes_are_written(
    out: &mut Response,
    rid: u64,
    result: &[u8],
    r: Result<(), RpcError>,
    b: &[u8],
    len: usize,
    fresh: Response,
)
    requires
        call_ensures(Response::write_raw, (out, rid, result), r),
        call_ensures(Response::bytes, (final(out),), b),
        call_ensures(Response::len, (final(out),), len),
        call_ensures(Response::empty, (), fresh),
    ensures
        r is Ok <==> result@.len() <= 2028,
        r is Ok ==> b@.len() == 8 + result@.len() && word_at(b@, 0) == rid && b@.skip(8)
            == result@,
        r matches Err(e) ==> e == RpcError::ResponseTooLarge && b@ == old(out)@,
        len == b@.len(),
        fresh@.len() == 0,
{
    broadcast use bytes::lemma_le_len;

    bytes::law_weights_of_eight(rid);
    if r is Ok {
        assert(b@.take(8) =~= bytes::le(rid as nat, 8));
        assert(b@.skip(8) =~= result@);
    }
}

/// A response of up to 255 bytes is sent in one message of kind 3, a longer one in as
/// many blocks as it takes with four bytes of length.
pub proof fn law_response_is_sent(
    tx: &mut Sender<'_>,
    resp: &Response,
    r: Result<(), SendError>,
)
    requires
        old(tx).target().wf(),
        resp@.len() <= 2036,
        call_ensures(send_response, (tx, resp), r),
    ensures
        ({
            let n = if resp@.len() <= 255 {
                1nat
            } else {
                (resp@.len() + 4 + 254) / 255
            };
            let before = old(tx).target()@;
            let after = final(tx).target()@;
            &&& r is Ok <==> before.magic == 0x4F56 && before.queue.len() + n <= 127
            &&& r is Err ==> after == before
            &&& r is Ok ==> after.queue.len() == before.queue.len() + n && after.queue.take(
                before.queue.len() as int,
            ) == before.queue
            &&& r is Ok && n == 1 ==> after.queue.last().kind == 3 && holds(
                after.queue.last().payload,
                0,
                resp@,
            )
            &&& r is Ok ==> after.queue.last().kind == 3
        }),
{
    broadcast use bytes::lemma_le_len;

    let before = old(tx).target()@;
    let after = final(tx).target()@;
    if r is Ok {
        assert(after.queue.take(before.queue.len() as int) =~= before.queue);
    }
}

/// A discovery request is answered with the table of methods under its number, and a
/// table that is too long is refused. A doorbell rings where one was asked for.
pub proof fn law_table_is_sent(
    server: &mut RpcServer,
    shm: &mut SharedMemory<3>,
    rid: u64,
    raw: u64,
    table: &[u8],
    r: ProcessResult,
)
    requires
        old(shm).wf(),
        old(server).resp() == 1,
        old(shm)@.channels[1].magic == 0x4F56,
        old(shm)@.channels[1].queue.len() < 119,
        call_ensures(RpcServer::discover, (server, shm, rid, raw, table), r),
    ensures
        ({
            let silent = raw / 0x4000_0000_0000_0000 % 2 == 1;
            let before = old(shm)@.channels[1].queue;
            let after = final(shm)@.channels[1].queue;
            &&& silent ==> after == before
            &&& !silent && table@.len() <= 247 ==> {
                &&& after.drop_last() == before
                &&& after.last().kind == 3
                &&& after.last().payload.len() == 255
                &&& word_at(after.last().payload, 0) == rid
                &&& holds(after.last().payload, 8, table@)
            }
            &&& !silent && 247 < table@.len() <= 2028 ==> after.len() == before.len() + (
            table@.len() + 12 + 254) / 255 && after.take(before.len() as int) == before
            &&& !silent && table@.len() > 2028 ==> after.drop_last() == before && refuses(
                after.last(),
                rid as int,
            )
            &&& r == (if table@.len() > 2028 {
                ProcessResult::Unhandled((raw % 0x4000_0000_0000_0000) as u64)
            } else if raw >= 0x8000_0000_0000_0000 {
                ProcessResult::Handled(HandledKind::Notify)
            } else {
                ProcessResult::Handled(HandledKind::Quiet)
            })
            &&& final(shm)@.channels[0] == old(shm)@.channels[0]
            &&& final(shm)@.channels[2] == old(shm)@.channels[2]
            &&& final(server).fails() == old(server).fails()
        }),
{
    broadcast use bytes::lemma_le_len;

    old(shm).lemma_count();
    lemma_flags(raw);
    let q = old(shm)@.channels[1].queue;
    let after = final(shm)@.channels[1].queue;
    let b = crate::server::poison(rid);
    let out = crate::server::response_bytes(rid, table@);
    bytes::law_weights_of_eight(rid);
    let head = bytes::le(rid as nat, 8);
    assert(forall|i: int| 0 <= i < 8 ==> b.payload[i] == head[i]);
    assert((q + seq![b]).drop_last() =~= q);
    let one = Msg { kind: 3, payload: crate::message::pad(out) };
    assert((q + seq![one]).drop_last() =~= q);
    if table@.len() <= 247 {
        assert(forall|i: int| 0 <= i < 8 ==> one.payload[i] == head[i]);
        assert forall|i: int| 0 <= i < table@.len() implies #[trigger] one.payload[8 + i]
            == table@[i] by {
            assert(out[8 + i] == table@[i]);
        }
    } else if table@.len() <= 2028 {
        let c = crate::stream::chain(3, crate::stream::frame(out));
        assert(c.len() == (table@.len() + 12 + 254) / 255);
        assert((q + c).take(q.len() as int) =~= q);
    }
}

/// An answer that finds no room is counted, wherever the request wanted one, and
/// nothing is sent; the count starts again from nothing behind the highest number.
pub proof fn law_lost_answer_is_counted(
    server: &mut RpcServer,
    shm: &mut SharedMemory<3>,
    rid: u64,
    raw: u64,
    resp: &Response,
    outcome: Result<Reply, RpcError>,
    r: ProcessResult,
    fails: u64,
)
    requires
        old(shm).wf(),
        old(server).resp() == 1,
        old(shm)@.channels[1].magic != 0x4F56 || old(shm)@.channels[1].queue.len() == 127,
        call_ensures(RpcServer::conclude, (server, shm, rid, raw, resp, outcome), r),
        call_ensures(RpcServer::resp_send_fails, (final(server),), fails),
    ensures
        ({
            let wanted = raw / 0x4000_0000_0000_0000 % 2 == 0 && outcome != Ok::<Reply, RpcError>(
                Reply::Deferred,
            );
            &&& wanted ==> fails == (old(server).fails() + 1) % 0x1_0000_0000_0000_0000
            &&& !wanted ==> fails == old(server).fails()
        }),
        final(shm)@ == old(shm)@,
{
    broadcast use bytes::lemma_le_len;

    old(shm).lemma_count();
    lemma_flags(raw);
    let c = old(shm)@.channels[1];
    assert(old(shm)@.channels.update(1, c) =~= old(shm)@.channels);
    if 255 < resp@.len() <= 2036 {
        assert(crate::stream::chain(3, crate::stream::frame(resp@)).len() >= 1);
    }
}

/// The handler of a request that found an answer or not: what is concluded of it is
/// what it ends with.
pub proof fn law_reply_is_concluded(
    server: &mut RpcServer,
    shm: &mut SharedMemory<3>,
    rid: u64,
    raw: u64,
    resp: &Response,
    outcome: Result<Reply, RpcError>,
    r: ProcessResult,
)
    requires
        old(shm).wf(),
        old(server).resp() == 1,
        old(shm)@.channels[1].magic == 0x4F56,
        old(shm)@.channels[1].queue.len() < 127,
        call_ensures(RpcServer::conclude, (server, shm, rid, raw, resp, outcome), r),
    ensures
        ends(
            old(shm)@.channels[1].queue,
            final(shm)@.channels[1].queue,
            rid,
            raw,
            resp@,
            outcome,
            r,
        ),
        final(shm)@.channels[0] == old(shm)@.channels[0],
        final(shm)@.channels[2] == old(shm)@.channels[2],
{
    broadcast use bytes::lemma_le_len;

    old(shm).lemma_count();
    lemma_flags(raw);
    let q = old(shm)@.channels[1].queue;
    let b = crate::server::poison(rid);
    bytes::law_weights_of_eight(rid);
    let head = bytes::le(rid as nat, 8);
    assert(forall|i: int| 0 <= i < 8 ==> b.payload[i] == head[i]);
    assert((q + seq![b]).drop_last() =~= q);
    let one = Msg { kind: 3, payload: crate::message::pad(resp@) };
    assert((q + seq![one]).drop_last() =~= q);
}

proof fn lemma_drain<H: RpcHandler, A: Attendant>(
    ch: u8,
    states: Seq<(Served, H, A)>,
    log: Seq<Processed>,
    k: int,
)
    requires
        drained(ch, 1, states, log),
        ch == 0 || ch == 2,
        states[0].0.window.channels.len() == 3,
        0 <= k <= log.len(),
    ensures
        ({
            let before = states[0].0.window.channels;
            let after = states[k].0.window.channels;
            &&& after.len() == 3
            &&& k <= before[ch as int].queue.len()
            &&& after[ch as int] == before[ch as int].with(before[ch as int].queue.skip(k))
            &&& after[2 - ch] == before[2 - ch]
            &&& k > 0 ==> before[ch as int].valid()
        }),
    decreases k,
{
    let q = states[0].0.window.channels[ch as int].queue;
    if k > 0 {
        lemma_drain(ch, states, log, k - 1);
        assert(log[k - 1] !is NoMessage);
        assert(stepped(ch, 1, states[k - 1], log[k - 1], states[k - 1 + 1]));
        assert(q.skip(k - 1).skip(1) =~= q.skip(k));
    } else {
        assert(q.skip(0) =~= q);
    }
}

proof fn lemma_drain_ends<H: RpcHandler, A: Attendant>(
    ch: u8,
    states: Seq<(Served, H, A)>,
    log: Seq<Processed>,
)
    requires
        drained(ch, 1, states, log),
        ch == 0 || ch == 2,
        states[0].0.window.channels.len() == 3,
    ensures
        ({
            let before = states[0].0.window.channels;
            let after = states.last().0.window.channels;
            &&& after.len() == 3
            &&& after[2 - ch] == before[2 - ch]
            &&& after[ch as int].magic == before[ch as int].magic
            &&& before[ch as int].magic == 0x4F56 ==> log.len() == before[ch as int].queue.len()
                && after[ch as int].queue.len() == 0
            &&& before[ch as int].magic != 0x4F56 ==> log.len() == 0 && after[ch as int]
                == before[ch as int]
        }),
{
    lemma_drain(ch, states, log, log.len() as int);
    let c = states[0].0.window.channels[ch as int];
    if log.len() > 0 {
        assert(log[0] !is NoMessage);
        assert(stepped(ch, 1, states[0], log[0], states[1]));
    } else {
        assert(c.queue.skip(0) =~= c.queue);
    }
}

proof fn lemma_drain_plain<H: RpcHandler>(
    ch: u8,
    states: Seq<(Served, H, Notes)>,
    log: Seq<Processed>,
    k: int,
)
    requires
        drained(ch, 1, states, log),
        ch == 0 || ch == 2,
        states[0].0.window.channels.len() == 3,
        forall|i: int|
            0 <= i < states[0].0.window.channels[ch as int].queue.len() ==> (
            #[trigger] states[0].0.window.channels[ch as int].queue[i]).kind != 2,
        0 <= k <= log.len(),
    ensures
        ({
            let q = states[0].0.window.channels[ch as int].queue;
            let kept = states[k].2.others@;
            let had = states[0].2.others@;
            &&& kept.len() == had.len() + k
            &&& forall|i: int| 0 <= i < had.len() ==> (#[trigger] kept[i])@ == had[i]@
            &&& forall|i: int| had.len() <= i < had.len() + k ==> (#[trigger] kept[i])@ == q[i
                - had.len()]
            &&& states[k].2.bells == states[0].2.bells
            &&& states[k].1 == states[0].1
            &&& states[k].0.window.channels[1] == states[0].0.window.channels[1]
            &&& handled_count(log.take(k)) == 0
        }),
    decreases k,
{
    let q = states[0].0.window.channels[ch as int].queue;
    if k > 0 {
        lemma_drain(ch, states, log, k - 1);
        lemma_drain_plain(ch, states, log, k - 1);
        lemma_drain(ch, states, log, k);
        assert(log[k - 1] !is NoMessage);
        assert(stepped(ch, 1, states[k - 1], log[k - 1], states[k - 1 + 1]));
        assert(q.skip(k - 1)[0] == q[k - 1]);
        assert(log[k - 1] == Processed::NotRpc(q[k - 1]));
        assert(log.take(k).drop_last() =~= log.take(k - 1));
        let a = states[k - 1].2.others@;
        let b = states[k].2.others@;
        let va = crate::server::views(a);
        let vb = crate::server::views(b);
        assert(vb == va.push(q[k - 1]));
        assert(va.len() == a.len() && vb.len() == b.len());
        assert forall|i: int| 0 <= i < a.len() implies (#[trigger] b[i])@ == a[i]@ by {
            assert(vb[i] == va[i]);
        }
        assert(b.last()@ == vb.last());
    }
}

/// Every message that waits, urgent or ordinary, is processed, wherever its channel is
/// set up; a channel that is not stays as it is.
pub proof fn law_nothing_is_left<H: RpcHandler, A: Attendant>(
    server: &mut RpcServer,
    shm: &mut SharedMemory<3>,
    handler: &mut H,
    attendant: &mut A,
    r: usize,
)
    requires
        old(shm).wf(),
        old(server).req() == 0,
        old(server).resp() == 1,
        old(server).urgent() == 2,
        call_ensures(RpcServer::process_all::<H, A>, (server, shm, handler, attendant), r),
    ensures
        forall|i: int|
            #![trigger final(shm)@.channels[i]]
            i == 0 || i == 2 ==> (if old(shm)@.channels[i].magic == 0x4F56 {
                final(shm)@.channels[i].queue.len() == 0
            } else {
                final(shm)@.channels[i] == old(shm)@.channels[i]
            }),
{
    old(shm).lemma_count();
    let (u, o) = choose|
        u: (Seq<(Served, H, A)>, Seq<Processed>),
        o: (Seq<(Served, H, A)>, Seq<Processed>),
    |
        {
            &&& #[trigger] drained(2, 1, u.0, u.1)
            &&& #[trigger] drained(0, 1, o.0, o.1)
            &&& u.0[0] == (old(server).on(old(shm)@), *old(handler), *old(attendant))
            &&& o.0[0] == u.0.last()
            &&& o.0.last() == (final(server).on(final(shm)@), *final(handler), *final(attendant))
            &&& r == handled_count(u.1) + handled_count(o.1)
        };
    lemma_drain_ends(2, u.0, u.1);
    lemma_drain_ends(0, o.0, o.1);
}

/// Messages that are no requests are handed over in order, the urgent ones before the
/// ordinary ones. None counts as handled, the handler is not asked, and no doorbell
/// rings.
pub proof fn law_other_messages_are_handed_over<H: RpcHandler>(
    server: &mut RpcServer,
    shm: &mut SharedMemory<3>,
    handler: &mut H,
    notes: &mut Notes,
    r: usize,
)
    requires
        old(shm).wf(),
        old(server).req() == 0,
        old(server).resp() == 1,
        old(server).urgent() == 2,
        old(shm)@.channels[0].magic == 0x4F56,
        old(shm)@.channels[2].magic == 0x4F56,
        forall|i: int|
            0 <= i < old(shm)@.channels[0].queue.len() ==> (
            #[trigger] old(shm)@.channels[0].queue[i]).kind != 2,
        forall|i: int|
            0 <= i < old(shm)@.channels[2].queue.len() ==> (
            #[trigger] old(shm)@.channels[2].queue[i]).kind != 2,
        old(notes).others@.len() == 0,
        call_ensures(RpcServer::process_all::<H, Notes>, (server, shm, handler, notes), r),
    ensures
        r == 0,
        final(notes).bells == old(notes).bells,
        *final(handler) == *old(handler),
        final(shm)@.channels[1] == old(shm)@.channels[1],
        ({
            let first = old(shm)@.channels[2].queue;
            let second = old(shm)@.channels[0].queue;
            let told = final(notes).others@;
            &&& told.len() == first.len() + second.len()
            &&& forall|i: int|
                0 <= i < told.len() ==> (#[trigger] told[i])@ == (if i < first.len() {
                    first[i]
                } else {
                    second[i - first.len()]
                })
        }),
{
    old(shm).lemma_count();
    let (u, o) = choose|
        u: (Seq<(Served, H, Notes)>, Seq<Processed>),
        o: (Seq<(Served, H, Notes)>, Seq<Processed>),
    |
        {
            &&& #[trigger] drained(2, 1, u.0, u.1)
            &&& #[trigger] drained(0, 1, o.0, o.1)
            &&& u.0[0] == (old(server).on(old(shm)@), *old(handler), *old(notes))
            &&& o.0[0] == u.0.last()
            &&& o.0.last() == (final(server).on(final(shm)@), *final(handler), *final(notes))
            &&& r == handled_count(u.1) + handled_count(o.1)
        };
    lemma_drain_ends(2, u.0, u.1);
    lemma_drain_plain(2, u.0, u.1, u.1.len() as int);
    assert(u.1.take(u.1.len() as int) =~= u.1);
    lemma_drain_ends(0, o.0, o.1);
    lemma_drain_plain(0, o.0, o.1, o.1.len() as int);
    assert(o.1.take(o.1.len() as int) =~= o.1);
}

/// The message `m` asks for the table of methods: method 0, with the doorbell's flag
/// as `bell` says.
pub open spec fn asks_for_table(m: Msg, bell: bool) -> bool {
    let raw = word_at(m.payload, 8);
    &&& m.kind == 2
    &&& m.payload.len() == 255
    &&& raw % 0x4000_0000_0000_0000 == 0
    &&& bell == (raw >= 0x8000_0000_0000_0000)
}

proof fn lemma_table_asked(m: Msg, bell: bool)
    requires
        asks_for_table(m, bell),
    ensures
        m.method_id() matches Some(raw) && crate::rpc::stripped(raw) == 0
            && crate::rpc::notifies(raw) == bell,
        m.request_id() is Some,
{
    let a = m.payload.take(8);
    let b = m.payload.subrange(8, 16);
    bytes::law_from_le_round_trip(a);
    bytes::law_from_le_round_trip(b);
    bytes::lemma_pow256_words();
    bytes::law_weights_of_eight(bytes::from_le(b) as u64);
    lemma_flags(bytes::from_le(b) as u64);
}

proof fn lemma_drain_tables<H: RpcHandler>(
    ch: u8,
    states: Seq<(Served, H, Notes)>,
    log: Seq<Processed>,
    bell: bool,
    k: int,
)
    requires
        drained(ch, 1, states, log),
        ch == 0 || ch == 2,
        states[0].0.window.channels.len() == 3,
        states[0].1.described().len() <= 2028,
        forall|i: int|
            0 <= i < states[0].0.window.channels[ch as int].queue.len() ==> asks_for_table(
                #[trigger] states[0].0.window.channels[ch as int].queue[i],
                bell,
            ),
        0 <= k <= log.len(),
    ensures
        states[k].1 == states[0].1,
        handled_count(log.take(k)) == k,
        states[k].2.bells == (states[0].2.bells + (if bell {
            k
        } else {
            0
        })) % 0x1_0000_0000_0000_0000,
    decreases k,
{
    let q = states[0].0.window.channels[ch as int].queue;
    if k > 0 {
        lemma_drain(ch, states, log, k - 1);
        lemma_drain_tables(ch, states, log, bell, k - 1);
        lemma_drain(ch, states, log, k);
        assert(log[k - 1] !is NoMessage);
        assert(stepped(ch, 1, states[k - 1], log[k - 1], states[k - 1 + 1]));
        assert(q.skip(k - 1)[0] == q[k - 1]);
        lemma_table_asked(q[k - 1], bell);
        assert(log[k - 1] == Processed::Handled(
            if bell {
                HandledKind::Notify
            } else {
                HandledKind::Quiet
            },
        ));
        assert(log.take(k).drop_last() =~= log.take(k - 1));
    }
}

proof fn lemma_wrap(a: int, b: int, c: int)
    requires
        0 <= a <= u64::MAX,
        0 <= b <= 127,
        0 <= c <= 127,
    ensures
        ((a + b) % 0x1_0000_0000_0000_0000 + c) % 0x1_0000_0000_0000_0000 == (a + (b + c))
            % 0x1_0000_0000_0000_0000,
        a % 0x1_0000_0000_0000_0000 == a,
{
}

/// Every request for the table of methods counts as handled, whichever service there
/// is, and rings the doorbell once where it asked for it.
pub proof fn law_handled_requests_are_counted<H: RpcHandler>(
    server: &mut RpcServer,
    shm: &mut SharedMemory<3>,
    handler: &mut H,
    notes: &mut Notes,
    bell: bool,
    r: usize,
)
    requires
        old(shm).wf(),
        old(server).req() == 0,
        old(server).resp() == 1,
        old(server).urgent() == 2,
        old(shm)@.channels[0].magic == 0x4F56,
        old(shm)@.channels[2].magic == 0x4F56,
        old(handler).described().len() <= 2028,
        forall|i: int|
            0 <= i < old(shm)@.channels[0].queue.len() ==> asks_for_table(
                #[trigger] old(shm)@.channels[0].queue[i],
                bell,
            ),
        forall|i: int|
            0 <= i < old(shm)@.channels[2].queue.len() ==> asks_for_table(
                #[trigger] old(shm)@.channels[2].queue[i],
                bell,
            ),
        call_ensures(RpcServer::process_all::<H, Notes>, (server, shm, handler, notes), r),
    ensures
        r == old(shm)@.channels[0].queue.len() + old(shm)@.channels[2].queue.len(),
        final(notes).bells == (old(notes).bells + (if bell {
            r as int
        } else {
            0
        })) % 0x1_0000_0000_0000_0000,
        *final(handler) == *old(handler),
{
    old(shm).lemma_count();
    let (u, o) = choose|
        u: (Seq<(Served, H, Notes)>, Seq<Processed>),
        o: (Seq<(Served, H, Notes)>, Seq<Processed>),
    |
        {
            &&& #[trigger] drained(2, 1, u.0, u.1)
            &&& #[trigger] drained(0, 1, o.0, o.1)
            &&& u.0[0] == (old(server).on(old(shm)@), *old(handler), *old(notes))
            &&& o.0[0] == u.0.last()
            &&& o.0.last() == (final(server).on(final(shm)@), *final(handler), *final(notes))
            &&& r == handled_count(u.1) + handled_count(o.1)
        };
    lemma_drain_ends(2, u.0, u.1);
    lemma_drain_tables(2, u.0, u.1, bell, u.1.len() as int);
    assert(u.1.take(u.1.len() as int) =~= u.1);
    lemma_drain_ends(0, o.0, o.1);
    assert(o.0[0].0.window.channels[0] == old(shm)@.channels[0]);
    lemma_drain_tables(0, o.0, o.1, bell, o.1.len() as int);
    assert(o.1.take(o.1.len() as int) =~= o.1);
    lemma_wrap(old(notes).bells as int, u.1.len() as int, o.1.len() as int);
}

/// A note is kept of each doorbell and of each message, behind those before it.
pub proof fn law_notes_are_kept(
    fresh: Notes,
    a: &mut Notes,
    shm: &SharedMemory<3>,
    b: &mut Notes,
    msg: Message,
)
    requires
        call_ensures(Notes::new, (), fresh),
        call_ensures(<Notes as Attendant>::on_notify, (a, shm), ()),
        call_ensures(<Notes as Attendant>::on_other, (b, msg), ()),
    ensures
        fresh.bells == 0 && fresh.others@.len() == 0,
        final(a).bells == (old(a).bells + 1) % 0x1_0000_0000_0000_0000,
        final(a).others@.len() == old(a).others@.len(),
        final(b).bells == old(b).bells,
        final(b).others@.len() == old(b).others@.len() + 1,
        final(b).others@.last()@ == msg@,
        forall|i: int|
            0 <= i < old(b).others@.len() ==> (#[trigger] final(b).others@[i])@
                == old(b).others@[i]@,
{
    let x = crate::server::views(old(a).others@);
    let y = crate::server::views(final(a).others@);
    assert(x.len() == old(a).others@.len() && y.len() == final(a).others@.len());
    let v = crate::server::views(old(b).others@);
    let w = crate::server::views(final(b).others@);
    assert(v.len() == old(b).others@.len() && w.len() == final(b).others@.len());
    assert(w.last() == msg@);
    assert forall|i: int| 0 <= i < old(b).others@.len() implies (
    #[trigger] final(b).others@[i])@ == old(b).others@[i]@ by {
        assert(w[i] == v[i]);
    }
}

} // verus!
