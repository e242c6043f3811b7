//! What the two ends of remote calls owe each other, from the request to what
//! the caller reads.
//!
//! The laws speak of a response channel that is [`whole`]: it starts empty, and
//! every operation of either end keeps it whole.

use crate::client::{
    arrived, entries, found_at, poison_data, polled, received, requested, result_of, Entry,
    RecvError, BUF_CAP,
};
use crate::channel::CHANNEL_CAPACITY;
use crate::descriptor::{parsed, table_bytes, Method};
use crate::message::{Msg, REQUEST_ARGS_MAX};
use crate::rpc::{law_flags, notifies, one_way, stripped, METHOD_INIT, NOTIFY_FLAG};
use crate::server::{
    can_take, concluded, processed, response_bytes, response_sent, without_head, HandledKind,
    Processed, Reply, RpcError, RpcHandler, Served, RESPONSE_DATA_MAX,
};
use crate::service::called;
use crate::shm::Window;
use crate::stream::whole;
use crate::wire::Wire;
use vstd::prelude::*;

verus! {

/// A window of three channels, of which `req` carries requests and `resp`
/// carries responses. Nothing but whole responses waits in `resp`.
pub open spec fn ready(w: Window, req: u8, resp: u8) -> bool {
    &&& w.channels.len() == 3
    &&& req < 3
    &&& resp < 3
    &&& req != resp
    &&& w.channels[req as int].valid()
    &&& w.channels[resp as int].valid()
    &&& whole(w.channels[resp as int].queue)
}

/// The responses that wait in channel `resp`.
pub open spec fn waiting(w: Window, resp: u8) -> Seq<Entry> {
    entries(w.channels[resp as int].queue)
}

/// The next message of channel `req` is `m`.
pub open spec fn heads(w: Window, req: u8, m: Msg) -> bool {
    can_take(w, req) && w.channels[req as int].queue[0] == m
}

/// A request that was sent is the last in its channel; the responses that wait
/// are not touched.
pub proof fn law_request_is_queued(
    w: Window,
    req: u8,
    resp: u8,
    rid: u64,
    raw: u64,
    args: Seq<u8>,
)
    requires
        ready(w, req, resp),
        requested(w, req, rid, raw, args).0 is Ok,
    ensures
        ({
            let after = requested(w, req, rid, raw, args).1;
            &&& ready(after, req, resp)
            &&& after.channels[req as int].queue == w.channels[req as int].queue.push(
                Msg::request(rid, raw, args),
            )
            &&& waiting(after, resp) == waiting(w, resp)
            &&& requested(w, req, rid, raw, args).0->Ok_0.rid == rid
        }),
{
    let q = w.channels[req as int].queue;
    let m = Msg::request(rid, raw, args);
    assert(q + seq![m] =~= q.push(m));
}

/// Processing one message takes it from its channel and leaves the others there
/// in their order, keeps the response channel whole, and adds at most one
/// response behind those that wait.
pub proof fn law_processing_keeps_order<H: RpcHandler>(
    req: u8,
    resp: u8,
    s0: Served,
    h0: H,
    s1: Served,
    h1: H,
    p: Processed,
)
    requires
        ready(s0.window, req, resp),
        processed(req, resp, s0, h0, s1, h1, p),
    ensures
        ready(s1.window, req, resp),
        p !is NoMessage ==> s1.window.channels[req as int].queue
            == s0.window.channels[req as int].queue.skip(1),
        waiting(s0.window, resp).is_prefix_of(waiting(s1.window, resp)),
        waiting(s1.window, resp).len() <= waiting(s0.window, resp).len() + 1,
{
    let w = without_head(s0.window, req);
    let s = Served { window: w, fails: s0.fails };
    let c = w.channels[resp as int];
    if can_take(s0.window, req) {
        let m = s0.window.channels[req as int].queue[0];
        if let Some(raw) = m.method_id() {
            let rid = m.request_id().unwrap();
            if stripped(raw) == METHOD_INIT {
                lemma_answer_keeps_order(c, response_bytes(rid, h0.described()), rid);
            } else {
                let (out, reply) = choose|out: Seq<u8>, reply: Result<Reply, RpcError>|
                    #[trigger] H::handled(h0, stripped(raw), m, h1, out, reply) && (p, s1)
                        == concluded(s, resp, rid, raw, out, reply);
                lemma_answer_keeps_order(c, out, rid);
            }
        }
    }
}

/// The server processes the messages of channel `req` one after the other, from
/// `states[0]` on.
pub open spec fn served_in_turn<H: RpcHandler>(
    req: u8,
    resp: u8,
    states: Seq<(Served, H)>,
    log: Seq<Processed>,
) -> bool {
    &&& states.len() == log.len() + 1
    &&& forall|i: int|
        0 <= i < log.len() ==> (#[trigger] log[i]) !is NoMessage && processed(
            req,
            resp,
            states[i].0,
            states[i].1,
            states[i + 1].0,
            states[i + 1].1,
            log[i],
        )
}

/// A request comes up in its turn: once the messages ahead of it are processed, it
/// is the next one, and the responses that waited still come first.
pub proof fn law_request_comes_up<H: RpcHandler>(
    req: u8,
    resp: u8,
    states: Seq<(Served, H)>,
    log: Seq<Processed>,
    m: Msg,
)
    requires
        ready(states[0].0.window, req, resp),
        served_in_turn(req, resp, states, log),
        log.len() < states[0].0.window.channels[req as int].queue.len(),
        states[0].0.window.channels[req as int].queue[log.len() as int] == m,
    ensures
        ready(states.last().0.window, req, resp),
        heads(states.last().0.window, req, m),
        waiting(states[0].0.window, resp).is_prefix_of(waiting(states.last().0.window, resp)),
    decreases log.len(),
{
    let n = log.len() as int;
    if n == 0 {
        assert(waiting(states[0].0.window, resp).is_prefix_of(waiting(states[0].0.window, resp)));
    } else {
        let (s0, h0) = states[0];
        let (s1, h1) = states[1];
        assert(log[0] !is NoMessage);
        assert(processed(req, resp, s0, h0, s1, h1, log[0]));
        law_processing_keeps_order(req, resp, s0, h0, s1, h1, log[0]);
        let rest = states.skip(1);
        let after = log.skip(1);
        assert forall|i: int| 0 <= i < after.len() implies (#[trigger] after[i]) !is NoMessage
            && processed(
            req,
            resp,
            rest[i].0,
            rest[i].1,
            rest[i + 1].0,
            rest[i + 1].1,
            after[i],
        ) by {
            assert(log[i + 1] !is NoMessage);
            assert(states[i + 1 + 1] == rest[i + 1]);
        }
        law_request_comes_up(req, resp, rest, after, m);
        assert(rest.last() == states.last());
        let a = waiting(s0.window, resp);
        let b = waiting(s1.window, resp);
        let c = waiting(states.last().0.window, resp);
        assert(c.take(a.len() as int) =~= b.take(a.len() as int));
    }
}

/// A caller that waits for no answer gets none, whatever the handler does.
pub proof fn law_one_way_gets_no_answer<H: RpcHandler>(
    req: u8,
    resp: u8,
    s0: Served,
    h0: H,
    s1: Served,
    h1: H,
    p: Processed,
    m: Msg,
    raw: u64,
)
    requires
        ready(s0.window, req, resp),
        heads(s0.window, req, m),
        m.method_id() == Some(raw),
        one_way(raw),
        processed(req, resp, s0, h0, s1, h1, p),
    ensures
        s1.window.channels[resp as int] == s0.window.channels[resp as int],
        s1.fails == s0.fails,
{
}

/// An answer keeps a whole channel whole and adds at most one response.
proof fn lemma_answer_keeps_order(c: crate::channel::Chan, data: Seq<u8>, rid: u64)
    requires
        c.valid(),
        whole(c.queue),
    ensures
        ({
            let after = response_sent(c, data).1;
            &&& after.valid()
            &&& whole(after.queue)
            &&& entries(c.queue).is_prefix_of(entries(after.queue))
            &&& entries(after.queue).len() <= entries(c.queue).len() + 1
        }),
        ({
            let after = c.send(seq![crate::server::poison(rid)]).1;
            &&& after.valid()
            &&& whole(after.queue)
            &&& entries(c.queue).is_prefix_of(entries(after.queue))
            &&& entries(after.queue).len() <= entries(c.queue).len() + 1
        }),
{
    crate::client::law_sending_keeps_whole(c, data);
    if data.len() <= 255 {
        let m = Msg { kind: 3, payload: crate::message::pad(data) };
        crate::stream::lemma_single_unit(m);
        crate::client::law_responses_add_up(c.queue, seq![m]);
        assert(entries(seq![m].skip(1)).len() == 0);
        assert(entries(seq![m]).len() <= 1);
    } else if data.len() <= crate::stream::MAX_STREAM_LEN {
        let ms = crate::stream::chain(3, crate::stream::frame(data));
        crate::stream::lemma_frame_unit(3, data);
        crate::client::law_responses_add_up(c.queue, ms);
        assert(entries(ms.skip(ms.len() as int)).len() == 0);
        assert(entries(ms).len() <= 1);
    }
    if c.queue.len() < CHANNEL_CAPACITY - 1 {
        crate::client::law_refusal_arrives(c, rid);
    }
}

/// What a call gives: when the server comes to the request, and the handler
/// answers this method with the value of `f`, the caller finds a response to
/// its request behind those that waited, and reads the value of `f` on its
/// arguments from it. The server rings where the caller asked for it.
pub proof fn law_call_returns<H: RpcHandler, A: Wire, R: Wire>(
    req: u8,
    resp: u8,
    s0: Served,
    h0: H,
    s1: Served,
    h1: H,
    p: Processed,
    rid: u64,
    raw: u64,
    args: A,
    f: spec_fn(A::V) -> R::V,
    result: R,
)
    requires
        ready(s0.window, req, resp),
        heads(s0.window, req, Msg::request(rid, raw, A::wire(args@))),
        A::wire(args@).len() <= REQUEST_ARGS_MAX,
        !one_way(raw),
        stripped(raw) != METHOD_INIT,
        forall|m: Msg, post: H, out: Seq<u8>, r: Result<Reply, RpcError>|
            #[trigger] H::handled(h0, stripped(raw), m, post, out, r) ==> called::<A, R>(
                m,
                f,
                out,
                r,
            ),
        result@ == f(args@),
        R::wire(result@).len() <= RESPONSE_DATA_MAX,
        response_sent(
            s0.window.channels[resp as int],
            response_bytes(rid, R::wire(result@)),
        ).0 is Ok,
        processed(req, resp, s0, h0, s1, h1, p),
    ensures
        p == Processed::Handled(
            if notifies(raw) {
                HandledKind::Notify
            } else {
                HandledKind::Quiet
            },
        ),
        ready(s1.window, req, resp),
        waiting(s1.window, resp) == waiting(s0.window, resp).push(
            arrived(rid, R::wire(result@)),
        ),
        result_of::<R>(waiting(s1.window, resp).last()) == Some(result@),
        s1.fails == s0.fails,
{
    let m = Msg::request(rid, raw, A::wire(args@));
    let w = without_head(s0.window, req);
    let s = Served { window: w, fails: s0.fails };
    crate::message::law_request_round_trip(rid, raw, args);
    let (out, reply) = choose|out: Seq<u8>, reply: Result<Reply, RpcError>|
        #[trigger] H::handled(h0, stripped(raw), m, h1, out, reply) && (p, s1) == concluded(
            s,
            resp,
            rid,
            raw,
            out,
            reply,
        );
    assert(called::<A, R>(m, f, out, reply));
    assert(reply == Ok::<Reply, RpcError>(Reply::Written));
    assert(out == response_bytes(rid, R::wire(result@)));
    crate::client::law_response_arrives(w.channels[resp as int], rid, R::wire(result@));
    crate::client::law_result_arrives(rid, result);
}

/// What a refused call gives: whenever the server refuses a request whose caller
/// waits for an answer, the caller finds a refusal of its request behind the
/// responses that waited. A caller that waits for none gets none.
pub proof fn law_refused_call_is_told<H: RpcHandler>(
    req: u8,
    resp: u8,
    s0: Served,
    h0: H,
    s1: Served,
    h1: H,
    m: Msg,
    method: u64,
)
    requires
        ready(s0.window, req, resp),
        heads(s0.window, req, m),
        s0.window.channels[resp as int].queue.len() < CHANNEL_CAPACITY - 1,
        processed(req, resp, s0, h0, s1, h1, Processed::Unhandled(method)),
    ensures
        ready(s1.window, req, resp),
        m.method_id() matches Some(raw) && method == stripped(raw) && waiting(s1.window, resp)
            == if one_way(raw) {
            waiting(s0.window, resp)
        } else {
            waiting(s0.window, resp).push(
                Entry { rid: m.request_id()->Some_0, data: poison_data() },
            )
        },
        s1.fails == s0.fails,
{
    let w = without_head(s0.window, req);
    let s = Served { window: w, fails: s0.fails };
    let raw = m.method_id()->Some_0;
    let rid = m.request_id()->Some_0;
    crate::client::law_refusal_arrives(w.channels[resp as int], rid);
}

/// A request whose arguments the handler cannot read is refused.
pub proof fn law_bad_arguments_are_refused<H: RpcHandler, A: Wire, R: Wire>(
    req: u8,
    resp: u8,
    s0: Served,
    h0: H,
    s1: Served,
    h1: H,
    p: Processed,
    m: Msg,
    raw: u64,
    f: spec_fn(A::V) -> R::V,
)
    requires
        ready(s0.window, req, resp),
        heads(s0.window, req, m),
        m.method_id() == Some(raw),
        m.as_request::<A>() is None,
        stripped(raw) != METHOD_INIT,
        forall|post: H, out: Seq<u8>, r: Result<Reply, RpcError>|
            #[trigger] H::handled(h0, stripped(raw), m, post, out, r) ==> called::<A, R>(
                m,
                f,
                out,
                r,
            ),
        processed(req, resp, s0, h0, s1, h1, p),
    ensures
        p == Processed::Unhandled(stripped(raw)),
{
}

/// What discovery gives: when the server comes to the request, the caller finds
/// a response behind those that waited, and reads the handler's table of methods
/// from it.
pub proof fn law_table_arrives<H: RpcHandler>(
    req: u8,
    resp: u8,
    s0: Served,
    h0: H,
    s1: Served,
    h1: H,
    p: Processed,
    rid: u64,
    raw: u64,
    ms: Seq<Method>,
)
    requires
        ready(s0.window, req, resp),
        heads(s0.window, req, Msg::request(rid, raw, Seq::empty())),
        !one_way(raw),
        stripped(raw) == METHOD_INIT,
        h0.described() == table_bytes(ms),
        table_bytes(ms).len() <= RESPONSE_DATA_MAX,
        forall|i: int| 0 <= i < ms.len() ==> vstd::utf8::valid_utf8((#[trigger] ms[i]).name),
        response_sent(
            s0.window.channels[resp as int],
            response_bytes(rid, table_bytes(ms)),
        ).0 is Ok,
        processed(req, resp, s0, h0, s1, h1, p),
    ensures
        p == Processed::Handled(
            if notifies(raw) {
                HandledKind::Notify
            } else {
                HandledKind::Quiet
            },
        ),
        ready(s1.window, req, resp),
        waiting(s1.window, resp) == waiting(s0.window, resp).push(
            arrived(rid, table_bytes(ms)),
        ),
        parsed(waiting(s1.window, resp).last().data) == Some(ms),
        h1 == h0,
{
    let w = without_head(s0.window, req);
    let t = table_bytes(ms);
    crate::message::law_request_round_trip::<()>(rid, raw, ());
    crate::client::law_response_arrives(w.channels[resp as int], rid, t);
    if t.len() > 247 {
        crate::descriptor::law_table_round_trip(ms, Seq::empty());
        assert(t + Seq::<u8>::empty() =~= t);
    } else {
        crate::descriptor::law_table_round_trip(
            ms,
            Seq::new((247 - t.len()) as nat, |i: int| 0u8),
        );
    }
}

/// The caller's part: a response that came in behind those that waited is the
/// one that the caller finds once it has polled, if no other response to the
/// same request waits and its buffer has room.
pub proof fn law_last_response_is_found(buf: Seq<Entry>, w: Window, resp: u8, before: Seq<Entry>)
    requires
        whole(w.channels[resp as int].queue),
        waiting(w, resp).len() > 0,
        before == waiting(w, resp).drop_last(),
        buf.len() + before.len() < BUF_CAP,
        forall|j: int|
            0 <= j < (buf + before).len() ==> (#[trigger] (buf + before)[j]).rid != waiting(
                w,
                resp,
            ).last().rid,
    ensures
        ({
            let k = (buf + before).len() as int;
            let b = polled(buf, w.channels[resp as int].queue).0;
            &&& found_at(b, waiting(w, resp).last().rid, k)
            &&& b[k] == waiting(w, resp).last()
        }),
{
    let q = w.channels[resp as int].queue;
    let k = (buf + before).len() as int;
    let all = buf + entries(q);
    assert(all[k] == entries(q).last());
    assert forall|j: int| 0 <= j < k implies (#[trigger] all[j]).rid != all[k].rid by {
        assert(all[j] == (buf + before)[j]);
    }
    crate::client::law_waiting_response_is_found(buf, q, k);
}

/// The whole way of a call: the request is sent while no other request waits,
/// the server processes it, the caller polls and asks for the response to its
/// request, and gets the value of `f` on its arguments. Other responses may wait
/// in the channel and in the buffer.
pub proof fn law_call_round_trip<H: RpcHandler, A: Wire, R: Wire>(
    req: u8,
    resp: u8,
    w0: Window,
    fails: u64,
    h0: H,
    s1: Served,
    h1: H,
    p: Processed,
    rid: u64,
    raw: u64,
    args: A,
    f: spec_fn(A::V) -> R::V,
    result: R,
    buf: Seq<Entry>,
    r: Result<Option<R>, RecvError>,
)
    requires
        ready(w0, req, resp),
        w0.channels[req as int].queue.len() == 0,
        requested(w0, req, rid, raw, A::wire(args@)).0 is Ok,
        processed(
            req,
            resp,
            Served { window: requested(w0, req, rid, raw, A::wire(args@)).1, fails },
            h0,
            s1,
            h1,
            p,
        ),
        !one_way(raw),
        stripped(raw) != METHOD_INIT,
        forall|m: Msg, post: H, out: Seq<u8>, x: Result<Reply, RpcError>|
            #[trigger] H::handled(h0, stripped(raw), m, post, out, x) ==> called::<A, R>(
                m,
                f,
                out,
                x,
            ),
        result@ == f(args@),
        R::wire(result@).len() <= RESPONSE_DATA_MAX,
        response_sent(w0.channels[resp as int], response_bytes(rid, R::wire(result@))).0 is Ok,
        buf.len() + waiting(w0, resp).len() < BUF_CAP,
        forall|j: int|
            0 <= j < (buf + waiting(w0, resp)).len() ==> (#[trigger] (buf + waiting(
                w0,
                resp,
            ))[j]).rid != rid,
        ({
            let k = (buf + waiting(w0, resp)).len() as int;
            received::<R>(polled(buf, s1.window.channels[resp as int].queue).0[k], r)
        }),
    ensures
        ({
            let k = (buf + waiting(w0, resp)).len() as int;
            found_at(polled(buf, s1.window.channels[resp as int].queue).0, rid, k)
        }),
        r matches Ok(Some(x)) && x@ == f(args@),
{
    let w = requested(w0, req, rid, raw, A::wire(args@)).1;
    let s0 = Served { window: w, fails };
    law_request_is_queued(w0, req, resp, rid, raw, A::wire(args@));
    law_call_returns::<H, A, R>(req, resp, s0, h0, s1, h1, p, rid, raw, args, f, result);
    assert(waiting(s1.window, resp).drop_last() =~= waiting(w0, resp));
    law_last_response_is_found(buf, s1.window, resp, waiting(w0, resp));
}

/// The whole way of a refused call: the request is sent while no other request
/// waits, the server refuses it, the caller polls and asks for the response to
/// its request, and gets an error, for every type that the bytes of a refused
/// call are no value of.
pub proof fn law_refused_round_trip<H: RpcHandler, A: Wire, R: Wire>(
    req: u8,
    resp: u8,
    w0: Window,
    fails: u64,
    h0: H,
    s1: Served,
    h1: H,
    method: u64,
    rid: u64,
    raw: u64,
    args: A,
    buf: Seq<Entry>,
    r: Result<Option<R>, RecvError>,
)
    requires
        ready(w0, req, resp),
        w0.channels[req as int].queue.len() == 0,
        w0.channels[resp as int].queue.len() < CHANNEL_CAPACITY - 1,
        requested(w0, req, rid, raw, A::wire(args@)).0 is Ok,
        processed(
            req,
            resp,
            Served { window: requested(w0, req, rid, raw, A::wire(args@)).1, fails },
            h0,
            s1,
            h1,
            Processed::Unhandled(method),
        ),
        !one_way(raw),
        R::unwire(poison_data()) is None,
        buf.len() + waiting(w0, resp).len() < BUF_CAP,
        forall|j: int|
            0 <= j < (buf + waiting(w0, resp)).len() ==> (#[trigger] (buf + waiting(
                w0,
                resp,
            ))[j]).rid != rid,
        ({
            let k = (buf + waiting(w0, resp)).len() as int;
            received::<R>(polled(buf, s1.window.channels[resp as int].queue).0[k], r)
        }),
    ensures
        ({
            let k = (buf + waiting(w0, resp)).len() as int;
            found_at(polled(buf, s1.window.channels[resp as int].queue).0, rid, k)
        }),
        r is Err,
        r->Err_0 == RecvError::DeserializeFailed,
{
    let w = requested(w0, req, rid, raw, A::wire(args@)).1;
    let s0 = Served { window: w, fails };
    let m = Msg::request(rid, raw, A::wire(args@));
    law_request_is_queued(w0, req, resp, rid, raw, A::wire(args@));
    crate::message::law_request_round_trip(rid, raw, args);
    law_refused_call_is_told(req, resp, s0, h0, s1, h1, m, method);
    assert(waiting(s1.window, resp).drop_last() =~= waiting(w0, resp));
    law_last_response_is_found(buf, s1.window, resp, waiting(w0, resp));
}

/// The whole way of discovery: the request is sent while no other request waits,
/// the server processes it, the caller polls, and the bytes that it finds for its
/// request hold the handler's table of methods.
pub proof fn law_discovery_round_trip<H: RpcHandler>(
    req: u8,
    resp: u8,
    w0: Window,
    fails: u64,
    h0: H,
    s1: Served,
    h1: H,
    p: Processed,
    rid: u64,
    ms: Seq<Method>,
    buf: Seq<Entry>,
)
    requires
        ready(w0, req, resp),
        w0.channels[req as int].queue.len() == 0,
        requested(w0, req, rid, METHOD_INIT | NOTIFY_FLAG, Seq::empty()).0 is Ok,
        processed(
            req,
            resp,
            Served {
                window: requested(w0, req, rid, METHOD_INIT | NOTIFY_FLAG, Seq::empty()).1,
                fails,
            },
            h0,
            s1,
            h1,
            p,
        ),
        h0.described() == table_bytes(ms),
        table_bytes(ms).len() <= RESPONSE_DATA_MAX,
        forall|i: int| 0 <= i < ms.len() ==> vstd::utf8::valid_utf8((#[trigger] ms[i]).name),
        response_sent(w0.channels[resp as int], response_bytes(rid, table_bytes(ms))).0 is Ok,
        buf.len() + waiting(w0, resp).len() < BUF_CAP,
        forall|j: int|
            0 <= j < (buf + waiting(w0, resp)).len() ==> (#[trigger] (buf + waiting(
                w0,
                resp,
            ))[j]).rid != rid,
    ensures
        ({
            let k = (buf + waiting(w0, resp)).len() as int;
            let b = polled(buf, s1.window.channels[resp as int].queue).0;
            &&& found_at(b, rid, k)
            &&& parsed(b[k].data) == Some(ms)
        }),
        p == Processed::Handled(HandledKind::Notify),
{
    let raw = METHOD_INIT | NOTIFY_FLAG;
    let w = requested(w0, req, rid, raw, Seq::empty()).1;
    let s0 = Served { window: w, fails };
    law_flags(METHOD_INIT);
    law_request_is_queued(w0, req, resp, rid, raw, Seq::empty());
    law_table_arrives(req, resp, s0, h0, s1, h1, p, rid, raw, ms);
    assert(waiting(s1.window, resp).drop_last() =~= waiting(w0, resp));
    law_last_response_is_found(buf, s1.window, resp, waiting(w0, resp));
}

} // verus!
