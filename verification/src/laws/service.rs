//! The services of the real-time core: what a caller reads, and what is counted.

use crate::apps::elastic::Elastic;
use crate::apps::intercom::{
    account, close_window, delay_ticks, handle_non_rpc, has_pending, log_due, note_magic_heal,
    react, send_message, send_notification, ticks_to_ns, work_of, DrainAll, Echoed, Reaction,
    Ready, RtAsyncRpc, WaitReady, Work,
};
use crate::apps::intercom_app::EchoService;
use crate::apps::stats::{Readings, Stats};
use crate::laws::calls::{lemma_flags, refuses};
use crate::laws::messages::word_at;
use crate::message::{EncodeError, Message, Msg};
use crate::rpc::stripped;
use crate::server::{
    processed, without_head, HandledKind, ProcessResult, Processed, Reply, Response, RpcError,
    RpcHandler, RpcServer, Served,
};
use crate::service::called;
use crate::shm::{SharedMemory, Window};
use crate::wire::{PingReply, Wire};
use vstd::prelude::*;

verus! {

/// The request `req` is the next to be processed, and its answer has room: both
/// channels are set up, and fewer than 127 messages wait in channel 1.
pub open spec fn comes_up(w: Window, req: Msg) -> bool {
    &&& w.channels[0].magic == 0x4F56
    &&& w.channels[0].queue.len() > 0
    &&& w.channels[0].queue[0] == req
    &&& w.channels[1].magic == 0x4F56
    &&& w.channels[1].queue.len() < 127
}

/// The method number `raw` is that of method `method` with an answer; the highest bit
/// asks for a doorbell.
pub open spec fn calls(raw: u64, method: int) -> bool {
    raw == method || raw == method + 0x8000_0000_0000_0000
}

/// The answer is the last message of channel 1, behind those that waited there, and
/// the doorbell rings where the caller asked for it.
pub open spec fn answers(before: Window, after: Window, raw: u64, p: ProcessResult) -> bool {
    &&& after.channels[1].queue.len() == before.channels[1].queue.len() + 1
    &&& after.channels[1].queue.drop_last() == before.channels[1].queue
    &&& p matches ProcessResult::Handled(k) && k == (if raw >= 0x8000_0000_0000_0000 {
        HandledKind::Notify
    } else {
        HandledKind::Quiet
    })
}

proof fn lemma_answer<H: RpcHandler, A: Wire, R: Wire>(
    s0: Served,
    h0: H,
    s1: Served,
    h1: H,
    p: Processed,
    rid: u64,
    raw: u64,
    method: int,
    args: A,
    f: spec_fn(A::V) -> R::V,
    result: R,
)
    requires
        s0.window.channels.len() == 3,
        0 < method < 0x4000_0000_0000_0000,
        calls(raw, method),
        A::wire(args@).len() <= 239,
        comes_up(s0.window, Msg::request(rid, raw, A::wire(args@))),
        forall|m: Msg, post: H, out: Seq<u8>, r: Result<Reply, RpcError>|
            #[trigger] H::handled(h0, method as u64, m, post, out, r) ==> called::<A, R>(
                m,
                f,
                out,
                r,
            ),
        result@ == f(args@),
        R::wire(result@).len() <= 247,
        processed(0, 1, s0, h0, s1, h1, p),
    ensures
        s1.window.channels[1].queue == s0.window.channels[1].queue.push(
            Msg::response(rid, R::wire(result@)),
        ),
        s1.window.channels[1].queue.drop_last() == s0.window.channels[1].queue,
        s1.window.channels[1].queue.last().as_response::<R>() == Some((rid, result@)),
        p == Processed::Handled(
            if raw >= 0x8000_0000_0000_0000 {
                HandledKind::Notify
            } else {
                HandledKind::Quiet
            },
        ),
{
    broadcast use crate::bytes::lemma_le_len;

    let m = Msg::request(rid, raw, A::wire(args@));
    lemma_flags(raw);
    assert(stripped(raw) == method);
    crate::message::law_request_round_trip(rid, raw, args);
    crate::message::law_response_round_trip(rid, result);
    let s = Served { window: without_head(s0.window, 0), fails: s0.fails };
    let (out, reply) = choose|out: Seq<u8>, reply: Result<Reply, RpcError>|
        #[trigger] H::handled(h0, stripped(raw), m, h1, out, reply) && (p, s1)
            == crate::server::concluded(s, 1, rid, raw, out, reply);
    assert(called::<A, R>(m, f, out, reply));
    let q = s0.window.channels[1].queue;
    let one = Msg::response(rid, R::wire(result@));
    assert(q + seq![one] =~= q.push(one));
    assert(q.push(one).drop_last() =~= q);
}

proof fn lemma_sum(a: i32, b: i32)
    ensures
        ({
            let x = crate::apps::intercom::wrapping_sum(a, b);
            &&& (x - (a + b)) % 0x1_0000_0000 == 0
            &&& i32::MIN <= a + b <= i32::MAX ==> x == a + b
            &&& <i32 as Wire>::wire(x).len() <= 5
            &&& <(i32, i32) as Wire>::wire((a, b)).len() <= 10
        }),
{
    let x = crate::apps::intercom::wrapping_sum(a, b);
    crate::varint::lemma_pow128_words();
    crate::varint::lemma_varint_len(crate::wire::zigzag(a as int), 5);
    crate::varint::lemma_varint_len(crate::wire::zigzag(b as int), 5);
    crate::varint::lemma_varint_len(crate::wire::zigzag(x as int), 5);
}

/// Method 1 of the service adds: what its caller reads differs from the sum of the two
/// numbers by a multiple of 2^32, and is the sum wherever a 32-bit number holds it.
pub proof fn law_sum_is_read(
    server: &mut RpcServer,
    shm: &mut SharedMemory<3>,
    h: &mut RtAsyncRpc,
    rid: u64,
    raw: u64,
    args: &(i32, i32),
    req: Message,
    p: ProcessResult,
    resp: &Message,
    got: Option<(u64, i32)>,
)
    requires
        old(shm).wf(),
        old(server).req() == 0,
        old(server).resp() == 1,
        calls(raw, 1),
        call_ensures(
            Message::request::<(i32, i32)>,
            (rid, raw, args),
            Ok::<Message, EncodeError>(req),
        ),
        comes_up(old(shm)@, req@),
        call_ensures(RpcServer::process_one::<RtAsyncRpc>, (server, shm, h), p),
        resp@ == final(shm)@.channels[1].queue.last(),
        call_ensures(Message::as_response::<i32>, (resp,), got),
    ensures
        answers(old(shm)@, final(shm)@, raw, p),
        got is Some,
        (got->0).0 == rid,
        ((got->0).1 - (args.0 + args.1)) % 0x1_0000_0000 == 0,
        -0x8000_0000 <= args.0 + args.1 < 0x8000_0000 ==> (got->0).1 == args.0 + args.1,
{
    old(shm).lemma_count();
    let (a, b) = *args;
    lemma_sum(a, b);
    let f = |v: (i32, i32)| crate::apps::intercom::wrapping_sum(v.0, v.1);
    lemma_answer::<RtAsyncRpc, (i32, i32), i32>(
        old(server).on(old(shm)@),
        *old(h),
        final(server).on(final(shm)@),
        *final(h),
        p@,
        rid,
        raw,
        1,
        *args,
        f,
        crate::apps::intercom::wrapping_sum(a, b),
    );
}

/// So does method 1 of the service on the virtual board.
pub proof fn law_sum_is_read_on_the_virtual_board(
    server: &mut RpcServer,
    shm: &mut SharedMemory<3>,
    h: &mut EchoService,
    rid: u64,
    raw: u64,
    args: &(i32, i32),
    req: Message,
    p: ProcessResult,
    resp: &Message,
    got: Option<(u64, i32)>,
)
    requires
        old(shm).wf(),
        old(server).req() == 0,
        old(server).resp() == 1,
        calls(raw, 1),
        call_ensures(
            Message::request::<(i32, i32)>,
            (rid, raw, args),
            Ok::<Message, EncodeError>(req),
        ),
        comes_up(old(shm)@, req@),
        call_ensures(RpcServer::process_one::<EchoService>, (server, shm, h), p),
        resp@ == final(shm)@.channels[1].queue.last(),
        call_ensures(Message::as_response::<i32>, (resp,), got),
    ensures
        answers(old(shm)@, final(shm)@, raw, p),
        got is Some,
        (got->0).0 == rid,
        ((got->0).1 - (args.0 + args.1)) % 0x1_0000_0000 == 0,
        -0x8000_0000 <= args.0 + args.1 < 0x8000_0000 ==> (got->0).1 == args.0 + args.1,
{
    old(shm).lemma_count();
    let (a, b) = *args;
    lemma_sum(a, b);
    let f = |v: (i32, i32)| crate::apps::intercom::wrapping_sum(v.0, v.1);
    lemma_answer::<EchoService, (i32, i32), i32>(
        old(server).on(old(shm)@),
        *old(h),
        final(server).on(final(shm)@),
        *final(h),
        p@,
        rid,
        raw,
        1,
        *args,
        f,
        crate::apps::intercom::wrapping_sum(a, b),
    );
}

/// The handlers themselves: method 0 gives back what it was given, method 1 the sum
/// modulo 2^32, under the number of the request.
pub proof fn law_handlers_echo_and_add(
    h: &mut RtAsyncRpc,
    o1: &mut Response,
    r1: Result<Reply, RpcError>,
    e: &mut EchoService,
    o2: &mut Response,
    r2: Result<Reply, RpcError>,
    method: u64,
    rid: u64,
    raw: u64,
    v: &u32,
    echo: Message,
    args: &(i32, i32),
    add: Message,
    msg: Message,
)
    requires
        call_ensures(Message::request::<u32>, (rid, raw, v), Ok::<Message, EncodeError>(echo)),
        call_ensures(
            Message::request::<(i32, i32)>,
            (rid, raw, args),
            Ok::<Message, EncodeError>(add),
        ),
        method == 0 ==> msg == echo,
        method == 1 ==> msg == add,
        call_ensures(<RtAsyncRpc as RpcHandler>::handle, (h, method, msg, o1), r1),
        call_ensures(<EchoService as RpcHandler>::handle, (e, method, msg, o2), r2),
    ensures
        method <= 1 ==> r1 == Ok::<Reply, RpcError>(Reply::Written) && r2 == r1 && final(o1)@
            == final(o2)@ && final(o1)@.len() >= 8 && word_at(final(o1)@, 0) == rid,
        method == 0 ==> <u32 as Wire>::unwire(final(o1)@.skip(8)) is Some && (<u32 as Wire>::unwire(
            final(o1)@.skip(8),
        )->0).0 == *v,
        method == 1 ==> <i32 as Wire>::unwire(final(o1)@.skip(8)) is Some && ((
        <i32 as Wire>::unwire(final(o1)@.skip(8))->0).0 - (args.0 + args.1)) % 0x1_0000_0000 == 0,
        *final(h) == *old(h),
{
    broadcast use crate::bytes::lemma_le_len;

    let x = crate::apps::intercom::wrapping_sum(args.0, args.1);
    lemma_sum(args.0, args.1);
    crate::bytes::law_weights_of_eight(rid);
    crate::varint::lemma_pow128_words();
    crate::varint::lemma_varint_len(*v as nat, 5);
    crate::message::law_request_round_trip(rid, raw, *v);
    crate::message::law_request_round_trip(rid, raw, *args);
    v.law_round_trip(Seq::empty());
    x.law_round_trip(Seq::empty());
    let head = crate::bytes::le(rid as nat, 8);
    let w = <u32 as Wire>::wire(*v);
    let y = <i32 as Wire>::wire(x);
    assert((head + w).skip(8) =~= w + Seq::<u8>::empty());
    assert((head + y).skip(8) =~= y + Seq::<u8>::empty());
    assert(forall|i: int| 0 <= i < 8 ==> (head + w)[i] == head[i]);
    assert(forall|i: int| 0 <= i < 8 ==> (head + y)[i] == head[i]);
}

/// Method 3 gives back the number that it was given, and then how the request was found,
/// the time stamps of the doorbell, of the end of its handler, of the waking and of the
/// request's being seen, and the four of the dispatch.
pub proof fn law_round_trip_is_measured(
    server: &mut RpcServer,
    shm: &mut SharedMemory<3>,
    h: &mut RtAsyncRpc,
    rid: u64,
    raw: u64,
    v: &u64,
    req: Message,
    p: ProcessResult,
    resp: &Message,
    got: Option<(u64, PingReply)>,
)
    requires
        old(shm).wf(),
        old(server).req() == 0,
        old(server).resp() == 1,
        calls(raw, 3),
        call_ensures(Message::request::<u64>, (rid, raw, v), Ok::<Message, EncodeError>(req)),
        comes_up(old(shm)@, req@),
        call_ensures(RpcServer::process_one::<RtAsyncRpc>, (server, shm, h), p),
        resp@ == final(shm)@.channels[1].queue.last(),
        call_ensures(Message::as_response::<PingReply>, (resp,), got),
    ensures
        answers(old(shm)@, final(shm)@, raw, p),
        got is Some,
        (got->0).0 == rid,
        ({
            let x = (got->0).1;
            &&& x.0 == *v
            &&& x.1 == old(h).path
            &&& x.2 == old(h).t_isr
            &&& x.3 == old(h).t_drain
            &&& x.4 == old(h).t_sched
            &&& x.5 == old(h).t_seen
            &&& x.6 == old(h).marks@[0]
            &&& x.7 == old(h).marks@[1]
            &&& x.8 == old(h).marks@[2]
            &&& x.9 == old(h).marks@[3]
        }),
{
    old(shm).lemma_count();
    let pre = *old(h);
    let pong = pre.pong(*v);
    crate::varint::lemma_pow128_words();
    crate::varint::lemma_varint_len(*v as nat, 10);
    crate::varint::lemma_varint_len(pong.0 as nat, 10);
    crate::varint::lemma_varint_len(pong.2 as nat, 10);
    crate::varint::lemma_varint_len(pong.3 as nat, 10);
    crate::varint::lemma_varint_len(pong.4 as nat, 10);
    crate::varint::lemma_varint_len(pong.5 as nat, 10);
    crate::varint::lemma_varint_len(pong.6 as nat, 10);
    crate::varint::lemma_varint_len(pong.7 as nat, 10);
    crate::varint::lemma_varint_len(pong.8 as nat, 10);
    crate::varint::lemma_varint_len(pong.9 as nat, 10);
    assert(<PingReply as Wire>::wire(pong).len() <= 91);
    let f = |x: u64| pre.pong(x);
    lemma_answer::<RtAsyncRpc, u64, PingReply>(
        old(server).on(old(shm)@),
        pre,
        final(server).on(final(shm)@),
        *final(h),
        p@,
        rid,
        raw,
        3,
        *v,
        f,
        pong,
    );
}

/// Counter `i` of the service shows `x`: one that is kept elsewhere shows what is
/// kept there, one that there is not shows 0.
pub open spec fn shows(c: Seq<u64>, probes: bool, from: Readings, i: u32, x: u64) -> bool {
    &&& i < 6 || 7 <= i < 15 ==> x == c[i as int]
    &&& i == 6 ==> x == from.resp_fails
    &&& i == 15 ==> x == from.now
    &&& i == 16 ==> x == from.freq_hz
    &&& probes && 17 <= i < 20 ==> x == c[i as int]
    &&& probes && 20 <= i < 24 ==> x == from.stamps@[i - 20]
    &&& i >= 24 || (i >= 17 && !probes) ==> x == 0
}

/// Method 4 shows a counter.
pub proof fn law_counter_is_read(
    server: &mut RpcServer,
    shm: &mut SharedMemory<3>,
    h: &mut RtAsyncRpc,
    rid: u64,
    raw: u64,
    i: &u32,
    req: Message,
    p: ProcessResult,
    resp: &Message,
    got: Option<(u64, u64)>,
)
    requires
        old(shm).wf(),
        old(server).req() == 0,
        old(server).resp() == 1,
        calls(raw, 4),
        call_ensures(Message::request::<u32>, (rid, raw, i), Ok::<Message, EncodeError>(req)),
        comes_up(old(shm)@, req@),
        call_ensures(RpcServer::process_one::<RtAsyncRpc>, (server, shm, h), p),
        resp@ == final(shm)@.channels[1].queue.last(),
        call_ensures(Message::as_response::<u64>, (resp,), got),
    ensures
        answers(old(shm)@, final(shm)@, raw, p),
        got is Some,
        (got->0).0 == rid,
        shows(old(h).stats@, old(h).stats.probes(), old(h).from, *i, (got->0).1),
{
    broadcast use Stats::lemma_len;

    old(shm).lemma_count();
    let pre = *old(h);
    let x = pre.stats.shown(*i, pre.from);
    crate::varint::lemma_pow128_words();
    crate::varint::lemma_varint_len(*i as nat, 5);
    crate::varint::lemma_varint_len(x as nat, 10);
    let f = |v: u32| pre.stats.shown(v, pre.from);
    lemma_answer::<RtAsyncRpc, u32, u64>(
        old(server).on(old(shm)@),
        pre,
        final(server).on(final(shm)@),
        *final(h),
        p@,
        rid,
        raw,
        4,
        *i,
        f,
        x,
    );
}

/// Method 5, where the measuring probes are there, gives the two numbers of the
/// measurement that was taken.
pub proof fn law_measurement_is_read(
    server: &mut RpcServer,
    shm: &mut SharedMemory<3>,
    h: &mut RtAsyncRpc,
    rid: u64,
    raw: u64,
    args: &(u32, u32),
    req: Message,
    p: ProcessResult,
    resp: &Message,
    got: Option<(u64, (u64, u64))>,
)
    requires
        old(shm).wf(),
        old(server).req() == 0,
        old(server).resp() == 1,
        old(h).stats.probes(),
        calls(raw, 5),
        call_ensures(
            Message::request::<(u32, u32)>,
            (rid, raw, args),
            Ok::<Message, EncodeError>(req),
        ),
        comes_up(old(shm)@, req@),
        call_ensures(RpcServer::process_one::<RtAsyncRpc>, (server, shm, h), p),
        resp@ == final(shm)@.channels[1].queue.last(),
        call_ensures(Message::as_response::<(u64, u64)>, (resp,), got),
    ensures
        answers(old(shm)@, final(shm)@, raw, p),
        got == Some((rid, old(h).bench)),
{
    old(shm).lemma_count();
    let pre = *old(h);
    let b = pre.bench;
    crate::varint::lemma_pow128_words();
    crate::varint::lemma_varint_len(args.0 as nat, 5);
    crate::varint::lemma_varint_len(args.1 as nat, 5);
    crate::varint::lemma_varint_len(b.0 as nat, 10);
    crate::varint::lemma_varint_len(b.1 as nat, 10);
    let f = |v: (u32, u32)| pre.bench;
    lemma_answer::<RtAsyncRpc, (u32, u32), (u64, u64)>(
        old(server).on(old(shm)@),
        pre,
        final(server).on(final(shm)@),
        *final(h),
        p@,
        rid,
        raw,
        5,
        *args,
        f,
        b,
    );
}

/// A method that the service does not have is refused: the caller gets a response of
/// ones. So is a call of a method that gives no answer (2, and 6 with the probes).
pub proof fn law_unknown_method_is_refused(
    server: &mut RpcServer,
    shm: &mut SharedMemory<3>,
    h: &mut RtAsyncRpc,
    m: Msg,
    rid: u64,
    raw: u64,
    method: u64,
    p: ProcessResult,
)
    requires
        old(shm).wf(),
        old(server).req() == 0,
        old(server).resp() == 1,
        method < 0x4000_0000_0000_0000,
        method == 2 || method > 6 || (method > 4 && !old(h).stats.probes()),
        calls(raw, method as int),
        m.request_id() == Some(rid),
        m.method_id() == Some(raw),
        comes_up(old(shm)@, m),
        call_ensures(RpcServer::process_one::<RtAsyncRpc>, (server, shm, h), p),
    ensures
        p == ProcessResult::Unhandled(method),
        final(shm)@.channels[1].queue.drop_last() == old(shm)@.channels[1].queue,
        refuses(final(shm)@.channels[1].queue.last(), rid as int),
{
    broadcast use crate::bytes::lemma_le_len;

    old(shm).lemma_count();
    lemma_flags(raw);
    assert(stripped(raw) == method);
    let s0 = old(server).on(old(shm)@);
    let s1 = final(server).on(final(shm)@);
    assert(processed(0, 1, s0, *old(h), s1, *final(h), p@));
    let q = s0.window.channels[1].queue;
    let b = crate::server::poison(rid);
    crate::bytes::law_weights_of_eight(rid);
    let head = crate::bytes::le(rid as nat, 8);
    assert(forall|i: int| 0 <= i < 8 ==> b.payload[i] == head[i]);
    assert((q + seq![b]).drop_last() =~= q);
}

/// What has to happen before a request is handled: method 2 waits for as many
/// microseconds as it is told; methods 5 and 6, with the probes, measure and run an
/// experiment, with their two arguments in order. Nothing has to happen for any other.
pub proof fn law_work_is_what_was_asked(
    rid: u64,
    raw: u64,
    method: u64,
    us: &u32,
    delay: Message,
    args: &(u32, u32),
    probe: Message,
    probes: bool,
    w1: Work,
    w2: Work,
)
    requires
        method < 0x4000_0000_0000_0000,
        raw % 0x4000_0000_0000_0000 == method,
        call_ensures(Message::request::<u32>, (rid, raw, us), Ok::<Message, EncodeError>(delay)),
        call_ensures(
            Message::request::<(u32, u32)>,
            (rid, raw, args),
            Ok::<Message, EncodeError>(probe),
        ),
        call_ensures(work_of, (&delay, probes), w1),
        call_ensures(work_of, (&probe, probes), w2),
    ensures
        method == 2 ==> w1 == Work::Delay(*us),
        method == 5 && probes ==> w2 == Work::Membench(args.0, args.1),
        method == 6 && probes ==> w2 == Work::Litmus(args.0, args.1),
        method != 2 && (!probes || (method != 5 && method != 6)) ==> w1 == Work::Nothing && w2
            == Work::Nothing,
{
    lemma_flags(raw);
    crate::message::law_request_round_trip(rid, raw, *us);
    crate::message::law_request_round_trip(rid, raw, *args);
}

/// A message that is no request asks for no work.
pub proof fn law_no_request_no_work(m: &Message, probes: bool, w: Work)
    requires
        m@.kind != 2,
        call_ensures(work_of, (m, probes), w),
    ensures
        w == Work::Nothing,
{
}

/// The clock of the core has 24 ticks in a microsecond: 1000 nanoseconds are 24 ticks.
pub proof fn law_ticks_as_nanoseconds(t: u64, r: u64)
    requires
        t * 1_000_000_000 <= u64::MAX,
        call_ensures(ticks_to_ns, (t,), r),
    ensures
        24 * r <= 1000 * t < 24 * (r + 1),
{
}

/// A wait of `us` microseconds takes as many ticks as a clock of that frequency makes in
/// that time, rounded down.
pub proof fn law_delay_in_ticks(us: u32, freq: u32, r: u64)
    requires
        call_ensures(delay_ticks, (us, freq), r),
    ensures
        1_000_000 * r <= us * freq < 1_000_000 * (r + 1),
{
    let p = us as nat * freq as nat;
    assert(us * freq == p);
    assert(1_000_000 * (p / 1_000_000) <= p < 1_000_000 * (p / 1_000_000 + 1));
}

/// The counters `d` are the counters `c` but for those of which `f` holds.
pub open spec fn others_stay(c: Seq<u64>, d: Seq<u64>, f: spec_fn(int) -> bool) -> bool {
    d.len() == c.len() && forall|i: int| 0 <= i < c.len() && !f(i) ==> d[i] == #[trigger] c[i]
}

/// `y` is the shorter, `z` the longer of `x` and what was kept before.
pub open spec fn bounds(was_min: u64, was_max: u64, x: int, y: u64, z: u64) -> bool {
    &&& y <= x && y <= was_min && (y == x || y == was_min)
    &&& z >= x && z >= was_max && (z == x || z == was_max)
}

/// A message that took `t1 - t0` ticks is counted (0), also under the way in which it was
/// found (1 to 4), and its time in nanoseconds is kept as the last (12), the
/// shortest (13) and the longest (14).
pub proof fn law_message_is_counted(s: &mut Stats, path: u8, t0: u64, t1: u64)
    requires
        t0 <= t1,
        (t1 - t0) * 1_000_000_000 <= u64::MAX,
        call_ensures(account, (s, path, t0, t1), ()),
    ensures
        ({
            let c = old(s)@;
            let d = final(s)@;
            &&& d[0] == (c[0] + 1) % 0x1_0000_0000_0000_0000
            &&& 24 * d[12] <= 1000 * (t1 - t0) < 24 * (d[12] + 1)
            &&& bounds(c[13], c[14], d[12] as int, d[13], d[14])
            &&& 1 <= path <= 4 ==> d[path as int] == (c[path as int] + 1)
                % 0x1_0000_0000_0000_0000
            &&& others_stay(
                c,
                d,
                |i: int| i == 0 || 12 <= i <= 14 || (i == path && 1 <= path <= 4),
            )
        }),
        final(s).probes() == old(s).probes(),
{
    broadcast use Stats::lemma_len;

    assert(old(s)@.len() == 24);
    let ns = crate::apps::intercom::ns_of(crate::apps::intercom::span(t0, t1));
    assert(ns * 24 <= (t1 - t0) * 1000);
    assert(ns <= u64::MAX);
}

/// A message that ended before it began took no time.
pub proof fn law_time_is_never_negative(s: &mut Stats, path: u8, t0: u64, t1: u64)
    requires
        t1 < t0,
        call_ensures(account, (s, path, t0, t1), ()),
    ensures
        final(s)@[12] == 0,
        final(s)@[13] == 0,
        final(s)@[14] == old(s)@[14],
{
    broadcast use Stats::lemma_len;

    assert(old(s)@.len() == 24);
}

/// A spinning window that ran out is counted (11), its length is kept as the last (8), the
/// shortest (9) and the longest (10), and a doorbell within it is counted (5).
pub proof fn law_window_is_counted(s: &mut Stats, e: &Elastic)
    requires
        e.window_start <= e.window_end,
        (e.window_end - e.window_start) * 1_000_000_000 <= u64::MAX,
        call_ensures(close_window, (s, e), ()),
    ensures
        ({
            let c = old(s)@;
            let d = final(s)@;
            &&& d[11] == (c[11] + 1) % 0x1_0000_0000_0000_0000
            &&& 24 * d[8] <= 1000 * (e.window_end - e.window_start) < 24 * (d[8] + 1)
            &&& bounds(c[9], c[10], d[8] as int, d[9], d[10])
            &&& d[5] == (c[5] + (if e.redundant {
                1int
            } else {
                0int
            })) % 0x1_0000_0000_0000_0000
            &&& others_stay(c, d, |i: int| i == 5 || 8 <= i <= 11)
        }),
{
    broadcast use Stats::lemma_len;

    assert(old(s)@.len() == 24);
    let ns = crate::apps::intercom::ns_of(
        crate::apps::intercom::span(e.window_start, e.window_end),
    );
    assert(ns * 24 <= (e.window_end - e.window_start) * 1000);
    assert(ns <= u64::MAX);
}

/// A window that was set up again is counted (7).
pub proof fn law_heal_is_counted(s: &mut Stats)
    requires
        call_ensures(note_magic_heal, (s,), ()),
    ensures
        final(s)@[7] == (old(s)@[7] + 1) % 0x1_0000_0000_0000_0000,
        others_stay(old(s)@, final(s)@, |i: int| i == 7),
{
    broadcast use Stats::lemma_len;

    assert(old(s)@.len() == 24);
}

/// Counters start at 0, those that keep a minimum (9 and 13) at all ones; there are 24
/// with the probes and 17 without.
pub proof fn law_counters_start(probe: bool, s: Stats, n: u32)
    requires
        call_ensures(Stats::new, (probe,), s),
        call_ensures(Stats::count, (&s,), n),
    ensures
        s@.len() == 24,
        s@[9] == 0xffff_ffff_ffff_ffff,
        s@[13] == 0xffff_ffff_ffff_ffff,
        forall|i: int| 0 <= i < 24 && i != 9 && i != 13 ==> #[trigger] s@[i] == 0,
        probe ==> n == 24,
        !probe ==> n == 17,
        s.probes() == probe,
{
}

/// What the counters show when they are read.
pub proof fn law_counter_shows(s: &Stats, i: u32, from: &Readings, x: u64)
    requires
        call_ensures(Stats::get, (s, i, from), x),
    ensures
        shows(s@, s.probes(), *from, i, x),
{
}

/// Counters that there are can be counted up, set, lowered and raised, one at a time;
/// for one that there is not, nothing happens.
pub proof fn law_counters_are_kept(
    a: &mut Stats,
    b: &mut Stats,
    c: &mut Stats,
    d: &mut Stats,
    i: u32,
    v: u64,
)
    requires
        call_ensures(Stats::bump, (a, i), ()),
        call_ensures(Stats::set, (b, i, v), ()),
        call_ensures(Stats::min, (c, i, v), ()),
        call_ensures(Stats::max, (d, i, v), ()),
    ensures
        ({
            let has = |s: Stats| i < 17 || (i < 24 && s.probes());
            let k = i as int;
            &&& others_stay(old(a)@, final(a)@, |j: int| j == i && has(*old(a)))
            &&& others_stay(old(b)@, final(b)@, |j: int| j == i && has(*old(b)))
            &&& others_stay(old(c)@, final(c)@, |j: int| j == i && has(*old(c)))
            &&& others_stay(old(d)@, final(d)@, |j: int| j == i && has(*old(d)))
            &&& has(*old(a)) ==> final(a)@[k] == (old(a)@[k] + 1) % 0x1_0000_0000_0000_0000
            &&& has(*old(b)) ==> final(b)@[k] == v
            &&& has(*old(c)) ==> final(c)@[k] <= v && final(c)@[k] <= old(c)@[k] && (final(c)@[k]
                == v || final(c)@[k] == old(c)@[k])
            &&& has(*old(d)) ==> final(d)@[k] >= v && final(d)@[k] >= old(d)@[k] && (final(d)@[k]
                == v || final(d)@[k] == old(d)@[k])
        }),
{
    broadcast use Stats::lemma_len;

    assert(old(a)@.len() == 24 && old(b)@.len() == 24 && old(c)@.len() == 24 && old(d)@.len()
        == 24);
    assert(final(a)@.len() == 24 && final(b)@.len() == 24);
    assert(final(c)@.len() == 24 && final(d)@.len() == 24);
}

/// After a message: the doorbell rings for a request that asked for it, another message
/// is passed on, and the end of the messages is told.
pub proof fn law_reaction(p: ProcessResult, r: Option<Reaction>)
    requires
        call_ensures(react, (p,), r),
    ensures
        r is None <==> p is NoMessage,
        p == ProcessResult::Handled(HandledKind::Notify) ==> r is Some && r->0 is Notify,
        p == ProcessResult::Handled(HandledKind::Quiet) ==> r is Some && r->0 is Nothing,
        p == ProcessResult::Handled(HandledKind::OneWay) ==> r is Some && r->0 is Nothing,
        p is Unhandled ==> r is Some && r->0 is Nothing,
        p is NotRpc ==> r is Some && r->0 is Other && r->0->Other_0@ == p->NotRpc_0@,
{
}

/// All urgent messages come before the ordinary ones, and the round ends where neither is
/// left; every message counts once.
pub proof fn law_urgent_messages_first(
    start: DrainAll,
    d: &mut DrainAll,
    found: bool,
)
    requires
        call_ensures(DrainAll::begin, (), start),
        old(d).count < u64::MAX,
        call_ensures(DrainAll::advance, (d, found), ()),
    ensures
        start.urgent == Some(true),
        start.count == 0,
        old(d).urgent is Some && found ==> final(d).urgent == old(d).urgent && final(d).count
            == old(d).count + 1,
        old(d).urgent == Some(true) && !found ==> final(d).urgent == Some(false) && final(d).count
            == old(d).count,
        old(d).urgent == Some(false) && !found ==> final(d).urgent is None && final(d).count
            == old(d).count,
        old(d).urgent is None ==> *final(d) == *old(d),
{
}

/// The message `m` is the last of channel 1 after it was sent there, where the channel is
/// set up and fewer than 127 messages waited; nothing is changed otherwise.
pub open spec fn queued_last(before: Window, after: Window, m: Msg, sent: bool) -> bool {
    let c = before.channels[1];
    &&& sent <==> c.magic == 0x4F56 && c.queue.len() < 127
    &&& !sent ==> after == before
    &&& sent ==> {
        &&& after.channels[1].queue.len() == c.queue.len() + 1
        &&& after.channels[1].queue.drop_last() == c.queue
        &&& after.channels[1].queue.last() == m
        &&& after.channels[0] == before.channels[0]
        &&& after.channels[2] == before.channels[2]
        &&& after.busy == before.busy
    }
}

/// A message is sent to the other core through channel 1, a notification as one.
pub proof fn law_message_is_sent(
    s: &mut SharedMemory<3>,
    m: &Message,
    r: bool,
    t: &mut SharedMemory<3>,
    id: u32,
    note: Message,
    q: bool,
)
    requires
        old(s).wf(),
        old(t).wf(),
        call_ensures(send_message, (s, m), r),
        call_ensures(Message::notification, (id,), note),
        call_ensures(send_notification, (t, id), q),
    ensures
        queued_last(old(s)@, final(s)@, m@, r),
        queued_last(old(t)@, final(t)@, note@, q),
{
    old(s).lemma_count();
    old(t).lemma_count();
    let a = old(s)@.channels[1].queue;
    let b = old(t)@.channels[1].queue;
    assert((a + seq![m@]).drop_last() =~= a);
    assert((b + seq![note@]).drop_last() =~= b);
    assert(old(s)@.channels.update(1, old(s)@.channels[1]) =~= old(s)@.channels);
    assert(old(t)@.channels.update(1, old(t)@.channels[1]) =~= old(t)@.channels);
}

/// A notification is sent back to the core that it came from, with the same number, and
/// counted; every 4096th is logged. Data is logged with its 255 bytes, and anything else
/// is dropped.
pub proof fn law_notification_is_echoed(
    shm: &mut SharedMemory<3>,
    seen: &mut u64,
    id: u32,
    note: Message,
    msg: &Message,
    r: Echoed,
)
    requires
        old(shm).wf(),
        *old(seen) < u64::MAX,
        call_ensures(Message::notification, (id,), note),
        call_ensures(handle_non_rpc, (shm, seen, msg), r),
    ensures
        msg@ == note@ ==> {
            &&& queued_last(old(shm)@, final(shm)@, note@, r.notify)
            &&& *final(seen) == *old(seen) + 1
            &&& r.log is Some <==> *final(seen) % 4096 == 0
            &&& r.log is Some ==> r.log == Some((*final(seen), id))
            &&& r.data is None
        },
        msg@.kind == 1 ==> r == (Echoed { notify: false, log: None, data: Some(255) }),
        msg@.kind > 1 ==> r == (Echoed { notify: false, log: None, data: None }),
        msg@.kind != 0 ==> final(shm)@ == old(shm)@ && *final(seen) == *old(seen),
{
    old(shm).lemma_count();
    crate::message::law_notification_round_trip(id);
    let a = old(shm)@.channels[1].queue;
    assert((a + seq![note@]).drop_last() =~= a);
    assert(old(shm)@.channels.update(1, old(shm)@.channels[1]) =~= old(shm)@.channels);
}

/// An ordinary message waits where the window was found, its channel 0 is set up and
/// not empty.
pub proof fn law_pending(base: usize, shm: &SharedMemory<3>, r: bool)
    requires
        shm.wf(),
        call_ensures(has_pending, (base, shm), r),
    ensures
        r <==> base != usize::MAX && shm@.channels[0].magic == 0x4F56 && shm@.channels[0].queue.len()
            > 0,
{
}

/// A core waits for the other to set the window up until the time is over, and then sets
/// it up itself.
pub proof fn law_wait_for_the_other_core(
    w: &WaitReady,
    valid: bool,
    now: u64,
    freq: u32,
    r: Ready,
)
    requires
        freq > 0,
        w.start <= now,
        (now - w.start) * 1_000_000_000 <= u64::MAX,
        w.fallback_ms * 1_000_000 <= u64::MAX,
        call_ensures(WaitReady::poll, (w, valid, now, freq), r),
    ensures
        r == Ready::Online <==> valid,
        r == Ready::Fallback <==> !valid && (now - w.start) * 1000 >= w.fallback_ms * freq,
        r == Ready::Again <==> !valid && (now - w.start) * 1000 < w.fallback_ms * freq,
{
    let t = (now - w.start) * 1_000_000_000;
    let f = freq as int;
    let k = w.fallback_ms * 1_000_000;
    assert((t / f >= k) == (t >= k * f)) by (nonlinear_arith)
        requires
            f > 0,
            t >= 0,
            k >= 0,
    ;
    assert(k * f == 1_000_000 * (w.fallback_ms * freq)) by (nonlinear_arith)
        requires
            k == w.fallback_ms * 1_000_000,
            f == freq,
    ;
}

/// The end of every 4096th waking is logged.
pub proof fn law_every_4096th_is_logged(n: u64, r: bool)
    requires
        call_ensures(log_due, (n,), r),
    ensures
        r <==> n % 4096 == 0,
{
}

} // verus!
