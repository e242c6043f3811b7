//! The service of the real-time core, with measurements.

use crate::apps::elastic::{Elastic, PATH_IRQ_WAKE, PATH_RACE_CLOSE};
use crate::apps::stats::{
    sampled, Readings, Stats, HEALS, MSGS, REDUNDANT_IRQ, SVC_LAST_NS, WINDOWS, WIN_LAST_NS,
};
use crate::channel::{Chan, ChannelId, CHANNEL_CAPACITY};
use crate::client::{entries, law_responses_add_up, result_of};
use crate::descriptor::{self, FLAG_ONE_WAY};
use crate::exchange::{heads, law_call_returns, law_table_arrives, ready, waiting};
use crate::message::{Message, Msg, MsgType};
use crate::rpc::{
    law_flags, strip_flags, stripped, MethodId, CHANNEL_RESP, METHOD_INIT, NOTIFY_FLAG,
};
use crate::server::{
    can_take, processed, HandledKind, ProcessResult, Processed, Reply, Response, RpcError,
    RpcHandler, RpcServer, Served,
};
use crate::service::{answer, arguments, called, told};
use crate::shm::SharedMemory;
use crate::stream::whole;
use crate::wire::{zigzag, PingReply, Wire};
use vstd::prelude::*;
use vstd::string::*;

verus! {

/// Ticks of the system clock in a second.
pub const CLOCK_HZ: u64 = 24_000_000;

/// Once in so many events something is logged.
pub const LOG_PERIOD: u64 = 4096;

/// Clock ticks as nanoseconds.
pub open spec fn ns_of(t: nat) -> nat {
    t * 1_000_000_000 / 24_000_000
}

/// Clock ticks as nanoseconds.
pub fn ticks_to_ns(t: u64) -> (r: u64)
    requires
        t * 1_000_000_000 <= u64::MAX,
    ensures
        r == ns_of(t as nat),
{
    t * 1_000_000_000 / CLOCK_HZ
}

/// The time from `t0` to `t1`, zero where `t1` is not later.
pub open spec fn span(t0: u64, t1: u64) -> nat {
    if t1 >= t0 {
        (t1 - t0) as nat
    } else {
        0
    }
}

/// The number of ticks in `us` microseconds.
pub fn delay_ticks(us: u32, freq_hz: u32) -> (r: u64)
    ensures
        r == us as nat * freq_hz as nat / 1_000_000,
{
    proof {
        assert(us as nat * freq_hz as nat <= 0xffff_ffff * 0xffff_ffff) by (nonlinear_arith)
            requires
                us <= 0xffff_ffff,
                freq_hz <= 0xffff_ffff,
        ;
    }
    us as u64 * freq_hz as u64 / 1_000_000
}

/// The sum of two numbers, modulo 2^32.
pub open spec fn wrapping_sum(a: i32, b: i32) -> i32 {
    if a + b > i32::MAX {
        (a + b - 0x1_0000_0000) as i32
    } else if a + b < i32::MIN {
        (a + b + 0x1_0000_0000) as i32
    } else {
        (a + b) as i32
    }
}

/// Method numbers.
pub const ECHO: MethodId = 0;

/// Adds two numbers.
pub const ADD: MethodId = 1;

/// Waits.
pub const DELAY: MethodId = 2;

/// Measures a round trip.
pub const PING: MethodId = 3;

/// Shows a counter.
pub const STATS: MethodId = 4;

/// Measures accesses to memory.
pub const MEMBENCH: MethodId = 5;

/// Runs an ordering experiment.
pub const LITMUS: MethodId = 6;

/// The handler of the service. What it cannot compute itself is put into it
/// before a request is handled.
pub struct RtAsyncRpc {
    /// The counters.
    pub stats: Stats,
    /// What counters are read from.
    pub from: Readings,
    /// How the request was found.
    pub path: u8,
    /// The last doorbell.
    pub t_isr: u64,
    /// When the last doorbell's handler finished.
    pub t_drain: u64,
    /// When the core woke.
    pub t_sched: u64,
    /// When the request was seen.
    pub t_seen: u64,
    /// Time stamps of the dispatch.
    pub marks: [u64; 4],
    /// What the memory measurement that the request asks for gave.
    pub bench: (u64, u64),
}

impl RtAsyncRpc {
    /// The answer to a measurement of a round trip.
    pub open spec fn pong(&self, val: u64) -> (u64, u8, u64, u64, u64, u64, u64, u64, u64, u64) {
        (
            val,
            self.path,
            self.t_isr,
            self.t_drain,
            self.t_sched,
            self.t_seen,
            self.marks@[0],
            self.marks@[1],
            self.marks@[2],
            self.marks@[3],
        )
    }

    /// The answer to a measurement of a round trip.
    pub fn ping(&self, val: u64) -> (r: PingReply)
        ensures
            r@ == self.pong(val),
    {
        (
            val,
            self.path,
            self.t_isr,
            self.t_drain,
            self.t_sched,
            self.t_seen,
            self.marks[0],
            self.marks[1],
            self.marks[2],
            self.marks[3],
        )
    }
}

/// The columns of the table of methods, without the measuring probes.
pub open spec fn plain_table() -> Seq<descriptor::Method> {
    descriptor::table_of(
        seq![ECHO, ADD, DELAY, PING, STATS],
        seq![0u8, 0u8, FLAG_ONE_WAY, 0u8, 0u8],
        seq!["ECHO", "ADD", "DELAY", "PING", "STATS"],
    )
}

/// The columns of the table of methods, with the measuring probes.
pub open spec fn probe_table() -> Seq<descriptor::Method> {
    descriptor::table_of(
        seq![ECHO, ADD, DELAY, PING, STATS, MEMBENCH, LITMUS],
        seq![0u8, 0u8, FLAG_ONE_WAY, 0u8, 0u8, 0u8, FLAG_ONE_WAY],
        seq!["ECHO", "ADD", "DELAY", "PING", "STATS", "MEMBENCH", "LITMUS"],
    )
}

/// A string of `n` plain characters takes `n` bytes.
pub proof fn lemma_ascii_len(s: &str, n: nat)
    requires
        s@.len() == n,
        vstd::utf8::is_ascii_chars(s@),
    ensures
        s.spec_bytes().len() == n,
{
    vstd::utf8::is_ascii_chars_encode_utf8(s@);
}

/// The tables are short.
pub(crate) proof fn lemma_tables_short()
    ensures
        descriptor::table_bytes(plain_table()).len() <= 100,
        descriptor::table_bytes(probe_table()).len() <= 100,
{
    reveal_strlit("ECHO");
    reveal_strlit("ADD");
    reveal_strlit("DELAY");
    reveal_strlit("PING");
    reveal_strlit("STATS");
    reveal_strlit("MEMBENCH");
    reveal_strlit("LITMUS");
    lemma_ascii_len("ECHO", 4);
    lemma_ascii_len("ADD", 3);
    lemma_ascii_len("DELAY", 5);
    lemma_ascii_len("PING", 4);
    lemma_ascii_len("STATS", 5);
    lemma_ascii_len("MEMBENCH", 8);
    lemma_ascii_len("LITMUS", 6);
    descriptor::lemma_table_len(plain_table(), 8);
    descriptor::lemma_table_len(probe_table(), 8);
}

impl RpcHandler for RtAsyncRpc {
    open spec fn handled(
        pre: Self,
        method: MethodId,
        msg: Msg,
        post: Self,
        out: Seq<u8>,
        r: Result<Reply, RpcError>,
    ) -> bool {
        &&& post == pre
        &&& if method == ECHO {
            called::<u32, u32>(msg, |v: u32| v, out, r)
        } else if method == ADD {
            called::<(i32, i32), i32>(msg, |v: (i32, i32)| wrapping_sum(v.0, v.1), out, r)
        } else if method == DELAY {
            told::<u32>(msg, r)
        } else if method == PING {
            called::<u64, PingReply>(msg, |v: u64| pre.pong(v), out, r)
        } else if method == STATS {
            called::<u32, u64>(msg, |v: u32| pre.stats.shown(v, pre.from), out, r)
        } else if method == MEMBENCH && pre.stats.probes() {
            called::<(u32, u32), (u64, u64)>(msg, |v: (u32, u32)| pre.bench, out, r)
        } else if method == LITMUS && pre.stats.probes() {
            told::<(u32, u32)>(msg, r)
        } else {
            r == Ok::<Reply, RpcError>(Reply::Silent)
        }
    }

    open spec fn described(&self) -> Seq<u8> {
        descriptor::table_bytes(
            if self.stats.probes() {
                probe_table()
            } else {
                plain_table()
            },
        )
    }

    fn handle(&mut self, method: MethodId, msg: Message, out: &mut Response) -> (r: Result<
        Reply,
        RpcError,
    >) {
        if method == ECHO {
            match arguments::<u32>(&msg) {
                Ok((rid, val)) => answer(out, rid, &val),
                Err(e) => Err(e),
            }
        } else if method == ADD {
            match arguments::<(i32, i32)>(&msg) {
                Ok((rid, (a, b))) => {
                    let sum: i32 = a.wrapping_add(b);
                    answer(out, rid, &sum)
                },
                Err(e) => Err(e),
            }
        } else if method == DELAY {
            match arguments::<u32>(&msg) {
                Ok(_) => Ok(Reply::Silent),
                Err(e) => Err(e),
            }
        } else if method == PING {
            match arguments::<u64>(&msg) {
                Ok((rid, val)) => {
                    let pong = self.ping(val);
                    answer(out, rid, &pong)
                },
                Err(e) => Err(e),
            }
        } else if method == STATS {
            match arguments::<u32>(&msg) {
                Ok((rid, idx)) => {
                    let v: u64 = self.stats.get(idx, &self.from);
                    answer(out, rid, &v)
                },
                Err(e) => Err(e),
            }
        } else if method == MEMBENCH && self.stats.count() == 24 {
            match arguments::<(u32, u32)>(&msg) {
                Ok((rid, _)) => {
                    let bench = self.bench;
                    answer(out, rid, &bench)
                },
                Err(e) => Err(e),
            }
        } else if method == LITMUS && self.stats.count() == 24 {
            match arguments::<(u32, u32)>(&msg) {
                Ok(_) => Ok(Reply::Silent),
                Err(e) => Err(e),
            }
        } else {
            Ok(Reply::Silent)
        }
    }

    fn descriptor(&self) -> (r: Vec<u8>) {
        proof {
            lemma_tables_short();
        }
        if self.stats.count() == 24 {
            let mids: [u64; 7] = [ECHO, ADD, DELAY, PING, STATS, MEMBENCH, LITMUS];
            let flags: [u8; 7] = [0, 0, FLAG_ONE_WAY, 0, 0, 0, FLAG_ONE_WAY];
            let names: [&str; 7] = ["ECHO", "ADD", "DELAY", "PING", "STATS", "MEMBENCH", "LITMUS"];
            proof {
                assert(descriptor::table_of(mids@, flags@, names@) =~= probe_table());
            }
            descriptor::encode(mids.as_slice(), flags.as_slice(), names.as_slice())
        } else {
            let mids: [u64; 5] = [ECHO, ADD, DELAY, PING, STATS];
            let flags: [u8; 5] = [0, 0, FLAG_ONE_WAY, 0, 0];
            let names: [&str; 5] = ["ECHO", "ADD", "DELAY", "PING", "STATS"];
            proof {
                assert(descriptor::table_of(mids@, flags@, names@) =~= plain_table());
            }
            descriptor::encode(mids.as_slice(), flags.as_slice(), names.as_slice())
        }
    }
}

/// A call of [`ADD`] gives the caller the sum: it finds a response to its request
/// behind those that waited, and reads the sum from it.
pub proof fn law_sum_returns(
    s0: Served,
    h0: RtAsyncRpc,
    s1: Served,
    h1: RtAsyncRpc,
    p: Processed,
    rid: u64,
    a: i32,
    b: i32,
)
    requires
        ready(s0.window, 0, 1),
        heads(s0.window, 0, Msg::request(rid, ADD | NOTIFY_FLAG, <(i32, i32)>::wire((a, b)))),
        s0.window.channels[1].queue.len() < CHANNEL_CAPACITY - 1,
        processed(0, 1, s0, h0, s1, h1, p),
    ensures
        p == Processed::Handled(HandledKind::Notify),
        waiting(s1.window, 1).drop_last() == waiting(s0.window, 1),
        waiting(s1.window, 1).last().rid == rid,
        result_of::<i32>(waiting(s1.window, 1).last()) == Some(wrapping_sum(a, b)),
{
    broadcast use crate::bytes::lemma_le_len;

    let f = |v: (i32, i32)| wrapping_sum(v.0, v.1);
    let sum = wrapping_sum(a, b);
    law_flags(ADD);
    crate::varint::lemma_pow128_words();
    crate::varint::lemma_varint_len(zigzag(a as int), 5);
    crate::varint::lemma_varint_len(zigzag(b as int), 5);
    crate::varint::lemma_varint_len(zigzag(sum as int), 5);
    law_call_returns::<RtAsyncRpc, (i32, i32), i32>(
        0,
        1,
        s0,
        h0,
        s1,
        h1,
        p,
        rid,
        ADD | NOTIFY_FLAG,
        (a, b),
        f,
        sum,
    );
    assert(waiting(s1.window, 1).drop_last() =~= waiting(s0.window, 1));
}

/// Discovery gives the caller the table of this service.
pub proof fn law_methods_are_found(
    s0: Served,
    h0: RtAsyncRpc,
    s1: Served,
    h1: RtAsyncRpc,
    p: Processed,
    rid: u64,
)
    requires
        ready(s0.window, 0, 1),
        heads(s0.window, 0, Msg::request(rid, METHOD_INIT | NOTIFY_FLAG, Seq::empty())),
        s0.window.channels[1].queue.len() < CHANNEL_CAPACITY - 1,
        processed(0, 1, s0, h0, s1, h1, p),
    ensures
        p == Processed::Handled(HandledKind::Notify),
        waiting(s1.window, 1).drop_last() == waiting(s0.window, 1),
        waiting(s1.window, 1).last().rid == rid,
        descriptor::parsed(waiting(s1.window, 1).last().data) == Some(
            if h0.stats.probes() {
                probe_table()
            } else {
                plain_table()
            },
        ),
{
    broadcast use crate::bytes::lemma_le_len;

    let ms = if h0.stats.probes() {
        probe_table()
    } else {
        plain_table()
    };
    lemma_tables_short();
    law_flags(METHOD_INIT);
    assert forall|i: int| 0 <= i < ms.len() implies vstd::utf8::valid_utf8(
        (#[trigger] ms[i]).name,
    ) by {
        let names = if h0.stats.probes() {
            seq!["ECHO", "ADD", "DELAY", "PING", "STATS", "MEMBENCH", "LITMUS"]
        } else {
            seq!["ECHO", "ADD", "DELAY", "PING", "STATS"]
        };
        vstd::utf8::encode_utf8_valid_utf8(names[i]@);
    }
    law_table_arrives(0, 1, s0, h0, s1, h1, p, rid, METHOD_INIT | NOTIFY_FLAG, ms);
    assert(waiting(s1.window, 1).drop_last() =~= waiting(s0.window, 1));
}

/// A notification on the response channel comes between no call and its result:
/// the channel stays whole and holds the same responses.
pub proof fn law_notification_passes(c: Chan, id: u32)
    requires
        whole(c.queue),
    ensures
        whole(c.send(seq![Msg::notification(id)]).1.queue),
        entries(c.send(seq![Msg::notification(id)]).1.queue) == entries(c.queue),
{
    let m = Msg::notification(id);
    crate::stream::lemma_single_unit(m);
    crate::stream::lemma_whole_join(c.queue, seq![m]);
    law_responses_add_up(c.queue, seq![m]);
    assert(entries(seq![m].skip(1)).len() == 0);
    assert(entries(c.queue) + entries(seq![m]) =~= entries(c.queue));
}

/// What has to happen before a message is handled.
#[derive(Debug, Clone, Copy, PartialEq, Eq, Structural)]
pub enum Work {
    /// Nothing.
    Nothing,
    /// Wait for so many microseconds.
    Delay(u32),
    /// Measure accesses to memory.
    Membench(u32, u32),
    /// Run an ordering experiment.
    Litmus(u32, u32),
}

/// What has to happen before `m` is handled.
pub open spec fn work_for(m: Msg, probes: bool) -> Work {
    match m.method_id() {
        None => Work::Nothing,
        Some(raw) => if stripped(raw) == DELAY {
            match m.as_request::<u32>() {
                Some((rid, mid, us)) => Work::Delay(us),
                None => Work::Nothing,
            }
        } else if stripped(raw) == MEMBENCH && probes {
            match m.as_request::<(u32, u32)>() {
                Some((rid, mid, a)) => Work::Membench(a.0, a.1),
                None => Work::Nothing,
            }
        } else if stripped(raw) == LITMUS && probes {
            match m.as_request::<(u32, u32)>() {
                Some((rid, mid, a)) => Work::Litmus(a.0, a.1),
                None => Work::Nothing,
            }
        } else {
            Work::Nothing
        },
    }
}

/// What has to happen before `msg` is handled.
pub fn work_of(msg: &Message, probes: bool) -> (r: Work)
    ensures
        r == work_for(msg@, probes),
{
    let raw: u64 = match msg.method_id() {
        Some(x) => x,
        None => return Work::Nothing,
    };
    let method: u64 = strip_flags(raw);
    if method == DELAY {
        match msg.as_request::<u32>() {
            Some((_, _, us)) => Work::Delay(us),
            None => Work::Nothing,
        }
    } else if method == MEMBENCH && probes {
        match msg.as_request::<(u32, u32)>() {
            Some((_, _, (op, arg))) => Work::Membench(op, arg),
            None => Work::Nothing,
        }
    } else if method == LITMUS && probes {
        match msg.as_request::<(u32, u32)>() {
            Some((_, _, (op, arg))) => Work::Litmus(op, arg),
            None => Work::Nothing,
        }
    } else {
        Work::Nothing
    }
}

/// The counters after a message that was found by `path` and took `ns`
/// nanoseconds.
pub open spec fn accounted(c: Seq<u64>, path: u8, ns: u64) -> Seq<u64> {
    let d = counted(sampled(c, SVC_LAST_NS as int, ns), MSGS as int);
    if PATH_IRQ_WAKE <= path <= PATH_RACE_CLOSE {
        counted(d, path as int)
    } else {
        d
    }
}

/// The counters after one more event of kind `i`.
pub open spec fn counted(c: Seq<u64>, i: int) -> Seq<u64> {
    c.update(
        i,
        if c[i] == u64::MAX {
            0
        } else {
            (c[i] + 1) as u64
        },
    )
}

/// The counters after a spinning window of `ns` nanoseconds has run out, in
/// which a doorbell rang or not.
pub open spec fn window_closed(c: Seq<u64>, ns: u64, redundant: bool) -> Seq<u64> {
    let d = counted(sampled(c, WIN_LAST_NS as int, ns), WINDOWS as int);
    if redundant {
        counted(d, REDUNDANT_IRQ as int)
    } else {
        d
    }
}

/// Counts a message that was found by `path` and processed between `t0` and
/// `t1`.
pub fn account(stats: &mut Stats, path: u8, t0: u64, t1: u64)
    requires
        span(t0, t1) * 1_000_000_000 <= u64::MAX,
    ensures
        final(stats).probes() == old(stats).probes(),
        final(stats)@ == accounted(old(stats)@, path, ns_of(span(t0, t1)) as u64),
{
    broadcast use Stats::lemma_len;

    let ns: u64 = ticks_to_ns(t1.saturating_sub(t0));
    stats.sample(SVC_LAST_NS, ns);
    stats.bump(MSGS);
    if PATH_IRQ_WAKE <= path && path <= PATH_RACE_CLOSE {
        stats.bump(path as u32);
    }
}

/// Counts a spinning window that has run out.
pub fn close_window(stats: &mut Stats, e: &Elastic)
    requires
        span(e.window_start, e.window_end) * 1_000_000_000 <= u64::MAX,
    ensures
        final(stats).probes() == old(stats).probes(),
        final(stats)@ == window_closed(
            old(stats)@,
            ns_of(span(e.window_start, e.window_end)) as u64,
            e.redundant,
        ),
{
    let ns: u64 = ticks_to_ns(e.window_end.saturating_sub(e.window_start));
    stats.sample(WIN_LAST_NS, ns);
    stats.bump(WINDOWS);
    if e.redundant {
        stats.bump(REDUNDANT_IRQ);
    }
}

/// Counts that the shared window is set up again.
pub fn note_magic_heal(stats: &mut Stats)
    ensures
        final(stats).probes() == old(stats).probes(),
        final(stats)@ == counted(old(stats)@, HEALS as int),
{
    stats.bump(HEALS);
}

/// What is to be done after a message was processed.
#[derive(Debug)]
pub enum Reaction {
    /// Nothing.
    Nothing,
    /// Ring the doorbell of the other core.
    Notify,
    /// Look at a message that is no request.
    Other(Message),
}

/// What is to be done after a message was processed with result `p`; `None`
/// when there was no message.
pub open spec fn reacted(p: Processed, r: Option<Reaction>) -> bool {
    match p {
        Processed::NoMessage => r is None,
        Processed::Handled(HandledKind::Notify) => r matches Some(x) && x is Notify,
        Processed::NotRpc(m) => r matches Some(Reaction::Other(x)) && x@ == m,
        _ => r matches Some(x) && x is Nothing,
    }
}

/// What is to be done after a message was processed.
pub fn react(result: ProcessResult) -> (r: Option<Reaction>)
    ensures
        reacted(result@, r),
{
    match result {
        ProcessResult::NoMessage => None,
        ProcessResult::Handled(kind) => if kind == HandledKind::Notify {
            Some(Reaction::Notify)
        } else {
            Some(Reaction::Nothing)
        },
        ProcessResult::Unhandled(_) => Some(Reaction::Nothing),
        ProcessResult::NotRpc(m) => Some(Reaction::Other(m)),
    }
}

/// Processes one message, urgent or ordinary.
pub fn step<H: RpcHandler>(
    server: &mut RpcServer,
    shm: &mut SharedMemory<3>,
    handler: &mut H,
    urgent: bool,
) -> (r: Option<Reaction>)
    requires
        old(shm).wf(),
    ensures
        final(shm).wf(),
        final(server).same_but_fails(old(server)),
        exists|p: Processed|
            #[trigger] reacted(p, r) && processed(
                if urgent {
                    old(server).urgent()
                } else {
                    old(server).req()
                },
                old(server).resp(),
                old(server).on(old(shm)@),
                *old(handler),
                final(server).on(final(shm)@),
                *final(handler),
                p,
            ),
{
    let result = if urgent {
        server.process_urgent(shm, handler)
    } else {
        server.process_one(shm, handler)
    };
    react(result)
}

/// Goes through the urgent messages, then through the ordinary ones.
#[derive(Debug, Clone, Copy, PartialEq, Eq, Structural)]
pub struct DrainAll {
    /// The next message to process is urgent; `None` at the end.
    pub urgent: Option<bool>,
    /// Messages processed.
    pub count: u64,
}

/// The state after it was found whether there was a message.
pub open spec fn drain_moved(d: DrainAll, found: bool) -> DrainAll {
    match (d.urgent, found) {
        (None, _) => d,
        (Some(u), true) => DrainAll { urgent: Some(u), count: (d.count + 1) as u64 },
        (Some(true), false) => DrainAll { urgent: Some(false), count: d.count },
        (Some(false), false) => DrainAll { urgent: None, count: d.count },
    }
}

impl DrainAll {
    /// Starts with the urgent messages.
    pub fn begin() -> (r: DrainAll)
        ensures
            r == (DrainAll { urgent: Some(true), count: 0 }),
    {
        DrainAll { urgent: Some(true), count: 0 }
    }

    /// Takes in whether there was a message.
    pub fn advance(&mut self, found: bool)
        requires
            found ==> old(self).count < u64::MAX,
        ensures
            *final(self) == drain_moved(*old(self), found),
    {
        match self.urgent {
            None => {},
            Some(u) => {
                if found {
                    self.count = self.count + 1;
                } else if u {
                    self.urgent = Some(false);
                } else {
                    self.urgent = None;
                }
            },
        }
    }
}

/// What became of a message that is no request.
#[derive(Debug, Clone, Copy, PartialEq, Eq)]
pub struct Echoed {
    /// Ring the doorbell of the other core.
    pub notify: bool,
    /// Log the number of the notification and how many there were.
    pub log: Option<(u64, u32)>,
    /// Log that data of this many bytes came.
    pub data: Option<usize>,
}

/// Sends `msg` on the response channel; `true` when the doorbell of the other
/// core is due.
pub fn send_message(shm: &mut SharedMemory<3>, msg: &Message) -> (r: bool)
    requires
        old(shm).wf(),
    ensures
        final(shm).wf(),
        r == (old(shm)@.channels[1].send(seq![msg@]).0 is Ok),
        final(shm)@ == old(shm)@.with(1, old(shm)@.channels[1].send(seq![msg@]).1),
{
    match shm.sender(ChannelId::new(CHANNEL_RESP)) {
        Ok(mut tx) => tx.try_send(msg).is_ok(),
        Err(_) => false,
    }
}

/// Sends the notification `id` on the response channel; `true` when the
/// doorbell of the other core is due.
pub fn send_notification(shm: &mut SharedMemory<3>, id: u32) -> (r: bool)
    requires
        old(shm).wf(),
    ensures
        final(shm).wf(),
        r == (old(shm)@.channels[1].send(seq![Msg::notification(id)]).0 is Ok),
        final(shm)@ == old(shm)@.with(
            1,
            old(shm)@.channels[1].send(seq![Msg::notification(id)]).1,
        ),
{
    send_message(shm, &Message::notification(id))
}

/// Looks at a message that is no request: a notification is sent back, data is
/// logged, anything else is dropped. `seen` counts the notifications.
pub fn handle_non_rpc(shm: &mut SharedMemory<3>, seen: &mut u64, msg: &Message) -> (r: Echoed)
    requires
        old(shm).wf(),
        *old(seen) < u64::MAX,
    ensures
        final(shm).wf(),
        if msg@.ty() == Some(MsgType::Notification) {
            let id = crate::bytes::from_le(msg@.payload.take(4)) as u32;
            let (sent, c) = old(shm)@.channels[1].send(seq![Msg::notification(id)]);
            let n = *old(seen) + 1;
            &&& *final(seen) == n
            &&& final(shm)@ == old(shm)@.with(1, c)
            &&& r == (Echoed {
                notify: sent is Ok,
                log: if n % 4096 == 0 {
                    Some((n as u64, id))
                } else {
                    None
                },
                data: None,
            })
        } else {
            &&& *final(seen) == *old(seen)
            &&& final(shm)@ == old(shm)@
            &&& r == (Echoed {
                notify: false,
                log: None,
                data: if msg@.ty() == Some(MsgType::Data) {
                    Some(255)
                } else {
                    None
                },
            })
        },
{
    match msg.ty() {
        Some(MsgType::Notification) => match msg.as_notification() {
            Some(id) => {
                *seen = *seen + 1;
                let n: u64 = *seen;
                let notify = send_notification(shm, id);
                Echoed {
                    notify,
                    log: if n % LOG_PERIOD == 0 {
                        Some((n, id))
                    } else {
                        None
                    },
                    data: None,
                }
            },
            None => Echoed { notify: false, log: None, data: None },
        },
        Some(MsgType::Data) => Echoed { notify: false, log: None, data: Some(255) },
        _ => Echoed { notify: false, log: None, data: None },
    }
}

/// Marks a window that has not been found yet.
pub const NO_BASE: usize = usize::MAX;

/// Whether an ordinary message waits, where the window has been found.
pub fn has_pending(base: usize, shm: &SharedMemory<3>) -> (r: bool)
    requires
        shm.wf(),
    ensures
        r == (base != NO_BASE && can_take(shm@, 0)),
{
    if base == NO_BASE {
        return false;
    }
    RpcServer::new(base).has_pending(shm)
}

/// Waits for the other core to set the shared window up.
#[derive(Debug, Clone, Copy, PartialEq, Eq, Structural)]
pub struct WaitReady {
    /// When the waiting started.
    pub start: u64,
    /// How long to wait, in milliseconds.
    pub fallback_ms: u64,
}

/// What to do while waiting.
#[derive(Debug, Clone, Copy, PartialEq, Eq, Structural)]
pub enum Ready {
    /// The window is set up.
    Online,
    /// The time is over: set the window up here.
    Fallback,
    /// Look again later.
    Again,
}

impl WaitReady {
    /// Decides after a look at the window at time `now`, with a clock of
    /// `freq_hz`.
    pub fn poll(&self, valid: bool, now: u64, freq_hz: u32) -> (r: Ready)
        requires
            freq_hz > 0,
            self.start <= now,
            (now - self.start) * 1_000_000_000 <= u64::MAX,
            self.fallback_ms * 1_000_000 <= u64::MAX,
        ensures
            r == (if valid {
                Ready::Online
            } else if (now - self.start) * 1_000_000_000 / freq_hz as int >= self.fallback_ms
                * 1_000_000 {
                Ready::Fallback
            } else {
                Ready::Again
            }),
    {
        if valid {
            return Ready::Online;
        }
        let elapsed_ns: u64 = (now - self.start) * 1_000_000_000 / freq_hz as u64;
        if elapsed_ns >= self.fallback_ms * 1_000_000 {
            Ready::Fallback
        } else {
            Ready::Again
        }
    }
}

/// Whether the end of waking number `cycles` is logged.
pub fn log_due(cycles: u64) -> (r: bool)
    ensures
        r == (cycles % 4096 == 0),
{
    cycles % LOG_PERIOD == 0
}

} // verus!
