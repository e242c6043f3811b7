//! One waking of the core as a whole: the messages that wait are processed one by
//! one, urgent ones first, and counted by the way in which they were found.

use crate::apps::elastic::{
    cleared, moved, Elastic, Event, Order, PATH_IRQ_WAKE, PATH_RACE_CLOSE,
};
use crate::apps::intercom::{accounted, counted, drain_moved, window_closed, DrainAll};
use crate::apps::stats::{
    initial, D1_IRQ_WAKE, D2_SPIN_HIT, D3_BATCH_APPEND, D4_RACE_CLOSE, HEALS, MSGS,
};
use crate::server::{can_take, processed, without_head, Processed, RpcHandler, Served};
use crate::shm::Window;
use vstd::prelude::*;

verus! {

/// What is to be done next in a waking.
#[derive(Debug, Clone, Copy, PartialEq, Eq, Structural)]
pub enum WakeOrder {
    /// Process one message, urgent or ordinary, if there is one.
    Process(bool),
    /// Read the clock.
    ReadClock,
    /// Look whether a message waits; spin once where this is no last look.
    Look(bool),
    /// Read the time of the last doorbell.
    ReadDoorbell,
    /// Count the window that has run out, clear the busy flag, and make a full
    /// fence.
    ClearBusy,
    /// Sleep.
    Sleep,
}

/// What was found.
#[derive(Debug, Clone, Copy, PartialEq, Eq, Structural)]
pub enum WakeEvent {
    /// Whether there was a message to process.
    Processed(bool),
    /// The clock or the time of a doorbell.
    Time(u64),
    /// Whether a message waits.
    Waiting(bool),
    /// What was ordered is done.
    Done,
}

/// One waking of the core.
#[derive(Debug, Clone, Copy, PartialEq, Eq, Structural)]
pub struct Waking {
    /// The order of rounds, looks and sleep.
    pub elastic: Elastic,
    /// The round of messages that is under way.
    pub drain: DrainAll,
}

/// What is to be done next.
pub open spec fn wake_order(w: Waking) -> WakeOrder {
    match w.elastic.order {
        Order::Drain | Order::LastDrain => WakeOrder::Process(w.drain.urgent == Some(true)),
        Order::StartWindow | Order::EndWindow => WakeOrder::ReadClock,
        Order::Look => WakeOrder::Look(true),
        Order::LastLook => WakeOrder::Look(false),
        Order::ReadDoorbell => WakeOrder::ReadDoorbell,
        Order::ClearBusy => WakeOrder::ClearBusy,
        Order::Sleep => WakeOrder::Sleep,
    }
}

/// No round is under way.
pub open spec fn no_round() -> DrainAll {
    DrainAll { urgent: Some(true), count: 0 }
}

/// The waking after event `ev`. A round ends when neither an urgent nor an
/// ordinary message is left. An event that does not fit the order changes nothing.
pub open spec fn wake_moved(w: Waking, ev: WakeEvent) -> Waking {
    match (wake_order(w), ev) {
        (WakeOrder::Process(_), WakeEvent::Processed(found)) => {
            let d = drain_moved(w.drain, found);
            if d.urgent is None {
                Waking { elastic: moved(w.elastic, Event::Drained(d.count)), drain: no_round() }
            } else {
                Waking { drain: d, ..w }
            }
        },
        (WakeOrder::ReadClock, WakeEvent::Time(t)) | (
            WakeOrder::ReadDoorbell,
            WakeEvent::Time(t),
        ) => Waking { elastic: moved(w.elastic, Event::Time(t)), ..w },
        (WakeOrder::Look(_), WakeEvent::Waiting(found)) => Waking {
            elastic: moved(w.elastic, Event::Waiting(found)),
            ..w
        },
        (WakeOrder::ClearBusy, WakeEvent::Done) => Waking {
            elastic: moved(w.elastic, Event::Done),
            ..w
        },
        _ => w,
    }
}

/// A waking before anything was done; the last doorbell rang at `doorbell`.
pub open spec fn woken(doorbell: u64) -> Waking {
    Waking {
        elastic: Elastic {
            order: Order::Drain,
            path: PATH_IRQ_WAKE,
            total: 0,
            spun: 0,
            window_start: 0,
            window_end: 0,
            doorbell,
            redundant: false,
        },
        drain: no_round(),
    }
}

impl Waking {
    /// A round is under way only while messages are processed.
    pub open spec fn wf(self) -> bool {
        &&& self.elastic.wf()
        &&& self.drain.urgent is Some
        &&& !(wake_order(self) is Process) ==> self.drain == no_round()
        &&& self.elastic.total + self.drain.count <= u64::MAX
    }

    /// Messages processed so far.
    pub open spec fn done(self) -> int {
        self.elastic.total + self.drain.count
    }

    /// One more message can be counted.
    pub open spec fn fits(self, ev: WakeEvent) -> bool {
        ev == WakeEvent::Processed(true) ==> self.done() < u64::MAX
    }

    /// The core is awake; the last doorbell rang at `doorbell`. The busy flag is
    /// to be set before the first order.
    pub fn begin(doorbell: u64) -> (r: Waking)
        ensures
            r == woken(doorbell),
            r.wf(),
    {
        Waking { elastic: Elastic::begin(doorbell), drain: DrainAll::begin() }
    }

    /// What is to be done next.
    pub fn order(&self) -> (r: WakeOrder)
        ensures
            r == wake_order(*self),
    {
        match self.elastic.order {
            Order::Drain | Order::LastDrain => WakeOrder::Process(
                match self.drain.urgent {
                    Some(u) => u,
                    None => false,
                },
            ),
            Order::StartWindow | Order::EndWindow => WakeOrder::ReadClock,
            Order::Look => WakeOrder::Look(true),
            Order::LastLook => WakeOrder::Look(false),
            Order::ReadDoorbell => WakeOrder::ReadDoorbell,
            Order::ClearBusy => WakeOrder::ClearBusy,
            Order::Sleep => WakeOrder::Sleep,
        }
    }

    /// Whether [`Waking::advance`] can take `ev` in.
    pub fn can_take(&self, ev: WakeEvent) -> (r: bool)
        requires
            self.wf(),
        ensures
            r == self.fits(ev),
    {
        ev != WakeEvent::Processed(true) || self.elastic.total + self.drain.count < u64::MAX
    }

    /// Takes in what was found.
    pub fn advance(&mut self, ev: WakeEvent)
        requires
            old(self).wf(),
            old(self).fits(ev),
        ensures
            final(self).wf(),
            *final(self) == wake_moved(*old(self), ev),
    {
        match (self.order(), ev) {
            (WakeOrder::Process(_), WakeEvent::Processed(found)) => {
                self.drain.advance(found);
                if self.drain.urgent.is_none() {
                    self.elastic.advance(Event::Drained(self.drain.count));
                    self.drain = DrainAll::begin();
                }
            },
            (WakeOrder::ReadClock, WakeEvent::Time(t)) => {
                self.elastic.advance(Event::Time(t));
            },
            (WakeOrder::ReadDoorbell, WakeEvent::Time(t)) => {
                self.elastic.advance(Event::Time(t));
            },
            (WakeOrder::Look(_), WakeEvent::Waiting(found)) => {
                self.elastic.advance(Event::Waiting(found));
            },
            (WakeOrder::ClearBusy, WakeEvent::Done) => {
                self.elastic.advance(Event::Done);
            },
            _ => {},
        }
    }
}

/// The four ways in which messages are found, added up.
pub open spec fn by_path(c: Seq<u64>) -> int {
    c[D1_IRQ_WAKE as int] + c[D2_SPIN_HIT as int] + c[D3_BATCH_APPEND as int]
        + c[D4_RACE_CLOSE as int]
}

/// The four ways in which messages are found add up to the number of messages,
/// modulo 2^64.
pub open spec fn balanced(c: Seq<u64>) -> bool {
    c.len() == 24 && by_path(c) % 0x1_0000_0000_0000_0000 == c[MSGS as int]
}

/// The counters are balanced from the start, and everything that is counted keeps
/// them so.
pub proof fn law_counters_stay_balanced(c: Seq<u64>, path: u8, ns: u64, redundant: bool)
    requires
        balanced(c),
        PATH_IRQ_WAKE <= path <= PATH_RACE_CLOSE,
    ensures
        balanced(initial()),
        balanced(accounted(c, path, ns)),
        balanced(window_closed(c, ns, redundant)),
        balanced(counted(c, HEALS as int)),
        forall|i: int, v: u64|
            D4_RACE_CLOSE < i < 24 ==> balanced(#[trigger] c.update(i, v)),
{
}

/// The core, the window and the counters in the course of a waking.
pub struct Awake<H> {
    /// The window and the count of failed responses.
    pub served: Served,
    /// The handler.
    pub handler: H,
    /// The counters.
    pub counters: Seq<u64>,
    /// The waking.
    pub waking: Waking,
}

/// A message waits in one of the two channels of requests.
pub open spec fn pending(w: Window) -> bool {
    can_take(w, 0) || can_take(w, 2)
}

/// Two windows differ in the channel of responses at most.
pub open spec fn same_requests(a: Window, b: Window) -> bool {
    &&& a.busy == b.busy
    &&& b.channels.len() == 3
    &&& a.channels[0] == b.channels[0]
    &&& a.channels[2] == b.channels[2]
}

/// One message was looked for, with result `p`, in `ns` nanoseconds. What is done
/// about it afterwards may send on the channel of responses.
pub open spec fn handled_one<H: RpcHandler>(
    a: Awake<H>,
    b: Awake<H>,
    urgent: bool,
    s: Served,
    p: Processed,
    ns: u64,
) -> bool {
    &&& processed(
        if urgent {
            2
        } else {
            0
        },
        1,
        a.served,
        a.handler,
        s,
        b.handler,
        p,
    )
    &&& same_requests(s.window, b.served.window)
    &&& b.waking == wake_moved(a.waking, WakeEvent::Processed(p !is NoMessage))
    &&& b.counters == (if p is NoMessage {
        a.counters
    } else {
        accounted(a.counters, a.waking.elastic.path, ns)
    })
}

/// The core carried out one order, and nobody sent a request meanwhile.
pub open spec fn carried_out<H: RpcHandler>(a: Awake<H>, b: Awake<H>) -> bool {
    match wake_order(a.waking) {
        WakeOrder::Process(urgent) => exists|s: Served, p: Processed, ns: u64|
            #[trigger] handled_one(a, b, urgent, s, p, ns),
        WakeOrder::Look(_) => b == (Awake {
            waking: wake_moved(a.waking, WakeEvent::Waiting(pending(a.served.window))),
            ..a
        }),
        WakeOrder::ReadClock | WakeOrder::ReadDoorbell => exists|t: u64|
            b == (Awake { waking: #[trigger] wake_moved(a.waking, WakeEvent::Time(t)), ..a }),
        WakeOrder::ClearBusy => exists|ns: u64|
            b == (Awake {
                served: Served {
                    window: Window { busy: false, ..a.served.window },
                    ..a.served
                },
                counters: #[trigger] window_closed(a.counters, ns, a.waking.elastic.redundant),
                waking: wake_moved(a.waking, WakeEvent::Done),
                ..a
            }),
        WakeOrder::Sleep => false,
    }
}

/// The channels of requests are set up.
pub open spec fn requests_valid(w: Window) -> bool {
    w.channels.len() == 3 && w.channels[0].valid() && w.channels[2].valid()
}

/// Requests that wait.
pub open spec fn left(w: Window) -> nat {
    w.channels[0].queue.len() + w.channels[2].queue.len()
}

/// What holds at every point of a waking that began with `k` requests and the
/// counters `c`.
spec fn on_course<H>(a: Awake<H>, k: int, c: Seq<u64>) -> bool {
    let w = a.served.window;
    &&& requests_valid(w)
    &&& a.waking.wf()
    &&& a.waking.done() + left(w) == k
    &&& a.counters.len() == 24
    &&& a.counters[MSGS as int] == c[MSGS as int] + a.waking.done()
    &&& by_path(a.counters) == by_path(c) + a.waking.done()
    &&& w.busy == !cleared(a.waking.elastic.order)
    &&& wake_order(a.waking) == WakeOrder::Process(false) ==> w.channels[2].queue.len() == 0
    &&& !(wake_order(a.waking) is Process) ==> left(w) == 0
    &&& a.waking.elastic.order != Order::LastDrain
}

/// Processing a message of a channel of requests takes it from there, and touches
/// the channel of responses at most besides.
proof fn lemma_one_taken<H: RpcHandler>(
    ch: u8,
    s0: Served,
    h0: H,
    s1: Served,
    h1: H,
    p: Processed,
)
    requires
        ch == 0 || ch == 2,
        s0.window.channels.len() == 3,
        processed(ch, 1, s0, h0, s1, h1, p),
    ensures
        p is NoMessage <==> !can_take(s0.window, ch),
        ({
            let w = if p is NoMessage {
                s0.window
            } else {
                without_head(s0.window, ch)
            };
            same_requests(w, s1.window)
        }),
{
}

proof fn lemma_one_order<H: RpcHandler>(a: Awake<H>, b: Awake<H>, k: int, c: Seq<u64>)
    requires
        on_course(a, k, c),
        carried_out(a, b),
        k <= u64::MAX,
        c[MSGS as int] + k <= u64::MAX,
        by_path(c) + k <= u64::MAX,
    ensures
        on_course(b, k, c),
{
    let w = a.served.window;
    match wake_order(a.waking) {
        WakeOrder::Process(urgent) => {
            let (s, p, ns) = choose|s: Served, p: Processed, ns: u64|
                #[trigger] handled_one(a, b, urgent, s, p, ns);
            let ch = if urgent {
                2u8
            } else {
                0
            };
            lemma_one_taken(ch, a.served, a.handler, s, b.handler, p);
            if !(p is NoMessage) {
                let q = w.channels[ch as int].queue;
                assert(q.skip(1).len() == q.len() - 1);
            }
        },
        _ => {},
    }
}

/// One waking of a core that is left alone: of `k` requests that wait, all are
/// processed and counted before it sleeps, the channels of requests are empty
/// then, each message counts once as a message and once for the way in which it
/// was found, and the busy flag is set until the order that clears it.
pub proof fn law_waking_processes_all<H: RpcHandler>(states: Seq<Awake<H>>, doorbell: u64)
    requires
        states.len() > 0,
        states[0].waking == woken(doorbell),
        requests_valid(states[0].served.window),
        states[0].served.window.busy,
        states[0].counters.len() == 24,
        states[0].counters[MSGS as int] + left(states[0].served.window) <= u64::MAX,
        by_path(states[0].counters) + left(states[0].served.window) <= u64::MAX,
        forall|i: int|
            0 <= i < states.len() - 1 ==> carried_out(#[trigger] states[i], states[i + 1]),
    ensures
        forall|i: int|
            0 <= i < states.len() ==> (#[trigger] states[i]).served.window.busy == !cleared(
                states[i].waking.elastic.order,
            ),
        states.last().waking.elastic.order == Order::Sleep ==> ({
            let k = left(states[0].served.window);
            let end = states.last();
            &&& end.waking.elastic.total == k
            &&& left(end.served.window) == 0
            &&& end.counters[MSGS as int] == states[0].counters[MSGS as int] + k
            &&& by_path(end.counters) == by_path(states[0].counters) + k
        }),
{
    let k = left(states[0].served.window) as int;
    let c = states[0].counters;
    assert forall|i: int| 0 <= i < states.len() implies on_course(#[trigger] states[i], k, c) by {
        lemma_course(states, k, c, i);
    }
    assert(on_course(states.last(), k, c));
}

proof fn lemma_course<H: RpcHandler>(states: Seq<Awake<H>>, k: int, c: Seq<u64>, i: int)
    requires
        0 <= i < states.len(),
        on_course(states[0], k, c),
        k <= u64::MAX,
        c[MSGS as int] + k <= u64::MAX,
        by_path(c) + k <= u64::MAX,
        forall|j: int|
            0 <= j < states.len() - 1 ==> carried_out(#[trigger] states[j], states[j + 1]),
    ensures
        on_course(states[i], k, c),
    decreases i,
{
    if i > 0 {
        lemma_course(states, k, c, i - 1);
        assert(carried_out(states[i - 1], states[i - 1 + 1]));
        lemma_one_order(states[i - 1], states[i], k, c);
    }
}

} // verus!
