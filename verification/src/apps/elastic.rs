//! Elastic waiting: after the messages are processed, the core keeps looking
//! for more for a while before it goes to sleep.
//!
//! While the busy flag is set, a client that sends a message rings no
//! doorbell. The flag is cleared before the last look at the channels, so a
//! message that was sent without a doorbell is always found.

use vstd::prelude::*;

verus! {

/// Number of looks at the channels before the core goes to sleep.
pub const ELASTIC_SPIN_LIMIT: u32 = 100000;

/// How a message was found: after an interrupt woke the core.
pub const PATH_IRQ_WAKE: u8 = 1;

/// How a message was found: while spinning.
pub const PATH_SPIN_HIT: u8 = 2;

/// How a message was found: right after others.
pub const PATH_BATCH_APPEND: u8 = 3;

/// How a message was found: in the last check before sleeping.
pub const PATH_RACE_CLOSE: u8 = 4;

/// What is to be done next.
#[derive(Debug, Clone, Copy, PartialEq, Eq, Structural)]
pub enum Order {
    /// Process every message and report how many there were.
    Drain,
    /// Read the clock: a spinning window starts.
    StartWindow,
    /// Look whether a message waits.
    Look,
    /// Read the clock: a spinning window has run out.
    EndWindow,
    /// Read the time of the last doorbell.
    ReadDoorbell,
    /// Clear the busy flag, with a full fence after it.
    ClearBusy,
    /// Look once more whether a message waits.
    LastLook,
    /// Process every message once more.
    LastDrain,
    /// Sleep.
    Sleep,
}

/// What was found.
#[derive(Debug, Clone, Copy, PartialEq, Eq, Structural)]
pub enum Event {
    /// Messages were processed.
    Drained(u64),
    /// The clock or the time of a doorbell.
    Time(u64),
    /// Whether a message waits.
    Waiting(bool),
    /// What was ordered is done.
    Done,
}

/// One waking of the core, from the doorbell to sleep.
#[derive(Debug, Clone, Copy, PartialEq, Eq, Structural)]
pub struct Elastic {
    /// What is to be done next.
    pub order: Order,
    /// How the next messages are found.
    pub path: u8,
    /// Messages processed so far.
    pub total: u64,
    /// Looks at the channels in this window.
    pub spun: u32,
    /// When this window started.
    pub window_start: u64,
    /// When this window ended.
    pub window_end: u64,
    /// The last doorbell before the core woke.
    pub doorbell: u64,
    /// A doorbell rang while the core was awake.
    pub redundant: bool,
}

/// The waking after event `ev`. An event that does not fit the order changes
/// nothing.
pub open spec fn moved(e: Elastic, ev: Event) -> Elastic {
    match (e.order, ev) {
        (Order::Drain, Event::Drained(n)) => if n > 0 {
            Elastic { total: (e.total + n) as u64, path: PATH_BATCH_APPEND, ..e }
        } else {
            Elastic { order: Order::StartWindow, ..e }
        },
        (Order::StartWindow, Event::Time(t)) => Elastic {
            order: Order::Look,
            spun: 0,
            window_start: t,
            ..e
        },
        (Order::Look, Event::Waiting(true)) => Elastic {
            order: Order::Drain,
            path: PATH_SPIN_HIT,
            ..e
        },
        (Order::Look, Event::Waiting(false)) => Elastic {
            order: if e.spun + 1 >= ELASTIC_SPIN_LIMIT {
                Order::EndWindow
            } else {
                Order::Look
            },
            spun: (e.spun + 1) as u32,
            ..e
        },
        (Order::EndWindow, Event::Time(t)) => Elastic {
            order: Order::ReadDoorbell,
            window_end: t,
            ..e
        },
        (Order::ReadDoorbell, Event::Time(t)) => Elastic {
            order: Order::ClearBusy,
            redundant: t != e.doorbell,
            ..e
        },
        (Order::ClearBusy, Event::Done) => Elastic { order: Order::LastLook, ..e },
        (Order::LastLook, Event::Waiting(true)) => Elastic {
            order: Order::LastDrain,
            path: PATH_RACE_CLOSE,
            ..e
        },
        (Order::LastLook, Event::Waiting(false)) => Elastic { order: Order::Sleep, ..e },
        (Order::LastDrain, Event::Drained(n)) => Elastic {
            order: Order::Sleep,
            total: (e.total + n) as u64,
            ..e
        },
        _ => e,
    }
}

impl Elastic {
    /// The looks of a window stay below the limit while it lasts, and messages
    /// are found in one of the four ways.
    pub open spec fn wf(self) -> bool {
        &&& self.spun <= ELASTIC_SPIN_LIMIT
        &&& self.order == Order::Look ==> self.spun < ELASTIC_SPIN_LIMIT
        &&& PATH_IRQ_WAKE <= self.path <= PATH_RACE_CLOSE
    }

    /// The core is awake; the last doorbell rang at `doorbell`. The busy flag
    /// is to be set before the first order.
    pub fn begin(doorbell: u64) -> (r: Elastic)
        ensures
            r == (Elastic {
                order: Order::Drain,
                path: PATH_IRQ_WAKE,
                total: 0,
                spun: 0,
                window_start: 0,
                window_end: 0,
                doorbell,
                redundant: false,
            }),
            r.wf(),
    {
        Elastic {
            order: Order::Drain,
            path: PATH_IRQ_WAKE,
            total: 0,
            spun: 0,
            window_start: 0,
            window_end: 0,
            doorbell,
            redundant: false,
        }
    }

    /// Takes in what was found; the next order stands in `order`.
    pub fn advance(&mut self, ev: Event)
        requires
            old(self).wf(),
            ev matches Event::Drained(n) ==> old(self).total + n <= u64::MAX,
        ensures
            *final(self) == moved(*old(self), ev),
            final(self).wf(),
    {
        match (self.order, ev) {
            (Order::Drain, Event::Drained(n)) => {
                if n > 0 {
                    self.total = self.total + n;
                    self.path = PATH_BATCH_APPEND;
                } else {
                    self.order = Order::StartWindow;
                }
            },
            (Order::StartWindow, Event::Time(t)) => {
                self.order = Order::Look;
                self.spun = 0;
                self.window_start = t;
            },
            (Order::Look, Event::Waiting(found)) => {
                if found {
                    self.order = Order::Drain;
                    self.path = PATH_SPIN_HIT;
                } else {
                    self.spun = self.spun + 1;
                    if self.spun >= ELASTIC_SPIN_LIMIT {
                        self.order = Order::EndWindow;
                    }
                }
            },
            (Order::EndWindow, Event::Time(t)) => {
                self.order = Order::ReadDoorbell;
                self.window_end = t;
            },
            (Order::ReadDoorbell, Event::Time(t)) => {
                self.order = Order::ClearBusy;
                self.redundant = t != self.doorbell;
            },
            (Order::ClearBusy, Event::Done) => {
                self.order = Order::LastLook;
            },
            (Order::LastLook, Event::Waiting(found)) => {
                if found {
                    self.order = Order::LastDrain;
                    self.path = PATH_RACE_CLOSE;
                } else {
                    self.order = Order::Sleep;
                }
            },
            (Order::LastDrain, Event::Drained(n)) => {
                self.order = Order::Sleep;
                self.total = self.total + n;
            },
            _ => {},
        }
    }
}

/// The waking after a sequence of events.
pub open spec fn moved_all(e: Elastic, evs: Seq<Event>) -> Elastic
    decreases evs.len(),
{
    if evs.len() == 0 {
        e
    } else {
        moved(moved_all(e, evs.drop_last()), evs.last())
    }
}

/// The busy flag has been cleared.
pub open spec fn cleared(o: Order) -> bool {
    o == Order::LastLook || o == Order::LastDrain || o == Order::Sleep
}

/// The core goes to sleep only after a look at the channels that came after
/// the busy flag was cleared: either that look found nothing, or what it found
/// was processed.
pub proof fn law_last_look_before_sleep(e: Elastic, ev: Event)
    requires
        e.order != Order::Sleep,
        moved(e, ev).order == Order::Sleep,
    ensures
        cleared(e.order),
        (e.order == Order::LastLook && ev == Event::Waiting(false)) || (e.order == Order::LastDrain
            && ev is Drained),
{
}

/// A message that a client sends while the core is awake, on memory that both
/// see in the same order.
pub struct Race {
    /// The serving core.
    pub core: Elastic,
    /// The busy flag.
    pub busy: bool,
    /// The message is in its channel.
    pub waiting: bool,
    /// The client has sent the message.
    pub sent: bool,
    /// The client has read the busy flag: whether it rang the doorbell.
    pub rang: Option<bool>,
}

/// What happens next.
pub enum Turn {
    /// The client sends; after that, it reads the busy flag and rings where the
    /// flag is clear.
    Client,
    /// The core carries out its order. A reading of a clock gives this time.
    Core(u64),
}

/// What the core finds when it carries out its order.
pub open spec fn found(r: Race, time: u64) -> Event {
    match r.core.order {
        Order::Drain | Order::LastDrain => Event::Drained(
            if r.waiting {
                1
            } else {
                0
            },
        ),
        Order::Look | Order::LastLook => Event::Waiting(r.waiting),
        Order::StartWindow | Order::EndWindow | Order::ReadDoorbell => Event::Time(time),
        Order::ClearBusy | Order::Sleep => Event::Done,
    }
}

/// The race after one turn.
pub open spec fn raced(r: Race, turn: Turn) -> Race {
    match turn {
        Turn::Client => if !r.sent {
            Race { waiting: true, sent: true, ..r }
        } else if r.rang is None {
            Race { rang: Some(!r.busy), ..r }
        } else {
            r
        },
        Turn::Core(time) => Race {
            core: moved(r.core, found(r, time)),
            busy: r.busy && r.core.order != Order::ClearBusy,
            waiting: r.waiting && r.core.order != Order::Drain && r.core.order
                != Order::LastDrain,
            ..r
        },
    }
}

/// The race after turns in any order.
pub open spec fn raced_all(r: Race, turns: Seq<Turn>) -> Race
    decreases turns.len(),
{
    if turns.len() == 0 {
        r
    } else {
        raced(raced_all(r, turns.drop_last()), turns.last())
    }
}

/// No wake-up is lost: however the client's sending and reading of the flag fall
/// between the core's looks, its clearing of the flag and its last look, once the
/// client is done and the core sleeps the message was processed or the doorbell
/// was rung.
pub proof fn law_no_lost_wakeup(r: Race, turns: Seq<Turn>)
    requires
        r.core.order == Order::Drain,
        r.busy,
        !r.waiting,
        !r.sent,
        r.rang is None,
    ensures
        ({
            let end = raced_all(r, turns);
            &&& end.busy == !cleared(end.core.order)
            &&& end.core.order == Order::Sleep && end.rang is Some ==> !end.waiting || end.rang
                == Some(true)
        }),
{
    lemma_race(r, turns);
}

proof fn lemma_race(r: Race, turns: Seq<Turn>)
    requires
        r.core.order == Order::Drain,
        r.busy,
        !r.waiting,
        !r.sent,
        r.rang is None,
    ensures
        ({
            let end = raced_all(r, turns);
            &&& end.busy == !cleared(end.core.order)
            &&& end.rang is Some ==> end.sent
            &&& end.waiting && end.rang == Some(false) ==> end.core.order != Order::Sleep
        }),
    decreases turns.len(),
{
    if turns.len() > 0 {
        lemma_race(r, turns.drop_last());
    }
}

/// Once cleared, the busy flag stays cleared until the core sleeps, and it is
/// cleared only by its own order.
pub proof fn law_busy_until_cleared(e: Elastic, ev: Event)
    ensures
        cleared(e.order) ==> cleared(moved(e, ev).order),
        !cleared(e.order) && cleared(moved(e, ev).order) ==> e.order == Order::ClearBusy && ev
            == Event::Done,
{
}

/// The window of a core that finds nothing lasts exactly as many looks as the
/// limit says.
pub proof fn law_window_length(e: Elastic, n: nat)
    requires
        e.order == Order::Look,
        e.spun == 0,
        n <= ELASTIC_SPIN_LIMIT,
    ensures
        ({
            let f = moved_all(e, Seq::new(n, |i: int| Event::Waiting(false)));
            f.spun == n && f.order == (if n < ELASTIC_SPIN_LIMIT {
                Order::Look
            } else {
                Order::EndWindow
            })
        }),
    decreases n,
{
    let evs = Seq::new(n, |i: int| Event::Waiting(false));
    if n > 0 {
        law_window_length(e, (n - 1) as nat);
        assert(evs.drop_last() =~= Seq::new((n - 1) as nat, |i: int| Event::Waiting(false)));
    }
}

/// The messages that the rounds of a waking processed, added up.
pub open spec fn processed(e: Elastic, evs: Seq<Event>) -> nat
    decreases evs.len(),
{
    if evs.len() == 0 {
        0
    } else {
        let init = evs.drop_last();
        processed(e, init) + (match (moved_all(e, init).order, evs.last()) {
            (Order::Drain, Event::Drained(n)) => n as nat,
            (Order::LastDrain, Event::Drained(n)) => n as nat,
            _ => 0,
        })
    }
}

/// The total of a waking is the sum of what its rounds processed: no round is
/// left out and none counts twice.
pub proof fn law_total_is_sum(e: Elastic, evs: Seq<Event>)
    requires
        e.total + processed(e, evs) <= u64::MAX,
    ensures
        moved_all(e, evs).total == e.total + processed(e, evs),
    decreases evs.len(),
{
    if evs.len() > 0 {
        law_total_is_sum(e, evs.drop_last());
    }
}

} // verus!
