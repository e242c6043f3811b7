//! A ring of messages with one sender and one receiver.

use crate::message::{Message, Msg};
use vstd::prelude::*;

verus! {

/// A ring of `N` slots. One slot always stays free, so that a full ring and an
/// empty one differ: at most `N - 1` messages are queued.
pub struct RingBuffer<const N: usize> {
    read: usize,
    write: usize,
    buffer: [Message; N],
}

/// The slot `i` places after slot `from`.
pub open spec fn slot_after(from: int, i: int, n: int) -> int {
    if from + i < n {
        from + i
    } else {
        from + i - n
    }
}

impl<const N: usize> View for RingBuffer<N> {
    type V = Seq<Msg>;

    /// The queued messages, oldest first.
    closed spec fn view(&self) -> Seq<Msg> {
        let len = if self.write >= self.read {
            self.write - self.read
        } else {
            N - self.read + self.write
        };
        Seq::new(
            len as nat,
            |i: int| self.buffer@[slot_after(self.read as int, i, N as int)]@,
        )
    }
}

impl<const N: usize> RingBuffer<N> {
    /// Both positions are slots of the ring.
    pub closed spec fn wf(&self) -> bool {
        self.read < N && self.write < N
    }

    /// The slot that is read next.
    pub closed spec fn read_slot(&self) -> int {
        self.read as int
    }

    /// The slot that is written next.
    pub closed spec fn write_slot(&self) -> int {
        self.write as int
    }

    /// What slot `i` holds, queued or not.
    pub closed spec fn slot(&self, i: int) -> Msg {
        self.buffer@[i]@
    }

    /// An empty ring.
    pub fn new() -> (r: Self)
        requires
            N > 0,
        ensures
            r.wf(),
            r@ == Seq::<Msg>::empty(),
    {
        RingBuffer { read: 0, write: 0, buffer: [Message::empty();N] }
    }

    /// The ring with the given positions and slots, as found in memory that
    /// another core shares. `None` when a position is no slot.
    pub fn from_parts(read: usize, write: usize, buffer: [Message; N]) -> (r: Option<Self>)
        ensures
            match r {
                Some(ring) => {
                    &&& ring.wf()
                    &&& ring.read_slot() == read
                    &&& ring.write_slot() == write
                    &&& forall|i: int| 0 <= i < N ==> #[trigger] ring.slot(i) == buffer@[i]@
                },
                None => read >= N || write >= N,
            },
    {
        if read < N && write < N {
            Some(RingBuffer { read, write, buffer })
        } else {
            None
        }
    }

    /// The positions and the slots say what is queued.
    pub proof fn lemma_queue(&self)
        requires
            self.wf(),
        ensures
            0 <= self.read_slot() < N,
            0 <= self.write_slot() < N,
            self@.len() < N,
            self@.len() == (if self.write_slot() >= self.read_slot() {
                self.write_slot() - self.read_slot()
            } else {
                N - self.read_slot() + self.write_slot()
            }),
            forall|i: int|
                0 <= i < self@.len() ==> #[trigger] self@[i] == self.slot(
                    slot_after(self.read_slot(), i, N as int),
                ),
    {
    }

    /// The slot that is read next.
    pub fn read_index(&self) -> (r: usize)
        ensures
            r == self.read_slot(),
    {
        self.read
    }

    /// The slot that is written next.
    pub fn write_index(&self) -> (r: usize)
        ensures
            r == self.write_slot(),
    {
        self.write
    }

    /// What slot `i` holds.
    pub fn slot_at(&self, i: usize) -> (r: Message)
        requires
            i < N,
        ensures
            r@ == self.slot(i as int),
    {
        self.buffer[i]
    }

    /// Queues `msg`. `false`, with nothing changed, when the ring is full.
    pub fn try_send(&mut self, msg: &Message) -> (r: bool)
        requires
            old(self).wf(),
        ensures
            final(self).wf(),
            r == (old(self)@.len() < N - 1),
            final(self)@ == (if r {
                old(self)@.push(msg@)
            } else {
                old(self)@
            }),
    {
        let next: usize = if self.write + 1 == N {
            0
        } else {
            self.write + 1
        };
        if next == self.read {
            return false;
        }
        self.buffer[self.write] = *msg;
        self.write = next;
        proof {
            assert(self@ =~= old(self)@.push(msg@));
        }
        true
    }

    /// Takes the oldest message.
    pub fn try_recv(&mut self) -> (r: Option<Message>)
        requires
            old(self).wf(),
        ensures
            final(self).wf(),
            match r {
                Some(m) => old(self)@.len() > 0 && m@ == old(self)@[0] && final(self)@ == old(
                    self,
                )@.skip(1),
                None => old(self)@.len() == 0 && final(self)@ == old(self)@,
            },
    {
        if self.read == self.write {
            return None;
        }
        let msg = self.buffer[self.read];
        self.read = if self.read + 1 == N {
            0
        } else {
            self.read + 1
        };
        proof {
            assert(self@ =~= old(self)@.skip(1));
        }
        Some(msg)
    }

    /// The oldest message, which stays queued.
    pub fn peek(&self) -> (r: Option<Message>)
        requires
            self.wf(),
        ensures
            match r {
                Some(m) => self@.len() > 0 && m@ == self@[0],
                None => self@.len() == 0,
            },
    {
        if self.read == self.write {
            return None;
        }
        Some(self.buffer[self.read])
    }

    /// The queued message number `i`, the oldest being number 0.
    pub fn peek_at(&self, i: usize) -> (r: Message)
        requires
            self.wf(),
            i < self@.len(),
        ensures
            r@ == self@[i as int],
    {
        let to_end: usize = N - self.read;
        let slot: usize = if i < to_end {
            self.read + i
        } else {
            i - to_end
        };
        self.buffer[slot]
    }

    /// Whether a message is queued.
    pub fn has_pending(&self) -> (r: bool)
        requires
            self.wf(),
        ensures
            r == (self@.len() > 0),
    {
        self.read != self.write
    }

    /// Whether no message is queued.
    pub fn is_empty(&self) -> (r: bool)
        requires
            self.wf(),
        ensures
            r == (self@.len() == 0),
    {
        self.read == self.write
    }

    /// The number of queued messages.
    pub fn len(&self) -> (r: usize)
        requires
            self.wf(),
        ensures
            r == self@.len(),
            r < N,
    {
        if self.write >= self.read {
            self.write - self.read
        } else {
            N - self.read + self.write
        }
    }

    /// Drops every queued message.
    pub fn clear(&mut self)
        requires
            old(self).wf(),
        ensures
            final(self).wf(),
            final(self)@ == Seq::<Msg>::empty(),
            final(self).write_slot() == old(self).write_slot(),
    {
        self.read = self.write;
        proof {
            assert(self@ =~= Seq::<Msg>::empty());
        }
    }
}

/// The queue after messages were sent one after the other to a ring that holds
/// at most `room` of them: one that finds no room is refused.
pub open spec fn sent_all(queue: Seq<Msg>, msgs: Seq<Msg>, room: int) -> Seq<Msg>
    decreases msgs.len(),
{
    if msgs.len() == 0 {
        queue
    } else {
        let q = sent_all(queue, msgs.drop_last(), room);
        if q.len() < room {
            q.push(msgs.last())
        } else {
            q
        }
    }
}

/// What is taken, one after the other, from a queue.
pub open spec fn taken_all(queue: Seq<Msg>, n: nat) -> Seq<Msg>
    decreases n,
{
    if n == 0 || queue.len() == 0 {
        seq![]
    } else {
        seq![queue[0]] + taken_all(queue.skip(1), (n - 1) as nat)
    }
}

proof fn lemma_taken_all(queue: Seq<Msg>, n: nat)
    requires
        n <= queue.len(),
    ensures
        taken_all(queue, n) == queue.take(n as int),
    decreases n,
{
    if n > 0 {
        lemma_taken_all(queue.skip(1), (n - 1) as nat);
        assert(seq![queue[0]] + queue.skip(1).take(n - 1) =~= queue.take(n as int));
    } else {
        assert(taken_all(queue, n) =~= queue.take(0));
    }
}

/// First in, first out: of the messages sent, the ones that fit are kept, in
/// order and behind those that were there, and they are taken in that order.
pub proof fn law_fifo(queue: Seq<Msg>, msgs: Seq<Msg>, room: int)
    requires
        queue.len() <= room,
    ensures
        ({
            let fit = if queue.len() + msgs.len() <= room {
                msgs.len() as int
            } else {
                room - queue.len()
            };
            let q = sent_all(queue, msgs, room);
            &&& q == queue + msgs.take(fit)
            &&& taken_all(q, q.len()) == queue + msgs.take(fit)
        }),
    decreases msgs.len(),
{
    if msgs.len() > 0 {
        law_fifo(queue, msgs.drop_last(), room);
    }
    let q = sent_all(queue, msgs, room);
    let fit = if queue.len() + msgs.len() <= room {
        msgs.len() as int
    } else {
        room - queue.len()
    };
    if msgs.len() == 0 {
        assert(queue + msgs.take(0) =~= queue);
    } else {
        let before = msgs.drop_last();
        if queue.len() + msgs.len() <= room {
            assert(before.take(before.len() as int) =~= before);
            assert((queue + before).push(msgs.last()) =~= queue + msgs.take(fit));
        } else {
            assert(before.take(fit) =~= msgs.take(fit));
        }
    }
    lemma_taken_all(q, q.len());
    assert(q.take(q.len() as int) =~= q);
}

/// What one of the two sides does to a ring.
pub enum RingOp {
    /// The sender sends a message.
    Send(Msg),
    /// The receiver takes a message.
    Take,
}

/// A ring between a sender and a receiver.
#[verifier::ext_equal]
pub struct Traffic {
    /// The queued messages.
    pub queue: Seq<Msg>,
    /// The messages that were accepted so far.
    pub accepted: Seq<Msg>,
    /// The messages that were received so far.
    pub received: Seq<Msg>,
}

/// The traffic after one operation on a ring that holds at most `room` messages.
pub open spec fn passed(t: Traffic, op: RingOp, room: int) -> Traffic {
    match op {
        RingOp::Send(m) => if t.queue.len() < room {
            Traffic { queue: t.queue.push(m), accepted: t.accepted.push(m), ..t }
        } else {
            t
        },
        RingOp::Take => if t.queue.len() > 0 {
            Traffic { queue: t.queue.skip(1), received: t.received.push(t.queue[0]), ..t }
        } else {
            t
        },
    }
}

/// The traffic after a series of operations of both sides, in any order.
pub open spec fn passed_all(t: Traffic, ops: Seq<RingOp>, room: int) -> Traffic
    decreases ops.len(),
{
    if ops.len() == 0 {
        t
    } else {
        passed(passed_all(t, ops.drop_last(), room), ops.last(), room)
    }
}

/// However sending and taking alternate, nothing is lost, doubled or out of order:
/// what was accepted is what was received, followed by what is queued. The ring
/// never holds more than it has room for.
pub proof fn law_fifo_in_any_order(t: Traffic, ops: Seq<RingOp>, room: int)
    requires
        t.accepted == t.received + t.queue,
        t.queue.len() <= room,
    ensures
        ({
            let u = passed_all(t, ops, room);
            &&& u.accepted == u.received + u.queue
            &&& u.queue.len() <= room
            &&& t.accepted.is_prefix_of(u.accepted)
            &&& t.received.is_prefix_of(u.received)
        }),
    decreases ops.len(),
{
    if ops.len() > 0 {
        law_fifo_in_any_order(t, ops.drop_last(), room);
        let v = passed_all(t, ops.drop_last(), room);
        let u = passed(v, ops.last(), room);
        assert(u.accepted =~= u.received + u.queue);
        assert(v.accepted.is_prefix_of(u.accepted));
        assert(v.received.is_prefix_of(u.received));
    }
}

} // verus!
