//! Channels and their two ends.

use crate::message::{pad, Message, Msg, PAYLOAD_SIZE};
use crate::ring::RingBuffer;
use crate::stream::{
    blocks_for, chain, frame, unit, unit_len, BrokenChain, RecvOutcome, MAX_STREAM_LEN, MORE,
};
use vstd::prelude::*;
use vstd::std_specs::convert::TryFromSpecImpl;

verus! {

/// Marks a channel that has been set up.
pub const MAGIC: u16 = 0x4F56;

/// Version of the channel layout.
pub const VERSION: u16 = 1;

/// Number of slots of a channel's ring.
pub const CHANNEL_CAPACITY: usize = 128;

/// The number of a channel.
#[derive(Debug, Clone, Copy, PartialEq, Eq, Hash, Structural)]
pub struct ChannelId {
    id: u8,
}

impl ChannelId {
    /// The number.
    pub closed spec fn spec_get(self) -> u8 {
        self.id
    }

    /// The channel numbered `id`.
    pub fn new(id: u8) -> (r: ChannelId)
        ensures
            r.spec_get() == id,
    {
        ChannelId { id }
    }

    /// The number.
    pub fn get(self) -> (r: u8)
        ensures
            r == self.spec_get(),
    {
        self.id
    }

    /// The channel whose number is `id`, as a value.
    pub closed spec fn of(id: u8) -> ChannelId {
        ChannelId { id }
    }

    /// A channel is known by its number.
    pub proof fn law_known_by_number(id: u8)
        ensures
            ChannelId::of(id).spec_get() == id,
            forall|c: ChannelId| #[trigger] c.spec_get() == id ==> c == ChannelId::of(id),
    {
    }
}

impl TryFrom<u8> for ChannelId {
    type Error = InvalidChannelId;

    fn try_from(value: u8) -> (r: Result<Self, InvalidChannelId>) {
        Ok(ChannelId { id: value })
    }
}

impl TryFromSpecImpl<u8> for ChannelId {
    open spec fn obeys_try_from_spec() -> bool {
        true
    }

    open spec fn try_from_spec(value: u8) -> Result<Self, InvalidChannelId> {
        Ok(ChannelId::of(value))
    }
}

impl TryFrom<usize> for ChannelId {
    type Error = InvalidChannelId;

    fn try_from(value: usize) -> (r: Result<Self, InvalidChannelId>) {
        if value <= 255 {
            Ok(ChannelId { id: value as u8 })
        } else {
            Err(InvalidChannelId)
        }
    }
}

impl TryFromSpecImpl<usize> for ChannelId {
    open spec fn obeys_try_from_spec() -> bool {
        true
    }

    open spec fn try_from_spec(value: usize) -> Result<Self, InvalidChannelId> {
        if value <= 255 {
            Ok(ChannelId::of(value as u8))
        } else {
            Err(InvalidChannelId)
        }
    }
}

/// No channel has the number.
#[derive(Debug, Clone, Copy, PartialEq, Eq, Structural)]
pub struct InvalidChannelId;

impl InvalidChannelId {
    /// The error in words.
    pub fn describe(&self) -> (r: &'static str)
        ensures
            r@ == "Channel ID out of range for this SharedMemory"@,
    {
        "Channel ID out of range for this SharedMemory"
    }
}

/// Why a message was not sent.
#[derive(Debug, Clone, Copy, PartialEq, Eq, Structural)]
pub enum SendError {
    /// The channel has not been set up, or the message cannot be formed.
    Invalid,
    /// The ring has no room.
    Full,
}

impl SendError {
    /// The error in words.
    pub fn describe(&self) -> (r: &'static str)
        ensures
            r@ == (match self {
                SendError::Invalid => "Invalid channel"@,
                SendError::Full => "Buffer full"@,
            }),
    {
        match self {
            SendError::Invalid => "Invalid channel",
            SendError::Full => "Buffer full",
        }
    }
}

/// A channel as a mathematical value.
#[verifier::ext_equal]
pub struct Chan {
    /// The mark.
    pub magic: u16,
    /// The layout version.
    pub version: u16,
    /// The queued messages, oldest first.
    pub queue: Seq<Msg>,
}

impl Chan {
    /// Whether the channel has been set up.
    pub open spec fn valid(self) -> bool {
        self.magic == MAGIC
    }

    /// The channel with another queue.
    pub open spec fn with(self, queue: Seq<Msg>) -> Chan {
        Chan { queue, ..self }
    }

    /// How an attempt to send `msgs` together ends, and the channel after it.
    pub open spec fn send(self, msgs: Seq<Msg>) -> (Result<(), SendError>, Chan) {
        if !self.valid() {
            (Err(SendError::Invalid), self)
        } else if self.queue.len() + msgs.len() > CHANNEL_CAPACITY - 1 {
            (Err(SendError::Full), self)
        } else {
            (Ok(()), self.with(self.queue + msgs))
        }
    }

    /// How an attempt to send a frame of `data` ends, and the channel after it.
    pub open spec fn send_stream(self, kind: u8, data: Seq<u8>) -> (Result<(), SendError>, Chan) {
        if data.len() > MAX_STREAM_LEN || kind >= MORE {
            (Err(SendError::Invalid), self)
        } else {
            self.send(chain(kind, frame(data)))
        }
    }

    /// How an attempt to send `data` in one message ends, and the channel after
    /// it.
    pub open spec fn send_raw(self, kind: u8, data: Seq<u8>) -> (Result<(), SendError>, Chan) {
        if data.len() > PAYLOAD_SIZE || kind >= MORE {
            (Err(SendError::Invalid), self)
        } else {
            self.send(seq![Msg { kind, payload: pad(data) }])
        }
    }
}

/// A one-way queue of messages between two cores.
pub struct Channel {
    magic: u16,
    version: u16,
    buffer: RingBuffer<CHANNEL_CAPACITY>,
}

impl View for Channel {
    type V = Chan;

    closed spec fn view(&self) -> Chan {
        Chan { magic: self.magic, version: self.version, queue: self.buffer@ }
    }
}

impl Channel {
    /// The ring of the channel is well formed.
    pub closed spec fn wf(&self) -> bool {
        self.buffer.wf()
    }

    /// The ring of the channel.
    pub closed spec fn spec_ring(&self) -> RingBuffer<CHANNEL_CAPACITY> {
        self.buffer
    }

    /// At most 127 messages are queued.
    pub proof fn lemma_bound(&self)
        requires
            self.wf(),
        ensures
            self@.queue.len() <= CHANNEL_CAPACITY - 1,
    {
        self.buffer.lemma_queue();
    }

    /// An empty channel, set up.
    pub fn new() -> (r: Channel)
        ensures
            r.wf(),
            r@ == (Chan { magic: MAGIC, version: VERSION, queue: Seq::empty() }),
    {
        Channel { magic: MAGIC, version: VERSION, buffer: RingBuffer::new() }
    }

    /// The channel with the given marks and ring.
    pub fn from_parts(magic: u16, version: u16, ring: RingBuffer<CHANNEL_CAPACITY>) -> (r: Channel)
        requires
            ring.wf(),
        ensures
            r.wf(),
            r@ == (Chan { magic, version, queue: ring@ }),
            r.spec_ring() == ring,
    {
        Channel { magic, version, buffer: ring }
    }

    /// The ring of the channel.
    pub fn ring(&self) -> (r: &RingBuffer<CHANNEL_CAPACITY>)
        ensures
            *r == self.spec_ring(),
            r@ == self@.queue,
            r.wf() == self.wf(),
    {
        &self.buffer
    }

    /// Sets the channel up: marks it and drops every queued message.
    pub fn init(&mut self)
        requires
            old(self).wf(),
        ensures
            final(self).wf(),
            final(self)@ == (Chan { magic: MAGIC, version: VERSION, queue: Seq::empty() }),
    {
        self.magic = MAGIC;
        self.version = VERSION;
        self.buffer.clear();
    }

    /// Whether the channel has been set up.
    pub fn is_valid(&self) -> (r: bool)
        ensures
            r == self@.valid(),
    {
        self.magic == MAGIC
    }

    /// The layout version.
    pub fn version(&self) -> (r: u16)
        ensures
            r == self@.version,
    {
        self.version
    }

    /// Queues `msg`.
    pub fn try_send(&mut self, msg: &Message) -> (r: Result<(), SendError>)
        requires
            old(self).wf(),
        ensures
            final(self).wf(),
            (r, final(self)@) == old(self)@.send(seq![msg@]),
    {
        if !self.is_valid() {
            return Err(SendError::Invalid);
        }
        if self.buffer.try_send(msg) {
            proof {
                assert(old(self)@.queue.push(msg@) =~= old(self)@.queue + seq![msg@]);
            }
            Ok(())
        } else {
            Err(SendError::Full)
        }
    }

    /// Queues one message with the given kind whose payload starts with `data`.
    pub fn try_send_raw(&mut self, kind: u8, data: &[u8]) -> (r: Result<(), SendError>)
        requires
            old(self).wf(),
        ensures
            final(self).wf(),
            (r, final(self)@) == old(self)@.send_raw(kind, data@),
    {
        if data.len() > PAYLOAD_SIZE || kind >= MORE {
            return Err(SendError::Invalid);
        }
        self.try_send(&Message::padded(kind, data))
    }

    /// Queues the blocks of a frame of `data`, all or none.
    pub fn try_send_stream(&mut self, kind: u8, data: &[u8]) -> (r: Result<(), SendError>)
        requires
            old(self).wf(),
        ensures
            final(self).wf(),
            (r, final(self)@) == old(self)@.send_stream(kind, data@),
    {
        if data.len() > MAX_STREAM_LEN || kind >= MORE {
            return Err(SendError::Invalid);
        }
        proof {
            broadcast use crate::bytes::lemma_le_len;

            assert(chain(kind, frame(data@)).len() == blocks_for(data@.len() + 4));
        }
        if !self.is_valid() {
            return Err(SendError::Invalid);
        }
        if self.buffer.try_send_frame(kind, data) {
            Ok(())
        } else {
            Err(SendError::Full)
        }
    }

    /// Takes the oldest message.
    pub fn try_recv(&mut self) -> (r: Option<Message>)
        requires
            old(self).wf(),
        ensures
            final(self).wf(),
            match r {
                Some(m) => {
                    &&& old(self)@.valid()
                    &&& old(self)@.queue.len() > 0
                    &&& m@ == old(self)@.queue[0]
                    &&& final(self)@ == old(self)@.with(old(self)@.queue.skip(1))
                },
                None => (!old(self)@.valid() || old(self)@.queue.len() == 0) && final(self)@ == old(
                    self,
                )@,
            },
    {
        if self.is_valid() {
            self.buffer.try_recv()
        } else {
            None
        }
    }

    /// Takes the unit at the start of the queue. Blocks that form no frame
    /// stay queued.
    pub fn try_recv_unit(&mut self) -> (r: Result<Option<RecvOutcome>, BrokenChain>)
        requires
            old(self).wf(),
        ensures
            final(self).wf(),
            match r {
                Ok(None) => (!old(self)@.valid() || old(self)@.queue.len() == 0) && final(self)@
                    == old(self)@,
                Ok(Some(u)) => {
                    &&& old(self)@.valid()
                    &&& old(self)@.queue.len() > 0
                    &&& unit_len(old(self)@.queue) matches Some(n)
                    &&& u@ == unit(old(self)@.queue, n)
                    &&& final(self)@ == old(self)@.with(old(self)@.queue.skip(n as int))
                },
                Err(e) => {
                    &&& old(self)@.valid()
                    &&& old(self)@.queue.len() > 0
                    &&& unit_len(old(self)@.queue) is None
                    &&& final(self)@ == old(self)@
                },
            },
    {
        if self.is_valid() {
            self.buffer.try_recv_unit()
        } else {
            Ok(None)
        }
    }

    /// The oldest message, which stays queued.
    pub fn peek(&self) -> (r: Option<Message>)
        requires
            self.wf(),
        ensures
            match r {
                Some(m) => self@.valid() && self@.queue.len() > 0 && m@ == self@.queue[0],
                None => !self@.valid() || self@.queue.len() == 0,
            },
    {
        if self.is_valid() {
            self.buffer.peek()
        } else {
            None
        }
    }

    /// Whether a message is queued.
    pub fn has_pending(&self) -> (r: bool)
        requires
            self.wf(),
        ensures
            r == (self@.valid() && self@.queue.len() > 0),
    {
        self.is_valid() && self.buffer.has_pending()
    }

    /// Whether no message can be taken.
    pub fn is_empty(&self) -> (r: bool)
        requires
            self.wf(),
        ensures
            r == (!self@.valid() || self@.queue.len() == 0),
    {
        !self.is_valid() || self.buffer.is_empty()
    }

    /// The number of messages that can be taken.
    pub fn len(&self) -> (r: usize)
        requires
            self.wf(),
        ensures
            r == (if self@.valid() {
                self@.queue.len()
            } else {
                0
            }),
    {
        if self.is_valid() {
            self.buffer.len()
        } else {
            0
        }
    }

    /// Drops every queued message of a channel that has been set up.
    pub fn clear(&mut self)
        requires
            old(self).wf(),
        ensures
            final(self).wf(),
            final(self)@ == (if old(self)@.valid() {
                old(self)@.with(Seq::empty())
            } else {
                old(self)@
            }),
    {
        if self.is_valid() {
            self.buffer.clear();
        }
    }
}

/// The sending end of a channel.
pub struct Sender<'a> {
    /// The channel.
    pub channel: &'a mut Channel,
}

impl<'a> Sender<'a> {
    /// The channel.
    pub open spec fn target(&self) -> &'a mut Channel {
        self.channel
    }

    /// The sending end of `channel`.
    pub(crate) fn new(channel: &'a mut Channel) -> (r: Self)
        ensures
            *r.target() == *old(channel),
            *final(r.target()) == *final(channel),
    {
        Sender { channel }
    }

    /// Queues `msg`.
    pub fn try_send(&mut self, msg: &Message) -> (r: Result<(), SendError>)
        requires
            old(self).target().wf(),
        ensures
            *final(final(self).target()) == *final(old(self).target()),
            final(self).target().wf(),
            (r, final(self).target()@) == old(self).target()@.send(seq![msg@]),
    {
        self.channel.try_send(msg)
    }

    /// Queues one message with the given kind whose payload starts with `data`.
    pub fn try_send_raw(&mut self, kind: u8, data: &[u8]) -> (r: Result<(), SendError>)
        requires
            old(self).target().wf(),
        ensures
            *final(final(self).target()) == *final(old(self).target()),
            final(self).target().wf(),
            (r, final(self).target()@) == old(self).target()@.send_raw(kind, data@),
    {
        self.channel.try_send_raw(kind, data)
    }

    /// Queues the blocks of a frame of `data`, all or none.
    pub fn try_send_stream(&mut self, kind: u8, data: &[u8]) -> (r: Result<(), SendError>)
        requires
            old(self).target().wf(),
        ensures
            *final(final(self).target()) == *final(old(self).target()),
            final(self).target().wf(),
            (r, final(self).target()@) == old(self).target()@.send_stream(kind, data@),
    {
        self.channel.try_send_stream(kind, data)
    }

    /// Whether the channel has been set up.
    pub fn is_valid(&self) -> (r: bool)
        ensures
            r == self.target()@.valid(),
    {
        self.channel.is_valid()
    }
}

/// The receiving end of a channel.
pub struct Receiver<'a> {
    /// The channel.
    pub channel: &'a mut Channel,
}

impl<'a> Receiver<'a> {
    /// The channel.
    pub open spec fn target(&self) -> &'a mut Channel {
        self.channel
    }

    /// The receiving end of `channel`.
    pub(crate) fn new(channel: &'a mut Channel) -> (r: Self)
        ensures
            *r.target() == *old(channel),
            *final(r.target()) == *final(channel),
    {
        Receiver { channel }
    }

    /// Takes the oldest message.
    pub fn try_recv(&mut self) -> (r: Option<Message>)
        requires
            old(self).target().wf(),
        ensures
            *final(final(self).target()) == *final(old(self).target()),
            final(self).target().wf(),
            match r {
                Some(m) => {
                    &&& old(self).target()@.valid()
                    &&& old(self).target()@.queue.len() > 0
                    &&& m@ == old(self).target()@.queue[0]
                    &&& final(self).target()@ == old(self).target()@.with(
                        old(self).target()@.queue.skip(1),
                    )
                },
                None => (!old(self).target()@.valid() || old(self).target()@.queue.len() == 0)
                    && final(self).target()@ == old(self).target()@,
            },
    {
        self.channel.try_recv()
    }

    /// The oldest message, which stays queued.
    pub fn peek(&self) -> (r: Option<Message>)
        requires
            self.target().wf(),
        ensures
            match r {
                Some(m) => self.target()@.valid() && self.target()@.queue.len() > 0 && m@
                    == self.target()@.queue[0],
                None => !self.target()@.valid() || self.target()@.queue.len() == 0,
            },
    {
        self.channel.peek()
    }

    /// Whether a message is queued.
    pub fn has_pending(&self) -> (r: bool)
        requires
            self.target().wf(),
        ensures
            r == (self.target()@.valid() && self.target()@.queue.len() > 0),
    {
        self.channel.has_pending()
    }

    /// Whether no message can be taken.
    pub fn is_empty(&self) -> (r: bool)
        requires
            self.target().wf(),
        ensures
            r == (!self.target()@.valid() || self.target()@.queue.len() == 0),
    {
        self.channel.is_empty()
    }

    /// The number of messages that can be taken.
    pub fn len(&self) -> (r: usize)
        requires
            self.target().wf(),
        ensures
            r == (if self.target()@.valid() {
                self.target()@.queue.len()
            } else {
                0
            }),
    {
        self.channel.len()
    }

    /// Drops every queued message of a channel that has been set up.
    pub fn clear(&mut self)
        requires
            old(self).target().wf(),
        ensures
            *final(final(self).target()) == *final(old(self).target()),
            final(self).target().wf(),
            final(self).target()@ == (if old(self).target()@.valid() {
                old(self).target()@.with(Seq::empty())
            } else {
                old(self).target()@
            }),
    {
        self.channel.clear();
    }

    /// Whether the channel has been set up.
    pub fn is_valid(&self) -> (r: bool)
        ensures
            r == self.target()@.valid(),
    {
        self.channel.is_valid()
    }

    /// Takes the messages one by one, oldest first.
    pub fn iter(self) -> (r: RecvIter<'a>)
        ensures
            r.source() == self,
    {
        RecvIter::new(self)
    }
}

/// Takes the messages of a channel one by one.
pub struct RecvIter<'a> {
    /// The receiving end.
    pub receiver: Receiver<'a>,
}

impl<'a> RecvIter<'a> {
    /// The receiving end.
    pub open spec fn source(&self) -> Receiver<'a> {
        self.receiver
    }

    /// Takes the messages that `receiver` can take.
    pub fn new(receiver: Receiver<'a>) -> (r: Self)
        ensures
            r.source() == receiver,
    {
        RecvIter { receiver }
    }

    /// Takes the next message.
    pub fn next(&mut self) -> (r: Option<Message>)
        requires
            old(self).source().target().wf(),
        ensures
            *final(final(self).source().target()) == *final(old(self).source().target()),
            final(self).source().target().wf(),
            match r {
                Some(m) => {
                    &&& old(self).source().target()@.valid()
                    &&& old(self).source().target()@.queue.len() > 0
                    &&& m@ == old(self).source().target()@.queue[0]
                    &&& final(self).source().target()@ == old(self).source().target()@.with(
                        old(self).source().target()@.queue.skip(1),
                    )
                },
                None => (!old(self).source().target()@.valid() || old(
                    self,
                ).source().target()@.queue.len() == 0) && final(self).source().target()@ == old(
                    self,
                ).source().target()@,
            },
    {
        self.receiver.try_recv()
    }
}

/// A message sent on a channel with nothing queued is the next one taken: the
/// send succeeds, and the queue holds that message alone.
pub proof fn law_send_then_recv(c: Chan, m: Msg)
    requires
        c.valid(),
        c.queue.len() == 0,
    ensures
        c.send(seq![m]).0 == Ok::<(), SendError>(()),
        c.send(seq![m]).1.queue == seq![m],
{
    assert(c.queue + seq![m] =~= seq![m]);
}

/// Sending appends and taking removes from the front, so messages are taken in
/// the order in which they were sent: after `k` messages are taken, the next
/// one is number `k` of what was queued, followed by what was sent since.
pub proof fn law_channel_fifo(c: Chan, sent: Seq<Msg>, k: int)
    requires
        c.valid(),
        c.queue.len() + sent.len() <= CHANNEL_CAPACITY - 1,
        0 <= k < c.queue.len() + sent.len(),
    ensures
        c.send(sent).0 == Ok::<(), SendError>(()),
        c.send(sent).1.queue.skip(k)[0] == (if k < c.queue.len() {
            c.queue[k]
        } else {
            sent[k - c.queue.len()]
        }),
{
}

/// A refused send changes nothing.
pub proof fn law_refused_send_keeps(c: Chan, sent: Seq<Msg>)
    ensures
        c.send(sent).0 is Err ==> c.send(sent).1 == c,
        c.send(sent).0 is Err <==> !c.valid() || c.queue.len() + sent.len() > CHANNEL_CAPACITY - 1,
{
}

} // verus!
