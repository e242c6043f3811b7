//! The two ends of a channel, the slots of its ring, and how the other core is found
//! and woken.

use crate::bytes;
use crate::channel::{
    Channel, ChannelId, InvalidChannelId, Receiver, RecvIter, SendError, Sender,
};
use crate::chip::reg::RegWrite;
use crate::laws::messages::{holds, word_at};
use crate::message::{Message, MsgType, Payload};
use crate::notifier::{ClintMsipNotifier, NotifierSlot, PeerNotifier};
use crate::region::ShmDriver;
use crate::ring::RingBuffer;
use crate::server::RpcError;
use crate::shm::SharedMemory;
use vstd::prelude::*;

verus! {

/// What is sent at one end comes behind what waits, wherever the channel is set up
/// and fewer than 127 messages wait; otherwise nothing changes.
pub proof fn law_sender_queues(
    tx: &mut Sender<'_>,
    m: &Message,
    up: bool,
    r: Result<(), SendError>,
)
    requires
        old(tx).target().wf(),
        call_ensures(Sender::is_valid, (old(tx),), up),
        call_ensures(Sender::try_send, (tx, m), r),
    ensures
        ({
            let before = old(tx).target()@;
            let after = final(tx).target()@;
            &&& up == (before.magic == 0x4F56)
            &&& !up ==> r == Err::<(), SendError>(SendError::Invalid)
            &&& up && before.queue.len() >= 127 ==> r == Err::<(), SendError>(SendError::Full)
            &&& up && before.queue.len() < 127 ==> r is Ok && after.queue == before.queue.push(m@)
            &&& r is Err ==> after == before
            &&& after.magic == before.magic
        }),
{
    let q = old(tx).target()@.queue;
    assert(q + seq![m@] =~= q.push(m@));
}

/// Up to 255 bytes are sent in one message of the given kind, with zeros behind them.
pub proof fn law_sender_queues_bytes(
    tx: &mut Sender<'_>,
    kind: u8,
    data: &[u8],
    r: Result<(), SendError>,
)
    requires
        old(tx).target().wf(),
        call_ensures(Sender::try_send_raw, (tx, kind, data), r),
    ensures
        ({
            let before = old(tx).target()@;
            let after = final(tx).target()@;
            &&& r is Ok <==> data@.len() <= 255 && kind < 128 && before.magic == 0x4F56
                && before.queue.len() < 127
            &&& r == Err::<(), SendError>(SendError::Full) <==> data@.len() <= 255 && kind < 128
                && before.magic == 0x4F56 && before.queue.len() >= 127
            &&& r is Err ==> after == before
            &&& r is Ok ==> after.queue.drop_last() == before.queue && after.queue.last().kind
                == kind && holds(after.queue.last().payload, 0, data@)
        }),
{
    if r is Ok {
        assert(final(tx).target()@.queue.drop_last() =~= old(tx).target()@.queue);
    }
}

/// The end of a channel sends a byte string just as the channel does.
pub proof fn law_sender_queues_long_bytes(
    tx: &mut Sender<'_>,
    c: &mut Channel,
    kind: u8,
    data: &[u8],
    r: Result<(), SendError>,
    same: Result<(), SendError>,
)
    requires
        old(tx).target().wf(),
        old(c).wf(),
        old(tx).target()@ == old(c)@,
        call_ensures(Sender::try_send_stream, (tx, kind, data), r),
        call_ensures(Channel::try_send_stream, (c, kind, data), same),
    ensures
        r == same,
        final(tx).target()@ == final(c)@,
{
}

/// The other end looks at and takes what has waited longest; the rest keeps its order.
pub proof fn law_receiver_takes_oldest(
    rx: &mut Receiver<'_>,
    peeked: Option<Message>,
    pending: bool,
    empty: bool,
    len: usize,
    up: bool,
    r: Option<Message>,
)
    requires
        old(rx).target().wf(),
        call_ensures(Receiver::peek, (old(rx),), peeked),
        call_ensures(Receiver::has_pending, (old(rx),), pending),
        call_ensures(Receiver::is_empty, (old(rx),), empty),
        call_ensures(Receiver::len, (old(rx),), len),
        call_ensures(Receiver::is_valid, (old(rx),), up),
        call_ensures(Receiver::try_recv, (rx,), r),
    ensures
        ({
            let before = old(rx).target()@;
            let after = final(rx).target()@;
            &&& up == (before.magic == 0x4F56)
            &&& r is Some <==> before.magic == 0x4F56 && before.queue.len() > 0
            &&& r matches Some(m) ==> seq![m@] + after.queue == before.queue
            &&& r is None ==> after == before
            &&& pending == (r is Some)
            &&& empty == (r is None)
            &&& peeked is Some == (r is Some)
            &&& r is Some ==> peeked->0@ == r->0@ && len == after.queue.len() + 1
            &&& r is None ==> len == 0
        }),
{
    let q = old(rx).target()@.queue;
    if q.len() > 0 {
        assert(q =~= seq![q[0]] + q.skip(1));
    }
}

/// Clearing at the receiving end drops every message of a channel that is set up.
pub proof fn law_receiver_clears(rx: &mut Receiver<'_>)
    requires
        old(rx).target().wf(),
        call_ensures(Receiver::clear, (rx,), ()),
    ensures
        old(rx).target()@.magic == 0x4F56 ==> final(rx).target()@.queue.len() == 0,
        old(rx).target()@.magic != 0x4F56 ==> final(rx).target()@ == old(rx).target()@,
        final(rx).target()@.magic == old(rx).target()@.magic,
{
}

/// Messages are gone through in the order in which they wait.
pub proof fn law_messages_in_order(it: &mut RecvIter<'_>, r: Option<Message>)
    requires
        old(it).source().target().wf(),
        call_ensures(RecvIter::next, (it,), r),
    ensures
        ({
            let before = old(it).source().target()@;
            let after = final(it).source().target()@;
            &&& r is Some <==> before.magic == 0x4F56 && before.queue.len() > 0
            &&& r matches Some(m) ==> seq![m@] + after.queue == before.queue
            &&& r is None ==> after == before
        }),
{
    let q = old(it).source().target()@.queue;
    if q.len() > 0 {
        assert(q =~= seq![q[0]] + q.skip(1));
    }
}

/// A window of `N` channels has the numbers below `N`, whatever `N` is. Its two ends are
/// there for those numbers, stand for the channel of that number, and touch no other.
pub proof fn law_ends_of_a_channel<const N: usize>(
    w: &mut SharedMemory<N>,
    v: &mut SharedMemory<N>,
    id: ChannelId,
    count: usize,
    tx: Result<Sender<'_>, InvalidChannelId>,
    rx: Result<Receiver<'_>, InvalidChannelId>,
)
    requires
        old(w).wf(),
        old(v).wf(),
        call_ensures(SharedMemory::<N>::channel_count, (old(w),), count),
        call_ensures(SharedMemory::<N>::sender, (w, id), tx),
        call_ensures(SharedMemory::<N>::receiver, (v, id), rx),
    ensures
        count == N,
        tx is Ok <==> id.spec_get() < N,
        rx is Ok <==> id.spec_get() < N,
        tx matches Ok(end) ==> {
            &&& end.target()@ == old(w)@.channels[id.spec_get() as int]
            &&& final(w)@.channels[id.spec_get() as int] == final(end.target())@
            &&& forall|j: int|
                0 <= j < N && j != id.spec_get() ==> final(w)@.channels[j] == old(w)@.channels[j]
            &&& final(w)@.busy == old(w)@.busy
        },
        rx matches Ok(end) ==> {
            &&& end.target()@ == old(v)@.channels[id.spec_get() as int]
            &&& final(v)@.channels[id.spec_get() as int] == final(end.target())@
            &&& forall|j: int|
                0 <= j < N && j != id.spec_get() ==> final(v)@.channels[j] == old(v)@.channels[j]
            &&& final(v)@.busy == old(v)@.busy
        },
        tx is Err ==> *final(w) == *old(w),
        rx is Err ==> *final(v) == *old(v),
{
    old(w).lemma_count();
    old(v).lemma_count();
}

/// A channel that is put into the window is the one that is found there; the others
/// stay.
pub proof fn law_channel_is_put(
    w: &mut SharedMemory<3>,
    id: ChannelId,
    c: Channel,
    found: &Channel,
)
    requires
        old(w).wf(),
        id.spec_get() < 3,
        c.wf(),
        call_ensures(SharedMemory::<3>::put_channel, (w, id, c), ()),
        call_ensures(SharedMemory::<3>::channel_unchecked, (final(w), id), found),
    ensures
        found@ == c@,
        final(w)@.busy == old(w)@.busy,
        forall|j: int|
            0 <= j < 3 && j != id.spec_get() ==> final(w)@.channels[j] == old(w)@.channels[j],
{
    old(w).lemma_count();
}

/// A channel number is the byte that it was made of; a number above 255 is none.
pub proof fn law_channel_numbers(
    b: u8,
    n: usize,
    made: ChannelId,
    got: u8,
    of_byte: Result<ChannelId, InvalidChannelId>,
    of_size: Result<ChannelId, InvalidChannelId>,
)
    requires
        call_ensures(ChannelId::new, (b,), made),
        call_ensures(ChannelId::get, (made,), got),
        call_ensures(<ChannelId as TryFrom<u8>>::try_from, (b,), of_byte),
        call_ensures(<ChannelId as TryFrom<usize>>::try_from, (n,), of_size),
    ensures
        got == b,
        of_byte matches Ok(c) && c.spec_get() == b,
        of_size is Ok <==> n < 256,
        of_size matches Ok(c) ==> c.spec_get() == n,
{
    ChannelId::law_known_by_number(b);
    if n < 256 {
        ChannelId::law_known_by_number(n as u8);
    }
}

/// A channel is made of its marks and its ring, and shows them.
pub proof fn law_parts_of_a_channel(
    magic: u16,
    version: u16,
    ring: RingBuffer<128>,
    c: Channel,
    up: bool,
    v: u16,
    found: &RingBuffer<128>,
)
    requires
        ring.wf(),
        call_ensures(Channel::from_parts, (magic, version, ring), c),
        call_ensures(Channel::is_valid, (&c,), up),
        call_ensures(Channel::version, (&c,), v),
        call_ensures(Channel::ring, (&c,), found),
    ensures
        up == (magic == 0x4F56),
        v == version,
        c@.magic == magic,
        c@.queue == ring@,
        *found == ring,
{
}

/// The errors in words.
pub proof fn law_errors_in_words(
    id: &InvalidChannelId,
    send: &SendError,
    rpc: &RpcError,
    a: &'static str,
    b: &'static str,
    c: &'static str,
)
    requires
        call_ensures(InvalidChannelId::describe, (id,), a),
        call_ensures(SendError::describe, (send,), b),
        call_ensures(RpcError::describe, (rpc,), c),
    ensures
        a@ == "Channel ID out of range for this SharedMemory"@,
        *send == SendError::Invalid ==> b@ == "Invalid channel"@,
        *send == SendError::Full ==> b@ == "Buffer full"@,
        *rpc == RpcError::DeserializeFailed ==> c@ == "request deserialization failed"@,
        *rpc == RpcError::ResponseTooLarge ==> c@ == "response exceeds message size limit"@,
{
}

/// What waits in a ring made of positions and slots: the slots from the read position
/// up to the write position, past the last slot going on at the first.
pub proof fn law_ring_of_slots<const N: usize>(
    read: usize,
    write: usize,
    slots: [Message; N],
    r: Option<RingBuffer<N>>,
    i: usize,
    m: Message,
    at: usize,
    found: Message,
    pending: bool,
    empty: bool,
)
    requires
        call_ensures(RingBuffer::<N>::from_parts, (read, write, slots), r),
        r is Some && i < (r->0)@.len() ==> call_ensures(RingBuffer::<N>::peek_at, (&r->0, i), m),
        r is Some && at < N ==> call_ensures(RingBuffer::<N>::slot_at, (&r->0, at), found),
        r is Some ==> call_ensures(RingBuffer::<N>::has_pending, (&r->0,), pending),
        r is Some ==> call_ensures(RingBuffer::<N>::is_empty, (&r->0,), empty),
    ensures
        r is Some <==> read < N && write < N,
        r is Some ==> {
            &&& (read + (r->0)@.len()) % (N as int) == write
            &&& i < (r->0)@.len() ==> m@ == slots@[(read + i) % (N as int)]@
            &&& at < N ==> found@ == slots@[at as int]@
            &&& pending == (read != write)
            &&& empty == (read == write)
        },
{
    if let Some(ring) = r {
        ring.lemma_queue();
        lemma_round(read as int + ring@.len(), N as int);
        if i < ring@.len() {
            lemma_round(read as int + i, N as int);
        }
    }
}

proof fn lemma_round(a: int, n: int)
    requires
        0 <= a < 2 * n,
    ensures
        a % n == (if a < n {
            a
        } else {
            a - n
        }),
{
    if a < n {
        vstd::arithmetic::div_mod::lemma_small_mod(a as nat, n as nat);
    } else {
        vstd::arithmetic::div_mod::lemma_small_mod((a - n) as nat, n as nat);
        vstd::arithmetic::div_mod::lemma_mod_sub_multiples_vanish(a, n);
    }
}

/// Sending fills the slot at the write position; clearing moves the read position up
/// to it. A new ring is empty.
pub proof fn law_ring_positions<const N: usize>(
    fresh: RingBuffer<N>,
    r: RingBuffer<N>,
    read: usize,
    write: usize,
    c: &mut RingBuffer<N>,
    first: Option<Message>,
)
    requires
        N > 0,
        r.wf(),
        old(c).wf(),
        call_ensures(RingBuffer::<N>::new, (), fresh),
        call_ensures(RingBuffer::<N>::read_index, (&r,), read),
        call_ensures(RingBuffer::<N>::write_index, (&r,), write),
        call_ensures(RingBuffer::<N>::peek, (&r,), first),
        call_ensures(RingBuffer::<N>::clear, (c,), ()),
    ensures
        fresh@.len() == 0,
        (read == write) == (r@.len() == 0),
        first is Some <==> read != write,
        first matches Some(m) ==> m@ == r.slot(read as int),
        final(c)@.len() == 0,
        final(c).read_slot() == old(c).write_slot(),
        final(c).write_slot() == old(c).write_slot(),
{
    r.lemma_queue();
    final(c).lemma_queue();
}

/// A message holds its kind and the bytes that it was made of, and zeros behind them.
pub proof fn law_message_holds_its_bytes(
    kind: u8,
    payload: Payload,
    b: &[u8],
    e: Message,
    raw: Message,
    padded: Message,
    k: u8,
    p: &[u8],
)
    requires
        b@.len() <= 255,
        call_ensures(Message::empty, (), e),
        call_ensures(Message::raw, (kind, payload), raw),
        call_ensures(Message::padded, (kind, b), padded),
        call_ensures(Message::kind, (&padded,), k),
        call_ensures(Message::payload_bytes, (&padded,), p),
    ensures
        e@.kind == 0,
        e@.payload.len() == 255,
        forall|i: int| 0 <= i < 255 ==> #[trigger] e@.payload[i] == 0,
        raw@.kind == kind,
        raw@.payload == payload@,
        k == kind,
        p@.len() == 255,
        holds(p@, 0, b@),
{
}

/// Kind bytes 0 to 3 stand for the four types of message, in this order; another byte
/// comes back as it is.
pub proof fn law_kind_bytes(b: u8, r: Result<MsgType, u8>)
    requires
        call_ensures(<MsgType as TryFrom<u8>>::try_from, (b,), r),
    ensures
        r == (if b == 0 {
            Ok(MsgType::Notification)
        } else if b == 1 {
            Ok(MsgType::Data)
        } else if b == 2 {
            Ok(MsgType::Request)
        } else if b == 3 {
            Ok(MsgType::Response)
        } else {
            Err(b)
        }),
{
}

/// Numbers are put and read with their least significant byte first.
pub proof fn law_numbers_as_bytes(
    out: &mut Vec<u8>,
    v: u64,
    small: &mut Vec<u8>,
    n: u32,
    b: &[u8],
    at: usize,
    read: u64,
    short: u32,
)
    requires
        at + 8 <= b@.len(),
        call_ensures(bytes::put_u64_le, (out, v), ()),
        call_ensures(bytes::put_u32_le, (small, n), ()),
        call_ensures(bytes::get_u64_le, (b, at), read),
        call_ensures(bytes::get_u32_le, (b, at), short),
    ensures
        final(out)@.len() == old(out)@.len() + 8,
        final(out)@.take(old(out)@.len() as int) == old(out)@,
        word_at(final(out)@, old(out)@.len() as int) == v,
        final(small)@.len() == old(small)@.len() + 4,
        final(small)@.take(old(small)@.len() as int) == old(small)@,
        ({
            let k = old(small)@.len() as int;
            let s = final(small)@;
            s[k] + 0x100 * s[k + 1] + 0x1_0000 * s[k + 2] + 0x100_0000 * s[k + 3] == n
        }),
        word_at(b@, at as int) == read,
        b@[at as int] + 0x100 * b@[at + 1] + 0x1_0000 * b@[at + 2] + 0x100_0000 * b@[at + 3]
            == short,
{
    broadcast use bytes::lemma_le_len;

    bytes::law_weights_of_eight(v);
    bytes::law_weights_of_four(n);
    bytes::law_weights_of_eight(read);
    bytes::law_weights_of_four(short);
    let k = old(out)@.len() as int;
    assert(final(out)@.take(k) =~= old(out)@);
    assert(final(small)@.take(old(small)@.len() as int) =~= old(small)@);
    let w = b@.subrange(at as int, at + 8);
    let x = b@.subrange(at as int, at + 4);
    assert(forall|i: int| 0 <= i < 8 ==> w[i] == b@[at + i]);
    assert(forall|i: int| 0 <= i < 4 ==> x[i] == b@[at + i]);
}

/// The other core is woken by one write of 1 to the register that was found, and by
/// none before one was found.
pub proof fn law_other_core_is_woken(
    fresh: ClintMsipNotifier,
    early: bool,
    d: &mut ClintMsipNotifier,
    addr: u64,
    found: bool,
    w: Vec<RegWrite>,
    name: &'static str,
)
    requires
        call_ensures(ClintMsipNotifier::new, (), fresh),
        call_ensures(ClintMsipNotifier::is_found, (&fresh,), early),
        call_ensures(ClintMsipNotifier::probe, (d, addr), ()),
        call_ensures(ClintMsipNotifier::is_found, (final(d),), found),
        call_ensures(<ClintMsipNotifier as PeerNotifier>::notify, (final(d),), w),
        call_ensures(ClintMsipNotifier::compatible, (final(d),), name),
    ensures
        !early,
        found == (addr != 0),
        w@.len() == 1,
        w@[0].addr == addr,
        w@[0].value == 1,
        name@ == "ov,clint-msip-notifier"@,
{
}

/// The device that was found is the one that is used.
pub proof fn law_found_device_is_used<N: PeerNotifier>(
    fresh: NotifierSlot<N>,
    none: Option<&N>,
    s: &mut NotifierSlot<N>,
    device: N,
    some: Option<&N>,
    used: &N,
)
    requires
        old(s).held() is None,
        call_ensures(NotifierSlot::<N>::new, (), fresh),
        call_ensures(NotifierSlot::<N>::try_notifier, (&fresh,), none),
        call_ensures(NotifierSlot::<N>::set, (s, device), ()),
        call_ensures(NotifierSlot::<N>::try_notifier, (final(s),), some),
        call_ensures(NotifierSlot::<N>::notifier, (final(s),), used),
    ensures
        none is None,
        some matches Some(d) && *d == device,
        *used == device,
{
}

/// The window is where it was found, and has the size that was found; a base of 0 is a
/// place like any other.
pub proof fn law_window_is_found(
    fresh: ShmDriver,
    early: bool,
    d: &mut ShmDriver,
    base: usize,
    size: usize,
    found: bool,
    b: usize,
    s: usize,
    name: &'static str,
)
    requires
        base < usize::MAX,
        call_ensures(ShmDriver::new, (), fresh),
        call_ensures(ShmDriver::is_found, (&fresh,), early),
        call_ensures(ShmDriver::probe, (d, base, size), ()),
        call_ensures(ShmDriver::is_found, (final(d),), found),
        call_ensures(ShmDriver::base, (final(d),), b),
        call_ensures(ShmDriver::size, (final(d),), s),
        call_ensures(ShmDriver::compatible, (final(d),), name),
    ensures
        !early,
        found,
        b == base,
        s == size,
        name@ == "ov,rt-async-amp"@,
{
}

} // verus!
