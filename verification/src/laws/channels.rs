//! Channels, long byte strings, and the shared window.

use crate::bytes;
use crate::channel::{Channel, ChannelId, SendError};
use crate::laws::messages::holds;
use crate::layout::{channel_offset, ring_indices, slot_offset};
use crate::message::{Message, Msg};
use crate::ring::RingBuffer;
use crate::shm::{has_pending_interrupt, recv_from_interrupt, SharedMemory};
use crate::stream::{
    block_count, chain, decode, frame, law_frame_round_trip, unit_len, BrokenChain, MultiMessage,
    RecvOutcome,
};
use vstd::prelude::*;

verus! {

/// A channel that is set up bears the mark and the first version, and is empty.
pub proof fn law_channel_starts_empty(c: &mut Channel, n: Channel)
    requires
        old(c).wf(),
        call_ensures(Channel::init, (c,), ()),
        call_ensures(Channel::new, (), n),
    ensures
        final(c)@.magic == 0x4F56,
        final(c)@.version == 1,
        final(c)@.queue.len() == 0,
        n@ == final(c)@,
{
}

/// A channel that is set up takes a message wherever fewer than 127 wait, and puts
/// it behind them. It is refused otherwise, and nothing is changed: as full where
/// 127 wait, as invalid where the channel is not set up.
pub proof fn law_message_is_queued(c: &mut Channel, m: &Message, r: Result<(), SendError>)
    requires
        old(c).wf(),
        call_ensures(Channel::try_send, (c, m), r),
    ensures
        old(c)@.magic != 0x4F56 ==> r == Err::<(), SendError>(SendError::Invalid),
        old(c)@.magic == 0x4F56 && old(c)@.queue.len() >= 127 ==> r == Err::<(), SendError>(
            SendError::Full,
        ),
        old(c)@.magic == 0x4F56 && old(c)@.queue.len() < 127 ==> r is Ok,
        r is Ok ==> final(c)@.queue == old(c)@.queue.push(m@) && final(c)@.magic == old(c)@.magic
            && final(c)@.version == old(c)@.version,
        r is Err ==> final(c)@ == old(c)@,
{
    assert(old(c)@.queue + seq![m@] =~= old(c)@.queue.push(m@));
}

/// The message that has waited longest is looked at and taken first; the others
/// keep their order. A channel that is not set up shows nothing.
pub proof fn law_oldest_is_taken(
    c: &mut Channel,
    peeked: Option<Message>,
    pending: bool,
    empty: bool,
    len: usize,
    r: Option<Message>,
)
    requires
        old(c).wf(),
        call_ensures(Channel::peek, (old(c),), peeked),
        call_ensures(Channel::has_pending, (old(c),), pending),
        call_ensures(Channel::is_empty, (old(c),), empty),
        call_ensures(Channel::len, (old(c),), len),
        call_ensures(Channel::try_recv, (c,), r),
    ensures
        r is Some <==> old(c)@.magic == 0x4F56 && old(c)@.queue.len() > 0,
        r matches Some(m) ==> m@ == old(c)@.queue[0] && old(c)@.queue == seq![m@]
            + final(c)@.queue && peeked is Some && peeked->0@ == m@,
        r is None ==> final(c)@ == old(c)@ && peeked is None,
        pending == (r is Some),
        empty == (r is None),
        (len > 0) == (r is Some),
        r is Some ==> len == final(c)@.queue.len() + 1,
        final(c)@.magic == old(c)@.magic && final(c)@.version == old(c)@.version,
{
    let q = old(c)@.queue;
    if q.len() > 0 {
        assert(q =~= seq![q[0]] + q.skip(1));
    }
}

/// Clearing drops every message of a channel that is set up.
pub proof fn law_cleared_is_empty(c: &mut Channel)
    requires
        old(c).wf(),
        call_ensures(Channel::clear, (c,), ()),
    ensures
        old(c)@.magic == 0x4F56 ==> final(c)@.queue.len() == 0,
        final(c)@.magic == old(c)@.magic,
{
}

/// A ring of `N` slots takes a message wherever fewer than `N - 1` wait. What is
/// sent is taken in order, and looking changes nothing.
pub proof fn law_ring_keeps_order<const N: usize>(
    a: &mut RingBuffer<N>,
    b: &mut RingBuffer<N>,
    m: &Message,
    sent: bool,
    r: Option<Message>,
    len: usize,
)
    requires
        N > 0,
        old(a).wf(),
        call_ensures(RingBuffer::<N>::try_send, (a, m), sent),
        *final(a) == *old(b),
        call_ensures(RingBuffer::<N>::len, (old(b),), len),
        call_ensures(RingBuffer::<N>::try_recv, (b,), r),
    ensures
        sent == (old(a)@.len() + 1 < N),
        len == old(a)@.len() + (if sent {
            1int
        } else {
            0
        }),
        sent ==> r is Some && seq![r->0@] + final(b)@ == old(a)@ + seq![m@],
        !sent && r is Some ==> seq![r->0@] + final(b)@ == old(a)@,
        old(a)@.len() == 0 && sent ==> r->0@ == m@,
{
    let q = old(b)@;
    if q.len() > 0 {
        assert(seq![q[0]] + q.skip(1) =~= q);
    }
    assert(old(a)@.push(m@) =~= old(a)@ + seq![m@]);
}

/// A plain message of up to 255 bytes is queued with those bytes and zeros behind
/// them.
pub proof fn law_raw_bytes_are_queued(
    c: &mut Channel,
    kind: u8,
    data: &[u8],
    r: Result<(), SendError>,
)
    requires
        old(c).wf(),
        call_ensures(Channel::try_send_raw, (c, kind, data), r),
    ensures
        r is Ok <==> data@.len() <= 255 && kind < 128 && old(c)@.magic == 0x4F56
            && old(c)@.queue.len() < 127,
        r == Err::<(), SendError>(SendError::Full) <==> data@.len() <= 255 && kind < 128 && old(
            c,
        )@.magic == 0x4F56 && old(c)@.queue.len() >= 127,
        r is Err ==> final(c)@ == old(c)@,
        r is Ok ==> {
            let q = final(c)@.queue;
            &&& q.drop_last() == old(c)@.queue
            &&& q.last().kind == kind
            &&& q.last().payload.len() == 255
            &&& holds(q.last().payload, 0, data@)
        },
{
    if r is Ok {
        assert(final(c)@.queue.drop_last() =~= old(c)@.queue);
    }
}

/// Byte `i` of a byte string that travels in blocks: four bytes of its length, least
/// significant first, then the string, then zeros.
pub open spec fn carried(data: Seq<u8>, i: int) -> int {
    if i == 0 {
        data.len() as int % 256
    } else if i == 1 {
        data.len() as int / 256 % 256
    } else if i == 2 || i == 3 {
        0
    } else if i < 4 + data.len() {
        data[i - 4] as int
    } else {
        0
    }
}

/// Up to 2036 bytes travel in as few blocks of 255 bytes as hold them and four
/// bytes of length, all of them or none. Every block but the last has 128 added to
/// its kind.
pub proof fn law_long_bytes_are_queued(
    c: &mut Channel,
    kind: u8,
    data: &[u8],
    r: Result<(), SendError>,
    blocks: Option<usize>,
)
    requires
        old(c).wf(),
        call_ensures(block_count, (data@.len() as usize,), blocks),
        data@.len() <= usize::MAX,
        call_ensures(Channel::try_send_stream, (c, kind, data), r),
    ensures
        ({
            let n = (data@.len() + 4 + 254) / 255;
            &&& blocks == (if data@.len() <= 2036 {
                Some(n as usize)
            } else {
                None
            })
            &&& r is Ok <==> data@.len() <= 2036 && kind < 128 && old(c)@.magic == 0x4F56 && old(
                c,
            )@.queue.len() + n <= 127
            &&& r is Ok ==> {
                let q = final(c)@.queue;
                let k = old(c)@.queue.len();
                &&& q.take(k as int) == old(c)@.queue
                &&& q.len() == k + n
                &&& forall|i: int| 0 <= i < n ==> (#[trigger] q[k + i]).kind == (if i + 1 < n {
                    kind + 128
                } else {
                    kind as int
                })
                &&& forall|i: int, j: int|
                    0 <= i < n && 0 <= j < 255 ==> (#[trigger] q[k + i].payload[j]) == carried(
                        data@,
                        255 * i + j,
                    )
            }
        }),
        r is Err ==> final(c)@ == old(c)@,
{
    broadcast use bytes::lemma_le_len;

    if r is Ok {
        let k = old(c)@.queue.len();
        let q = final(c)@.queue;
        let f = frame(data@);
        let b = bytes::le(data@.len(), 4);
        let n = (data@.len() + 4 + 254) / 255;
        bytes::law_weights_of_four(data@.len() as u32);
        assert(b[2] == 0 && b[3] == 0 && b[1] == data@.len() / 256 && b[0] == data@.len() % 256);
        assert(q.take(k as int) =~= old(c)@.queue);
        assert forall|i: int, j: int| 0 <= i < n && 0 <= j < 255 implies (
        #[trigger] q[k + i].payload[j]) == carried(data@, 255 * i + j) by {
            let ch = chain(kind, f);
            assert(q[k + i] == ch[i]);
            let at = 255 * i + j;
            if at < f.len() {
                assert(f.skip(255 * i)[j] == f[at]);
                if at >= 4 {
                    assert(f[at] == data@[at - 4]);
                } else {
                    assert(f[at] == b[at]);
                }
            }
        }
        assert forall|i: int| 0 <= i < n implies (#[trigger] q[k + i]).kind == (if i + 1 < n {
            kind + 128
        } else {
            kind as int
        }) by {
            assert(q[k + i] == chain(kind, f)[i]);
        }
    }
}

/// A byte string that took more than one block is received as a whole: its kind and
/// its bytes come out as they were sent, and what was queued behind it is left.
pub proof fn law_long_bytes_arrive(
    a: &mut Channel,
    b: &mut Channel,
    kind: u8,
    data: &[u8],
    sent: Result<(), SendError>,
    r: Result<Option<RecvOutcome>, BrokenChain>,
    m: MultiMessage,
    k: u8,
    payload: &[u8],
    back: Option<&[u8]>,
)
    requires
        old(a).wf(),
        old(a)@.queue.len() == 0,
        251 < data@.len(),
        call_ensures(Channel::try_send_stream, (a, kind, data), sent),
        sent is Ok,
        *final(a) == *old(b),
        call_ensures(Channel::try_recv_unit, (b,), r),
        r == Ok::<Option<RecvOutcome>, BrokenChain>(Some(RecvOutcome::Multi(m))),
        call_ensures(MultiMessage::kind, (&m,), k),
        call_ensures(MultiMessage::payload, (&m,), payload),
        call_ensures(decode, (payload,), back),
    ensures
        k == kind,
        back matches Some(d) && d@ == data@,
        final(b)@.queue.len() == 0,
{
    law_frame_round_trip(kind, data@, Seq::empty());
    let c = chain(kind, frame(data@));
    assert(c + Seq::<Msg>::empty() =~= c);
    assert(old(a)@.queue + c =~= c);
    assert(unit_len(old(b)@.queue) == Some(c.len()));
}

/// A byte string that took more than one block never comes out as anything else.
pub proof fn law_long_bytes_stay_together(
    a: &mut Channel,
    b: &mut Channel,
    kind: u8,
    data: &[u8],
    sent: Result<(), SendError>,
    r: Result<Option<RecvOutcome>, BrokenChain>,
)
    requires
        old(a).wf(),
        old(a)@.queue.len() == 0,
        251 < data@.len(),
        call_ensures(Channel::try_send_stream, (a, kind, data), sent),
        sent is Ok,
        *final(a) == *old(b),
        call_ensures(Channel::try_recv_unit, (b,), r),
    ensures
        r matches Ok(Some(RecvOutcome::Multi(_))),
{
    law_frame_round_trip(kind, data@, Seq::empty());
    let c = chain(kind, frame(data@));
    assert(c + Seq::<Msg>::empty() =~= c);
    assert(old(a)@.queue + c =~= c);
}

/// The data of a frame is as many bytes, from the fifth on, as its first four say;
/// there is none where they say more than there are.
pub proof fn law_frame_says_its_length(b: &[u8], r: Option<&[u8]>)
    requires
        call_ensures(decode, (b,), r),
    ensures
        b@.len() < 4 ==> r is None,
        b@.len() >= 4 ==> ({
            let n = b@[0] + 0x100 * b@[1] + 0x1_0000 * b@[2] + 0x100_0000 * b@[3];
            &&& r is Some <==> n + 4 <= b@.len()
            &&& r matches Some(d) ==> d@ == b@.subrange(4, 4 + n)
        }),
{
    if b@.len() >= 4 {
        let h = b@.take(4);
        bytes::law_from_le_round_trip(h);
        bytes::lemma_pow256_words();
        bytes::law_weights_of_four(bytes::from_le(h) as u32);
    }
}

/// Setting a window up clears the busy flag and empties every channel.
pub proof fn law_window_starts_empty(w: &mut SharedMemory<3>, valid: bool, n: SharedMemory<3>)
    requires
        old(w).wf(),
        call_ensures(SharedMemory::<3>::init, (w,), ()),
        call_ensures(SharedMemory::<3>::is_valid, (final(w),), valid),
        call_ensures(SharedMemory::<3>::new, (), n),
    ensures
        valid,
        !final(w)@.busy,
        final(w)@.channels.len() == 3,
        forall|i: int|
            0 <= i < 3 ==> (#[trigger] final(w)@.channels[i]).queue.len() == 0
                && final(w)@.channels[i].magic == 0x4F56 && final(w)@.channels[i].version == 1,
        n@ == final(w)@,
{
    assert(n@.channels =~= final(w)@.channels);
}

/// A window is set up where every channel bears the mark.
pub proof fn law_window_is_valid(w: &SharedMemory<3>, valid: bool)
    requires
        w.wf(),
        call_ensures(SharedMemory::<3>::is_valid, (w,), valid),
    ensures
        valid <==> w@.channels[0].magic == 0x4F56 && w@.channels[1].magic == 0x4F56
            && w@.channels[2].magic == 0x4F56,
{
    w.lemma_count();
    if valid {
        assert(crate::shm::set_up(w@, 3));
        let c = w@.channels;
        assert(c[0].valid() && c[1].valid() && c[2].valid());
    }
    if w@.channels[0].valid() && w@.channels[1].valid() && w@.channels[2].valid() {
        assert forall|i: int| 0 <= i < 3 implies (#[trigger] w@.channels[i]).valid() by {
            assert(i == 0 || i == 1 || i == 2);
        }
    }
}

/// The busy flag is what was said last, and saying it touches no channel.
pub proof fn law_busy_is_what_was_said(
    a: &mut SharedMemory<3>,
    b: &mut SharedMemory<3>,
    awake: bool,
    asleep: bool,
)
    requires
        call_ensures(SharedMemory::<3>::set_busy, (a,), ()),
        call_ensures(SharedMemory::<3>::is_busy, (final(a),), awake),
        call_ensures(SharedMemory::<3>::clear_busy, (b,), ()),
        call_ensures(SharedMemory::<3>::is_busy, (final(b),), asleep),
    ensures
        awake,
        !asleep,
        final(a)@.channels == old(a)@.channels,
        final(b)@.channels == old(b)@.channels,
{
}

/// An interrupt handler takes the message that has waited longest, and leaves the
/// other channels alone.
pub proof fn law_interrupt_takes_oldest(
    w: &mut SharedMemory<3>,
    id: ChannelId,
    pending: bool,
    r: Option<Message>,
)
    requires
        old(w).wf(),
        id.spec_get() < 3,
        call_ensures(has_pending_interrupt::<3>, (old(w), id), pending),
        call_ensures(recv_from_interrupt::<3>, (w, id), r),
    ensures
        pending == (r is Some),
        ({
            let i = id.spec_get() as int;
            let before = old(w)@.channels[i];
            let after = final(w)@.channels[i];
            &&& r is Some <==> before.magic == 0x4F56 && before.queue.len() > 0
            &&& r matches Some(m) ==> seq![m@] + after.queue == before.queue
            &&& r is None ==> after == before
            &&& forall|j: int| 0 <= j < 3 && j != i ==> final(w)@.channels[j] == old(
                w,
            )@.channels[j]
            &&& final(w)@.busy == old(w)@.busy
        }),
{
    old(w).lemma_count();
    let q = old(w)@.channels[id.spec_get() as int].queue;
    if q.len() > 0 {
        assert(q =~= seq![q[0]] + q.skip(1));
    }
}

/// Where things are in the window, in bytes from its start: channels of 0x8200
/// bytes from 0x100 on; in a channel, the read index at 0x100, the write index
/// eight bytes behind it, and slots of 256 bytes from 0x200 on.
pub proof fn law_places(ch: u8, slot: usize, at: usize, indices: (usize, usize), s: usize)
    requires
        slot < 128,
        call_ensures(channel_offset, (ch,), at),
        call_ensures(ring_indices, (ch,), indices),
        call_ensures(slot_offset, (ch, slot), s),
    ensures
        at == 0x100 + 0x8200 * ch,
        indices.0 == at + 0x100,
        indices.1 == at + 0x108,
        s == at + 0x200 + 0x100 * slot,
{
}

} // verus!
