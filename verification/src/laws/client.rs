//! The responses that a client receives.

use crate::channel::{ChannelId, SendError, Sender};
use crate::client::{entry_of, found_at, not_found, polled, Entry, RecvError, RpcClient};
use crate::laws::messages::word_at;
use crate::message::Msg;
use crate::server::{send_response, Response};
use crate::shm::SharedMemory;
use crate::stream::{chain, frame, law_frame_round_trip, unit, unit_len};
use crate::wire::Wire;
use vstd::prelude::*;

verus! {

/// The entry `e` is the response in message `m`: its number and what follows it.
pub open spec fn is_response(e: Entry, m: Msg) -> bool {
    e.rid == word_at(m.payload, 0) && e.data == m.payload.skip(8)
}

proof fn lemma_plain(q: Seq<Msg>)
    requires
        q.len() > 0,
        q[0].kind == 3,
        q[0].payload.len() == 255,
    ensures
        unit_len(q) == Some(1nat),
        entry_of(unit(q, 1)) is Some,
        is_response(entry_of(unit(q, 1))->0, q[0]),
{
    let b = q[0].payload.take(8);
    crate::bytes::law_from_le_round_trip(b);
    crate::bytes::lemma_pow256_words();
    crate::bytes::law_weights_of_eight(crate::bytes::from_le(b) as u64);
}

proof fn lemma_polled(buf: Seq<Entry>, q: Seq<Msg>, k: int)
    requires
        buf.len() <= 8,
        forall|i: int|
            0 <= i < q.len() ==> (#[trigger] q[i]).kind == 3 && q[i].payload.len() == 255,
        k == (if q.len() < 8 - buf.len() {
            q.len() as int
        } else {
            8 - buf.len()
        }),
    ensures
        polled(buf, q).1 == q.skip(k),
        polled(buf, q).0.len() == buf.len() + k,
        polled(buf, q).0.take(buf.len() as int) == buf,
        forall|i: int|
            0 <= i < k ==> is_response(polled(buf, q).0[buf.len() + i], #[trigger] q[i]),
    decreases q.len(),
{
    if buf.len() >= 8 || q.len() == 0 {
        assert(q.skip(0) =~= q);
        assert(buf.take(buf.len() as int) =~= buf);
    } else {
        lemma_plain(q);
        let e = entry_of(unit(q, 1))->0;
        let t = q.skip(1);
        assert forall|i: int| 0 <= i < t.len() implies (#[trigger] t[i]).kind == 3
            && t[i].payload.len() == 255 by {
            assert(t[i] == q[i + 1]);
        }
        lemma_polled(buf.push(e), t, k - 1);
        let r = polled(buf, q);
        assert(r == polled(buf.push(e), t));
        assert(t.skip(k - 1) =~= q.skip(k));
        assert(r.0.take(buf.len() as int) =~= r.0.take(buf.len() + 1int).take(buf.len() as int));
        assert(buf.push(e).take(buf.len() as int) =~= buf);
        assert(r.0[buf.len() as int] == r.0.take(buf.len() + 1int)[buf.len() as int]);
        assert forall|i: int| 0 <= i < k implies is_response(r.0[buf.len() + i], #[trigger] q[i]) by {
            if i > 0 {
                assert(t[i - 1] == q[i]);
                assert(is_response(r.0[buf.push(e).len() + (i - 1)], t[i - 1]));
            }
        }
    }
}

/// A client takes the responses that wait, in their order, until eight are buffered; those
/// that find no room stay in the channel.
pub proof fn law_responses_are_taken(c: &mut RpcClient, shm: &mut SharedMemory<3>, n: usize)
    requires
        old(c).wf(),
        old(shm).wf(),
        old(c).resp() == 1,
        old(shm)@.channels[1].magic == 0x4F56,
        forall|i: int|
            0 <= i < old(shm)@.channels[1].queue.len() ==> (#[trigger] old(
                shm,
            )@.channels[1].queue[i]).kind == 3 && old(shm)@.channels[1].queue[i].payload.len()
                == 255,
        call_ensures(RpcClient::poll_responses, (c, shm), n),
    ensures
        ({
            let q = old(shm)@.channels[1].queue;
            let b = old(c).buf();
            &&& n == (if q.len() < 8 - b.len() {
                q.len() as int
            } else {
                8 - b.len()
            })
            &&& final(c).buf().len() == b.len() + n
            &&& final(c).buf().take(b.len() as int) == b
            &&& final(shm)@.channels[1].queue == q.skip(n as int)
            &&& forall|i: int|
                0 <= i < n ==> is_response(final(c).buf()[b.len() + i], #[trigger] q[i])
            &&& final(shm)@.channels[0] == old(shm)@.channels[0]
            &&& final(shm)@.channels[2] == old(shm)@.channels[2]
            &&& final(shm)@.busy == old(shm)@.busy
        }),
{
    old(shm).lemma_count();
    let q = old(shm)@.channels[1].queue;
    let b = old(c).buf();
    let k = if q.len() < 8 - b.len() {
        q.len() as int
    } else {
        8 - b.len()
    };
    lemma_polled(b, q, k);
}

/// Nothing is taken from a channel that is not set up.
pub proof fn law_nothing_from_a_bare_channel(c: &mut RpcClient, shm: &mut SharedMemory<3>, n: usize)
    requires
        old(c).wf(),
        old(shm).wf(),
        old(c).resp() == 1,
        old(shm)@.channels[1].magic != 0x4F56,
        call_ensures(RpcClient::poll_responses, (c, shm), n),
    ensures
        n == 0,
        final(c).buf() == old(c).buf(),
        final(shm)@ == old(shm)@,
{
}

/// A notification or other message that waits before a response is dropped.
pub proof fn law_other_messages_are_dropped(
    c: &mut RpcClient,
    shm: &mut SharedMemory<3>,
    n: usize,
)
    requires
        old(c).wf(),
        old(shm).wf(),
        old(c).resp() == 1,
        old(c).buf().len() < 8,
        old(shm)@.channels[1].magic == 0x4F56,
        old(shm)@.channels[1].queue.len() == 2,
        old(shm)@.channels[1].queue[0].kind <= 1,
        old(shm)@.channels[1].queue[1].kind == 3,
        old(shm)@.channels[1].queue[1].payload.len() == 255,
        call_ensures(RpcClient::poll_responses, (c, shm), n),
    ensures
        n == 1,
        final(c).buf().drop_last() == old(c).buf(),
        is_response(final(c).buf().last(), old(shm)@.channels[1].queue[1]),
        final(shm)@.channels[1].queue.len() == 0,
{
    old(shm).lemma_count();
    let q = old(shm)@.channels[1].queue;
    let b = old(c).buf();
    let t = q.skip(1);
    assert(unit_len(q) == Some(1nat));
    assert(entry_of(unit(q, 1)) is None);
    assert(polled(b, q) == polled(b, t));
    assert(t[0] == q[1]);
    lemma_polled(b, t, 1);
    let r = polled(b, t).0;
    assert(is_response(r[b.len() + 0int], t[0]));
    assert(r.drop_last() =~= r.take(b.len() as int));
}

/// The oldest buffered response is read and removed, whether or not it can be read as what
/// is wanted.
pub proof fn law_oldest_response_is_read<T: Wire>(
    c: &mut RpcClient,
    r: Result<Option<T>, RecvError>,
    left: usize,
)
    requires
        old(c).wf(),
        call_ensures(RpcClient::recv::<T>, (c,), r),
        call_ensures(RpcClient::buffered, (final(c),), left),
    ensures
        old(c).buf().len() == 0 ==> r is Ok && r->Ok_0 is None && left == 0,
        old(c).buf().len() > 0 ==> seq![old(c).buf()[0]] + final(c).buf() == old(c).buf() && left
            == old(c).buf().len() - 1,
        old(c).buf().len() > 0 && T::unwire(old(c).buf()[0].data) is Some ==> r is Ok
            && r->Ok_0 is Some && r->Ok_0->0@ == (T::unwire(old(c).buf()[0].data)->0).0,
        old(c).buf().len() > 0 && T::unwire(old(c).buf()[0].data) is None ==> r is Err,
{
    if old(c).buf().len() > 0 {
        assert(seq![old(c).buf()[0]] + old(c).buf().skip(1) =~= old(c).buf());
    }
}

/// The response to a request is the first buffered one with its number; only that one is
/// removed. Where there is none, nothing is changed.
pub proof fn law_response_to_a_request<T: Wire>(
    c: &mut RpcClient,
    rid: u64,
    i: int,
    raw: Option<&[u8]>,
    r: Result<Option<T>, RecvError>,
)
    requires
        old(c).wf(),
        call_ensures(RpcClient::recv_raw_for, (old(c), rid), raw),
        call_ensures(RpcClient::recv_for::<T>, (c, rid), r),
    ensures
        (forall|j: int| 0 <= j < old(c).buf().len() ==> (#[trigger] old(c).buf()[j]).rid != rid)
            ==> raw is None && r is Ok && r->Ok_0 is None && final(c).buf() == old(c).buf(),
        0 <= i < old(c).buf().len() && old(c).buf()[i].rid == rid && (forall|j: int|
            0 <= j < i ==> (#[trigger] old(c).buf()[j]).rid != rid) ==> {
            let d = old(c).buf()[i].data;
            &&& raw is Some
            &&& raw->0@ == d
            &&& final(c).buf() == old(c).buf().take(i) + old(c).buf().skip(i + 1)
            &&& T::unwire(d) is Some ==> r is Ok && r->Ok_0 is Some && r->Ok_0->0@ == (T::unwire(
                d,
            )->0).0
            &&& T::unwire(d) is None ==> r is Err
        },
{
    let b = old(c).buf();
    if 0 <= i < b.len() && b[i].rid == rid && (forall|j: int|
        0 <= j < i ==> (#[trigger] b[j]).rid != rid) {
        assert(found_at(b, rid, i));
        assert(!not_found(b, rid));
        let k = choose|k: int| #[trigger] found_at(b, rid, k) && raw->0@ == b[k].data;
        assert(k == i) by {
            if k < i {
                assert(b[k].rid != rid);
            }
            if k > i {
                assert(b[i].rid != rid);
            }
        }
        assert(b.remove(i) =~= b.take(i) + b.skip(i + 1));
    } else if forall|j: int| 0 <= j < b.len() ==> (#[trigger] b[j]).rid != rid {
        assert(not_found(b, rid));
    }
}

/// A client with channels of one's own uses those.
pub proof fn law_own_channels(
    at: usize,
    a: u8,
    b: u8,
    c: u8,
    x: ChannelId,
    y: ChannelId,
    z: ChannelId,
    r: RpcClient,
    addr: usize,
)
    requires
        call_ensures(ChannelId::new, (a,), x),
        call_ensures(ChannelId::new, (b,), y),
        call_ensures(ChannelId::new, (c,), z),
        call_ensures(RpcClient::with_channels, (at, x, y, z), r),
        call_ensures(RpcClient::shm_addr, (&r,), addr),
    ensures
        r.req() == a && r.resp() == b && r.urgent_channel() == c,
        r.buf().len() == 0,
        addr == at,
{
}

proof fn lemma_number(d: Seq<u8>)
    requires
        d.len() >= 8,
    ensures
        crate::bytes::from_le(d.take(8)) as u64 == word_at(d, 0),
{
    let b = d.take(8);
    crate::bytes::law_from_le_round_trip(b);
    crate::bytes::lemma_pow256_words();
    crate::bytes::law_weights_of_eight(crate::bytes::from_le(b) as u64);
}

/// A response of more than 255 bytes, which travels in blocks, is taken as a whole: its
/// number and all the bytes behind it, as the server wrote them.
pub proof fn law_long_response_arrives(
    tx: &mut Sender<'_>,
    resp: &Response,
    sent: Result<(), SendError>,
    c: &mut RpcClient,
    shm: &mut SharedMemory<3>,
    n: usize,
)
    requires
        old(tx).target().wf(),
        old(tx).target()@.queue.len() == 0,
        255 < resp@.len() <= 2036,
        call_ensures(send_response, (tx, resp), sent),
        sent is Ok,
        old(c).wf(),
        old(c).resp() == 1,
        old(c).buf().len() < 8,
        old(shm).wf(),
        old(shm)@.channels[1] == final(tx).target()@,
        call_ensures(RpcClient::poll_responses, (c, shm), n),
    ensures
        n == 1,
        final(c).buf().len() == old(c).buf().len() + 1,
        final(c).buf().drop_last() == old(c).buf(),
        final(c).buf().last().rid == word_at(resp@, 0),
        final(c).buf().last().data == resp@.skip(8),
        final(shm)@.channels[1].queue.len() == 0,
{
    old(shm).lemma_count();
    law_frame_round_trip(3, resp@, Seq::empty());
    lemma_number(resp@);
    let k = chain(3, frame(resp@));
    let q = old(shm)@.channels[1].queue;
    assert(k + Seq::<Msg>::empty() =~= k);
    assert(old(tx).target()@.queue + k =~= k);
    assert(q == k);
    let b = old(c).buf();
    let e = entry_of(unit(q, k.len()))->0;
    let t = q.skip(k.len() as int);
    assert(t.len() == 0);
    assert(polled(b, q) == polled(b.push(e), t));
    assert(polled(b.push(e), t) == (b.push(e), t));
    assert(b.push(e).drop_last() =~= b);
}

/// Two blocks that belong together are a response where their kind is 3 and where their
/// first four bytes, a length, say that at least a number of eight bytes follows and no more
/// than there is; they are dropped otherwise.
pub proof fn law_two_blocks_are_taken(
    c: &mut RpcClient,
    shm: &mut SharedMemory<3>,
    n: usize,
    kind: u8,
    first: Seq<u8>,
    second: Seq<u8>,
)
    requires
        old(c).wf(),
        old(c).resp() == 1,
        old(c).buf().len() < 8,
        old(shm).wf(),
        old(shm)@.channels[1].magic == 0x4F56,
        kind < 128,
        first.len() == 255,
        second.len() == 255,
        old(shm)@.channels[1].queue == seq![
            Msg { kind: (kind + 128) as u8, payload: first },
            Msg { kind, payload: second },
        ],
        call_ensures(RpcClient::poll_responses, (c, shm), n),
    ensures
        ({
            let len = first[0] + 0x100 * first[1] + 0x1_0000 * first[2] + 0x100_0000 * first[3];
            let d = (first + second).subrange(4, 4 + len);
            &&& n == (if kind == 3 && 8 <= len <= 506 {
                1int
            } else {
                0
            })
            &&& n == 1 ==> final(c).buf() == old(c).buf().push(
                Entry { rid: word_at(d, 0) as u64, data: d.skip(8) },
            )
            &&& n == 0 ==> final(c).buf() == old(c).buf()
            &&& final(shm)@.channels[1].queue.len() == 0
        }),
{
    old(shm).lemma_count();
    let q = old(shm)@.channels[1].queue;
    reveal_with_fuel(crate::stream::lead, 3);
    assert(q.skip(1)[0] == q[1]);
    assert(crate::stream::lead(q.skip(1)) == 0);
    assert(unit_len(q) == Some(2nat));
    let j = crate::stream::joined(q, 2);
    assert(j =~= first + second) by {
        assert forall|i: int| 0 <= i < 510 implies j[i] == (first + second)[i] by {
            if i < 255 {
                assert(i / 255 == 0 && i % 255 == i);
            } else {
                assert(i / 255 == 1 && i % 255 == i - 255);
            }
        }
    }
    let h = j.take(4);
    crate::bytes::law_from_le_round_trip(h);
    crate::bytes::lemma_pow256_words();
    crate::bytes::law_weights_of_four(crate::bytes::from_le(h) as u32);
    let len = first[0] + 0x100 * first[1] + 0x1_0000 * first[2] + 0x100_0000 * first[3];
    assert(crate::bytes::from_le(h) == len);
    if 8 <= len <= 506 {
        lemma_number(j.subrange(4, 4 + len));
    }
    let b = old(c).buf();
    let t = q.skip(2);
    assert(t.len() == 0);
    let u = unit(q, 2);
    match entry_of(u) {
        Some(e) => {
            assert(polled(b, q) == polled(b.push(e), t));
            assert(polled(b.push(e), t) == (b.push(e), t));
        },
        None => {
            assert(polled(b, q) == polled(b, t));
            assert(polled(b, t) == (b, t));
        },
    }
}

} // verus!
