//! Byte strings longer than a message.
//!
//! A long byte string travels as a frame: its length in four bytes, then the
//! bytes. The frame is cut into blocks of one payload each. Every block but
//! the last has [`MORE`] added to its kind byte, and all blocks of a frame
//! enter the ring together or not at all.

use crate::bytes;
use crate::message::{pad, Message, Msg};
use crate::ring::RingBuffer;
use vstd::prelude::*;
use vstd::slice::slice_subrange;

verus! {

/// Most blocks that a frame can take.
pub const MAX_BLOCKS: usize = 8;

/// Longest byte string that fits in a frame: eight payloads less the length.
pub const MAX_STREAM_LEN: usize = 2036;

/// Added to the kind byte of a block that another block follows.
pub const MORE: u8 = 0x80;

/// The frame of `data`.
pub open spec fn frame(data: Seq<u8>) -> Seq<u8> {
    bytes::le(data.len(), 4) + data
}

/// The number of blocks that `len` bytes of frame take.
pub open spec fn blocks_for(len: nat) -> nat {
    (len + 254) / 255
}

/// The blocks of the frame bytes `f`.
pub open spec fn chain(kind: u8, f: Seq<u8>) -> Seq<Msg> {
    let n = blocks_for(f.len());
    Seq::new(
        n,
        |i: int|
            Msg {
                kind: if i + 1 < n {
                    (kind + 128) as u8
                } else {
                    kind
                },
                payload: pad(f.skip(255 * i)),
            },
    )
}

/// The number of blocks at the start of `q` that another block must follow.
pub open spec fn lead(q: Seq<Msg>) -> nat
    decreases q.len(),
{
    if q.len() == 0 || q[0].kind < MORE {
        0
    } else {
        1 + lead(q.skip(1))
    }
}

/// The number of blocks of the unit at the start of `q`: one for a message
/// that stands alone, at most [`MAX_BLOCKS`] for a frame. `None` where a block
/// that must follow is missing, is of another kind, or is one too many.
pub open spec fn unit_len(q: Seq<Msg>) -> Option<nat> {
    let n = lead(q) + 1;
    if n <= MAX_BLOCKS && n <= q.len() && forall|i: int|
        0 <= i < n - 1 ==> (#[trigger] q[i]).kind == q[n - 1].kind + MORE {
        Some(n)
    } else {
        None
    }
}

/// The payloads of the first `n` messages of `q`, one after the other.
pub open spec fn joined(q: Seq<Msg>, n: nat) -> Seq<u8> {
    Seq::new(255 * n, |i: int| q[i / 255].payload[i % 255])
}

/// The byte string in a frame, whatever follows it.
pub open spec fn unframe(b: Seq<u8>) -> Option<Seq<u8>> {
    if b.len() >= 4 && bytes::from_le(b.take(4)) <= b.len() - 4 {
        Some(b.subrange(4, 4 + bytes::from_le(b.take(4)) as int))
    } else {
        None
    }
}

/// What a receiver takes from a channel at once.
#[verifier::ext_equal]
pub enum Unit {
    /// A message that stands alone.
    Single(Msg),
    /// The kind and the joined payloads of a frame's blocks.
    Multi(u8, Seq<u8>),
}

/// The unit of `n` messages at the start of `q`.
pub open spec fn unit(q: Seq<Msg>, n: nat) -> Unit {
    if n == 1 {
        Unit::Single(q[0])
    } else {
        Unit::Multi(q[n - 1].kind, joined(q, n))
    }
}

/// Whether `q` is made of units and nothing else: no frame at its end waits
/// for a block.
pub open spec fn whole(q: Seq<Msg>) -> bool
    decreases q.len(),
{
    if q.len() == 0 {
        true
    } else {
        match unit_len(q) {
            Some(n) => whole(q.skip(n as int)),
            None => false,
        }
    }
}

/// The joined blocks of a frame.
pub struct MultiMessage {
    kind: u8,
    payload: Vec<u8>,
}

impl MultiMessage {
    /// The kind of the frame.
    pub closed spec fn spec_kind(&self) -> u8 {
        self.kind
    }

    /// The joined payloads.
    pub closed spec fn spec_payload(&self) -> Seq<u8> {
        self.payload@
    }

    /// The kind of the frame.
    pub fn kind(&self) -> (r: u8)
        ensures
            r == self.spec_kind(),
    {
        self.kind
    }

    /// The joined payloads.
    pub fn payload(&self) -> (r: &[u8])
        ensures
            r@ == self.spec_payload(),
    {
        self.payload.as_slice()
    }
}

/// What a receiver takes from a channel at once.
pub enum RecvOutcome {
    /// A message that stands alone.
    Single(Message),
    /// The blocks of a frame.
    Multi(MultiMessage),
}

impl View for RecvOutcome {
    type V = Unit;

    open spec fn view(&self) -> Unit {
        match self {
            RecvOutcome::Single(m) => Unit::Single(m@),
            RecvOutcome::Multi(m) => Unit::Multi(m.spec_kind(), m.spec_payload()),
        }
    }
}

/// The queue starts with blocks that form no frame.
#[derive(Debug, Clone, Copy, PartialEq, Eq, Structural)]
pub struct BrokenChain;

/// The number of blocks that a frame of `len` bytes of data takes; `None` when
/// it does not fit.
pub fn block_count(len: usize) -> (r: Option<usize>)
    ensures
        r == (if len <= MAX_STREAM_LEN {
            Some(blocks_for((len + 4) as nat) as usize)
        } else {
            None
        }),
        r matches Some(n) ==> 1 <= n <= MAX_BLOCKS,
{
    if len <= MAX_STREAM_LEN {
        Some((len + 4 + 254) / 255)
    } else {
        None
    }
}

/// The data of a frame; what follows it is ignored. `None` when the length
/// exceeds the bytes that are there.
pub fn decode(b: &[u8]) -> (r: Option<&[u8]>)
    ensures
        match unframe(b@) {
            Some(d) => r matches Some(x) && x@ == d,
            None => r is None,
        },
{
    if b.len() < 4 {
        return None;
    }
    proof {
        assert(b@.subrange(0, 4) =~= b@.take(4));
    }
    let n: usize = bytes::get_u32_le(b, 0) as usize;
    if n > b.len() - 4 {
        return None;
    }
    Some(slice_subrange(b, 4, 4 + n))
}

/// The number of leading blocks is found by looking at the kinds.
proof fn lemma_lead(q: Seq<Msg>, n: nat)
    requires
        n <= q.len(),
        forall|i: int| 0 <= i < n ==> (#[trigger] q[i]).kind >= MORE,
        n < q.len() ==> q[n as int].kind < MORE,
    ensures
        lead(q) == n,
    decreases n,
{
    if n > 0 {
        assert forall|i: int| 0 <= i < n - 1 implies (#[trigger] q.skip(1)[i]).kind >= MORE by {
            assert(q.skip(1)[i] == q[i + 1]);
        }
        lemma_lead(q.skip(1), (n - 1) as nat);
    }
}

/// At least as many leading blocks as have been seen.
proof fn lemma_lead_at_least(q: Seq<Msg>, n: nat)
    requires
        n <= q.len(),
        forall|i: int| 0 <= i < n ==> (#[trigger] q[i]).kind >= MORE,
    ensures
        lead(q) >= n,
    decreases n,
{
    if n > 0 {
        assert forall|i: int| 0 <= i < n - 1 implies (#[trigger] q.skip(1)[i]).kind >= MORE by {
            assert(q.skip(1)[i] == q[i + 1]);
        }
        lemma_lead_at_least(q.skip(1), (n - 1) as nat);
    }
}

/// The leading blocks are followed by a block of another kind, where anything
/// follows them.
proof fn lemma_lead_ends(q: Seq<Msg>)
    ensures
        lead(q) <= q.len(),
        forall|i: int| 0 <= i < lead(q) ==> (#[trigger] q[i]).kind >= MORE,
        lead(q) < q.len() ==> q[lead(q) as int].kind < MORE,
    decreases q.len(),
{
    if q.len() > 0 && q[0].kind >= MORE {
        lemma_lead_ends(q.skip(1));
        assert forall|i: int| 0 <= i < lead(q) implies (#[trigger] q[i]).kind >= MORE by {
            if i > 0 {
                assert(q.skip(1)[i - 1] == q[i]);
            }
        }
        if lead(q) < q.len() {
            assert(q.skip(1)[lead(q) - 1] == q[lead(q) as int]);
        }
    }
}

/// The unit at the start of a queue is the same whatever is queued behind it.
pub proof fn lemma_unit_stays(q: Seq<Msg>, rest: Seq<Msg>)
    requires
        unit_len(q) is Some,
    ensures
        ({
            let n = unit_len(q)->Some_0;
            &&& 1 <= n <= q.len()
            &&& unit_len(q + rest) == Some(n)
            &&& unit(q + rest, n) == unit(q, n)
            &&& (q + rest).skip(n as int) == q.skip(n as int) + rest
        }),
{
    let n = unit_len(q)->Some_0;
    let all = q + rest;
    lemma_lead_ends(q);
    assert forall|i: int| 0 <= i < n - 1 implies (#[trigger] all[i]).kind >= MORE by {
        assert(all[i] == q[i]);
    }
    assert(all[n - 1] == q[n - 1]);
    lemma_lead(all, (n - 1) as nat);
    assert forall|i: int| 0 <= i < n - 1 implies (#[trigger] all[i]).kind == all[n - 1].kind
        + MORE by {
        assert(all[i] == q[i]);
    }
    assert(joined(all, n) =~= joined(q, n));
    assert(all.skip(n as int) =~= q.skip(n as int) + rest);
}

/// Two whole queues, one behind the other, are whole.
pub proof fn lemma_whole_join(a: Seq<Msg>, b: Seq<Msg>)
    requires
        whole(a),
        whole(b),
    ensures
        whole(a + b),
    decreases a.len(),
{
    if a.len() == 0 {
        assert(a + b =~= b);
    } else {
        lemma_unit_stays(a, b);
        lemma_whole_join(a.skip(unit_len(a)->Some_0 as int), b);
    }
}

/// A message that no block must follow is a unit, and whole.
pub proof fn lemma_single_unit(m: Msg)
    requires
        m.kind < MORE,
    ensures
        unit_len(seq![m]) == Some(1nat),
        unit(seq![m], 1) == Unit::Single(m),
        seq![m].skip(1) == Seq::<Msg>::empty(),
        whole(seq![m]),
{
    reveal_with_fuel(whole, 2);
    let q = seq![m];
    assert(lead(q) == 0);
    assert(q.skip(1) =~= Seq::<Msg>::empty());
}

/// A frame of more than one block is a unit, and whole.
pub proof fn lemma_frame_unit(kind: u8, data: Seq<u8>)
    requires
        kind < MORE,
        251 < data.len() <= MAX_STREAM_LEN,
    ensures
        ({
            let c = chain(kind, frame(data));
            &&& c.len() > 0
            &&& unit_len(c) == Some(c.len())
            &&& unit(c, c.len()) matches Unit::Multi(k, b) && k == kind && unframe(b) == Some(data)
            &&& c.skip(c.len() as int) == Seq::<Msg>::empty()
            &&& whole(c)
        }),
{
    reveal_with_fuel(whole, 2);
    let c = chain(kind, frame(data));
    law_frame_round_trip(kind, data, Seq::empty());
    assert(c + Seq::<Msg>::empty() =~= c);
}

impl<const N: usize> RingBuffer<N> {
    /// Queues the blocks of a frame of `data`, all or none. `false`, with
    /// nothing changed, when they do not all fit.
    pub fn try_send_frame(&mut self, kind: u8, data: &[u8]) -> (r: bool)
        requires
            old(self).wf(),
            kind < MORE,
            data@.len() <= MAX_STREAM_LEN,
        ensures
            final(self).wf(),
            r == (old(self)@.len() + blocks_for(data@.len() + 4) <= N - 1),
            final(self)@ == (if r {
                old(self)@ + chain(kind, frame(data@))
            } else {
                old(self)@
            }),
    {
        broadcast use bytes::lemma_le_len;

        let mut f: Vec<u8> = Vec::new();
        bytes::put_u32_le(&mut f, data.len() as u32);
        f.extend_from_slice(data);
        proof {
            self.lemma_queue();
            assert(f@ =~= frame(data@));
        }
        let n: usize = (f.len() + 254) / 255;
        let free: usize = N - 1 - self.len();
        if n > free {
            return false;
        }
        let ghost c = chain(kind, f@);
        let mut i: usize = 0;
        while i < n
            invariant
                i <= n <= 8,
                n == blocks_for(f@.len()),
                255 * (n - 1) < f@.len(),
                f@.len() <= 2040,
                kind < MORE,
                c == chain(kind, f@),
                self.wf(),
                self@ == old(self)@ + c.take(i as int),
                old(self)@.len() + n <= N - 1,
            decreases n - i,
        {
            let rest = slice_subrange(f.as_slice(), 255 * i, f.len());
            proof {
                assert(rest@ =~= f@.skip(255 * i as int));
            }
            let k: u8 = if i + 1 < n {
                kind + 128
            } else {
                kind
            };
            let block = Message::padded(k, rest);
            let ok = self.try_send(&block);
            proof {
                assert(c[i as int] == block@);
                assert(c.take(i + 1) =~= c.take(i as int).push(block@));
                assert(self@ =~= old(self)@ + c.take(i + 1));
            }
            i = i + 1;
        }
        proof {
            assert(c.take(n as int) =~= c);
        }
        true
    }

    /// Takes the unit at the start of the queue. Blocks that form no frame
    /// stay queued.
    pub fn try_recv_unit(&mut self) -> (r: Result<Option<RecvOutcome>, BrokenChain>)
        requires
            old(self).wf(),
        ensures
            final(self).wf(),
            match r {
                Ok(None) => old(self)@.len() == 0 && final(self)@ == old(self)@,
                Ok(Some(u)) => {
                    &&& old(self)@.len() > 0
                    &&& unit_len(old(self)@) matches Some(n)
                    &&& u@ == unit(old(self)@, n)
                    &&& final(self)@ == old(self)@.skip(n as int)
                },
                Err(e) => {
                    &&& old(self)@.len() > 0
                    &&& unit_len(old(self)@) is None
                    &&& final(self)@ == old(self)@
                },
            },
    {
        let len: usize = self.len();
        if len == 0 {
            return Ok(None);
        }
        let ghost q = self@;
        let mut n: usize = 0;
        while n < len && n < 8 && self.peek_at(n).kind() >= MORE
            invariant
                self.wf(),
                q == self@,
                len == q.len(),
                n <= len,
                n <= 8,
                forall|i: int| 0 <= i < n ==> (#[trigger] q[i]).kind >= MORE,
            ensures
                n <= len,
                n <= 8,
                forall|i: int| 0 <= i < n ==> (#[trigger] q[i]).kind >= MORE,
                n < len && n < 8 ==> q[n as int].kind < MORE,
            decreases 8 - n,
        {
            n = n + 1;
        }
        if n == len || n == 8 {
            proof {
                lemma_lead_at_least(q, n as nat);
            }
            return Err(BrokenChain);
        }
        proof {
            lemma_lead(q, n as nat);
        }
        let kind: u8 = self.peek_at(n).kind();
        let mut i: usize = 0;
        while i < n
            invariant
                self.wf(),
                q == self@,
                n < q.len(),
                i <= n,
                lead(q) == n,
                kind == q[n as int].kind,
                kind < MORE,
                self@ == old(self)@,
                q.len() > 0,
                forall|j: int| 0 <= j < i ==> (#[trigger] q[j]).kind == kind + MORE,
            decreases n - i,
        {
            if self.peek_at(i).kind() != kind + MORE {
                proof {
                    assert(q[i as int].kind != q[n as int].kind + MORE);
                }
                return Err(BrokenChain);
            }
            i = i + 1;
        }
        if n == 0 {
            match self.try_recv() {
                Some(m) => return Ok(Some(RecvOutcome::Single(m))),
                None => return Ok(None),
            }
        }
        let mut payload: Vec<u8> = Vec::new();
        let mut k: usize = 0;
        while k <= n
            invariant
                self.wf(),
                k <= n + 1,
                n < 8,
                n < q.len(),
                self@ == q.skip(k as int),
                payload@ == joined(q, k as nat),
            decreases n + 1 - k,
        {
            let ghost before = payload@;
            let taken = self.try_recv();
            if let Some(m) = taken {
                payload.extend_from_slice(m.payload_bytes());
                proof {
                    assert(m@ == q[k as int]);
                    assert(payload@ =~= before + m@.payload);
                    assert(payload@ =~= joined(q, (k + 1) as nat));
                    assert(self@ =~= q.skip(k + 1));
                }
            }
            k = k + 1;
        }
        Ok(Some(RecvOutcome::Multi(MultiMessage { kind, payload })))
    }
}

/// A frame that takes more than one block is received as one unit, whatever is
/// queued behind it, and its data is what was sent.
pub proof fn law_frame_round_trip(kind: u8, data: Seq<u8>, rest: Seq<Msg>)
    requires
        kind < MORE,
        251 < data.len() <= MAX_STREAM_LEN,
    ensures
        ({
            let c = chain(kind, frame(data));
            let q = c + rest;
            &&& unit_len(q) == Some(c.len())
            &&& unit(q, c.len()) matches Unit::Multi(k, b) && k == kind && unframe(b) == Some(data)
            &&& q.skip(c.len() as int) == rest
            &&& 2 <= c.len() <= MAX_BLOCKS
        }),
{
    broadcast use bytes::lemma_le_len;

    let f = frame(data);
    let c = chain(kind, f);
    let n = c.len();
    let q = c + rest;
    assert(2 <= n <= 8);
    assert forall|i: int| 0 <= i < n - 1 implies (#[trigger] q[i]).kind >= MORE by {
        assert(q[i] == c[i]);
    }
    assert(q[n - 1] == c[n - 1]);
    lemma_lead(q, (n - 1) as nat);
    assert forall|i: int| 0 <= i < n - 1 implies (#[trigger] q[i]).kind == q[n - 1].kind + MORE by {
        assert(q[i] == c[i]);
    }
    let b = joined(q, n);
    assert forall|i: int| 0 <= i < f.len() implies b[i] == f[i] by {
        let j = i / 255;
        assert(0 <= j < n);
        assert(q[j] == c[j]);
        assert(c[j].payload == pad(f.skip(255 * j)));
        assert(f.skip(255 * j)[i % 255] == f[i]);
    }
    bytes::lemma_pow256_words();
    bytes::law_le_round_trip(data.len(), 4);
    assert(b.take(4) =~= bytes::le(data.len(), 4));
    assert(b.subrange(4, 4 + data.len() as int) =~= data);
    assert(q.skip(n as int) =~= rest);
}

} // verus!
