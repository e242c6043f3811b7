//! Messages and their bytes.

use crate::bytes;
use crate::message::{EncodeError, Message, MsgType, Payload};
use crate::wire::Wire;
use vstd::prelude::*;

verus! {

/// The number in the eight bytes of `p` from `at` on, least significant first.
pub open spec fn word_at(p: Seq<u8>, at: int) -> int {
    p[at] + 0x100 * p[at + 1] + 0x1_0000 * p[at + 2] + 0x100_0000 * p[at + 3] + 0x1_0000_0000 * p[at
        + 4] + 0x100_0000_0000 * p[at + 5] + 0x1_0000_0000_0000 * p[at + 6] + 0x100_0000_0000_0000
        * p[at + 7]
}

/// From `at` on, `p` holds `b` and then zeros up to its end.
pub open spec fn holds(p: Seq<u8>, at: int, b: Seq<u8>) -> bool {
    &&& forall|i: int| 0 <= i < b.len() ==> #[trigger] p[at + i] == b[i]
    &&& forall|i: int| at + b.len() <= i < 255 ==> #[trigger] p[i] == 0
}

/// A notification gives its number back, which stands in its first four bytes, and
/// passes for no other kind of message.
pub proof fn law_notification_carries_its_number(
    id: u32,
    m: Message,
    number: Option<u32>,
    data: Option<&Payload>,
    rid: Option<u64>,
)
    requires
        call_ensures(Message::notification, (id,), m),
        call_ensures(Message::as_notification, (&m,), number),
        call_ensures(Message::as_data, (&m,), data),
        call_ensures(Message::request_id, (&m,), rid),
    ensures
        number == Some(id),
        data is None,
        rid is None,
        m@.kind == 0,
        m@.payload.len() == 255,
        ({
            let p = m@.payload;
            &&& id == p[0] + 0x100 * p[1] + 0x1_0000 * p[2] + 0x100_0000 * p[3]
            &&& forall|i: int| 4 <= i < 255 ==> #[trigger] p[i] == 0
        }),
{
    let b = bytes::le(id as nat, 4);
    bytes::law_weights_of_four(id);
    assert(m@.payload.take(4) =~= b);
}

/// A data message gives its bytes back, followed by zeros; of more than 255 bytes
/// it gives the first 255. It passes for no other kind of message.
pub proof fn law_data_gives_its_bytes_back(
    b: &[u8],
    m: Message,
    data: Option<&Payload>,
    number: Option<u32>,
    rid: Option<u64>,
)
    requires
        call_ensures(Message::data, (b,), m),
        call_ensures(Message::as_data, (&m,), data),
        call_ensures(Message::as_notification, (&m,), number),
        call_ensures(Message::request_id, (&m,), rid),
    ensures
        data matches Some(p) && p@.len() == 255 && forall|i: int|
            0 <= i < 255 ==> #[trigger] p@[i] == (if i < b@.len() {
                b@[i]
            } else {
                0
            }),
        number is None,
        rid is None,
        m@.kind == 1,
{
}

/// A request can be formed where its arguments take at most 239 bytes. It gives the
/// request number, the method number and the arguments back: eight bytes, eight
/// bytes, the arguments, and zeros.
pub proof fn law_request_carries_its_call<T: Wire>(
    rid: u64,
    mid: u64,
    args: &T,
    r: Result<Message, EncodeError>,
)
    requires
        call_ensures(Message::request::<T>, (rid, mid, args), r),
    ensures
        r is Ok <==> T::wire(args@).len() <= 239,
        r matches Ok(m) ==> {
            let p = m@.payload;
            &&& m@.kind == 2
            &&& p.len() == 255
            &&& word_at(p, 0) == rid
            &&& word_at(p, 8) == mid
            &&& holds(p, 16, T::wire(args@))
        },
{
    broadcast use bytes::lemma_le_len;

    if let Ok(m) = r {
        let p = m@.payload;
        let a = bytes::le(rid as nat, 8);
        let b = bytes::le(mid as nat, 8);
        bytes::law_weights_of_eight(rid);
        bytes::law_weights_of_eight(mid);
        assert(forall|i: int| 0 <= i < 8 ==> p[i] == a[i]);
        assert(forall|i: int| 0 <= i < 8 ==> #[trigger] p[8 + i] == b[i]);
        assert(p[8] == b[0] && p[9] == b[1] && p[10] == b[2] && p[11] == b[3]);
        assert(p[12] == b[4] && p[13] == b[5] && p[14] == b[6] && p[15] == b[7]);
    }
}

/// What is read from a request: its first two words, and its arguments where the
/// bytes behind them are such.
pub proof fn law_request_is_read<T: Wire>(
    m: &Message,
    rid: Option<u64>,
    mid: Option<u64>,
    call: Option<(u64, u64, T)>,
)
    requires
        call_ensures(Message::request_id, (m,), rid),
        call_ensures(Message::method_id, (m,), mid),
        call_ensures(Message::as_request::<T>, (m,), call),
    ensures
        m@.kind == 2 ==> rid == Some(word_at(m@.payload, 0) as u64) && mid == Some(
            word_at(m@.payload, 8) as u64,
        ),
        m@.kind != 2 ==> mid is None && call is None,
        m@.kind != 2 && m@.kind != 3 ==> rid is None,
        call is Some <==> m@.kind == 2 && T::unwire(m@.payload.skip(16)) is Some,
        call matches Some((a, b, x)) ==> a == word_at(m@.payload, 0) && b == word_at(
            m@.payload,
            8,
        ) && x@ == (T::unwire(m@.payload.skip(16))->0).0,
{
    crate::message::law_payload_len(*m);
    let p = m@.payload;
    lemma_word(p, 0);
    lemma_word(p, 8);
    assert(p.subrange(0, 8) =~= p.take(8));
}

/// The bytes of a word, read by weight.
proof fn lemma_word(p: Seq<u8>, at: int)
    requires
        0 <= at,
        at + 8 <= p.len(),
    ensures
        bytes::from_le(p.subrange(at, at + 8)) == word_at(p, at),
        0 <= word_at(p, at) <= u64::MAX,
{
    let b = p.subrange(at, at + 8);
    bytes::law_from_le_round_trip(b);
    bytes::lemma_pow256_words();
    bytes::law_weights_of_eight(bytes::from_le(b) as u64);
}

/// A response can be formed in one message where its result takes at most 247
/// bytes: eight bytes of request number, the result, and zeros.
pub proof fn law_response_carries_its_result<T: Wire>(
    rid: u64,
    result: &T,
    r: Result<Message, EncodeError>,
)
    requires
        call_ensures(Message::response::<T>, (rid, result), r),
    ensures
        r is Ok <==> T::wire(result@).len() <= 247,
        r matches Ok(m) ==> {
            let p = m@.payload;
            &&& m@.kind == 3
            &&& p.len() == 255
            &&& word_at(p, 0) == rid
            &&& holds(p, 8, T::wire(result@))
        },
{
    broadcast use bytes::lemma_le_len;

    if let Ok(m) = r {
        let p = m@.payload;
        let a = bytes::le(rid as nat, 8);
        bytes::law_weights_of_eight(rid);
        assert(forall|i: int| 0 <= i < 8 ==> p[i] == a[i]);
    }
}

/// What is read from a response.
pub proof fn law_response_is_read<T: Wire>(
    m: &Message,
    rid: Option<u64>,
    answer: Option<(u64, T)>,
)
    requires
        call_ensures(Message::request_id, (m,), rid),
        call_ensures(Message::as_response::<T>, (m,), answer),
    ensures
        m@.kind == 3 ==> rid == Some(word_at(m@.payload, 0) as u64),
        answer is Some <==> m@.kind == 3 && T::unwire(m@.payload.skip(8)) is Some,
        answer matches Some((a, x)) ==> a == word_at(m@.payload, 0) && x@ == (T::unwire(
            m@.payload.skip(8),
        )->0).0,
{
    crate::message::law_payload_len(*m);
    let p = m@.payload;
    lemma_word(p, 0);
    assert(p.subrange(0, 8) =~= p.take(8));
}

/// The four types of messages have the codes 0 to 3, and no other code stands for
/// a type.
pub proof fn law_types_have_codes(t: MsgType, code: u8, m: &Message, ty: Option<MsgType>)
    requires
        call_ensures(MsgType::code, (t,), code),
        call_ensures(Message::ty, (m,), ty),
    ensures
        t == MsgType::Notification ==> code == 0,
        t == MsgType::Data ==> code == 1,
        t == MsgType::Request ==> code == 2,
        t == MsgType::Response ==> code == 3,
        m@.kind == code ==> ty == Some(t),
        m@.kind > 3 ==> ty is None,
{
}

} // verus!
