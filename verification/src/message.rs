//! Messages: one kind byte and a payload of fixed size.

use crate::bytes;
use crate::wire::Wire;
use vstd::prelude::*;
use vstd::std_specs::convert::TryFromSpecImpl;

verus! {

/// Number of payload bytes of a message; with the kind byte a message fills
/// [`MESSAGE_ALIGN`] bytes.
pub const PAYLOAD_SIZE: usize = 255;

/// Size and alignment of a message in the shared window.
pub const MESSAGE_ALIGN: usize = 256;

/// Most bytes that the arguments of a request can take.
pub const REQUEST_ARGS_MAX: usize = 239;

/// Most bytes that a result can take in a single-message response.
pub const RESPONSE_RESULT_MAX: usize = 247;

/// The payload of a message.
pub type Payload = [u8; 255];

/// What a message is for.
#[derive(Debug, Clone, Copy, PartialEq, Eq, Structural)]
pub enum MsgType {
    /// A number, with no reply expected.
    Notification,
    /// Raw bytes.
    Data,
    /// A remote call.
    Request,
    /// The answer to a remote call.
    Response,
}

/// The message type that a kind byte stands for.
pub open spec fn type_of(kind: u8) -> Option<MsgType> {
    if kind == 0 {
        Some(MsgType::Notification)
    } else if kind == 1 {
        Some(MsgType::Data)
    } else if kind == 2 {
        Some(MsgType::Request)
    } else if kind == 3 {
        Some(MsgType::Response)
    } else {
        None
    }
}

impl MsgType {
    /// The kind byte of the type.
    pub open spec fn spec_code(self) -> u8 {
        match self {
            MsgType::Notification => 0,
            MsgType::Data => 1,
            MsgType::Request => 2,
            MsgType::Response => 3,
        }
    }

    /// The kind byte of the type.
    pub fn code(self) -> (r: u8)
        ensures
            r == self.spec_code(),
            type_of(r) == Some(self),
    {
        match self {
            MsgType::Notification => 0,
            MsgType::Data => 1,
            MsgType::Request => 2,
            MsgType::Response => 3,
        }
    }
}

impl TryFrom<u8> for MsgType {
    type Error = u8;

    fn try_from(value: u8) -> (r: Result<Self, u8>) {
        if value == 0 {
            Ok(MsgType::Notification)
        } else if value == 1 {
            Ok(MsgType::Data)
        } else if value == 2 {
            Ok(MsgType::Request)
        } else if value == 3 {
            Ok(MsgType::Response)
        } else {
            Err(value)
        }
    }
}

impl TryFromSpecImpl<u8> for MsgType {
    open spec fn obeys_try_from_spec() -> bool {
        true
    }

    open spec fn try_from_spec(value: u8) -> Result<Self, u8> {
        match type_of(value) {
            Some(t) => Ok(t),
            None => Err(value),
        }
    }
}

/// A message as a mathematical value.
#[verifier::ext_equal]
pub struct Msg {
    /// The kind byte.
    pub kind: u8,
    /// The payload bytes.
    pub payload: Seq<u8>,
}

/// `b` as a payload: cut after 255 bytes, or followed by zeros up to that size.
pub open spec fn pad(b: Seq<u8>) -> Seq<u8> {
    Seq::new(
        255,
        |i: int|
            if i < b.len() {
                b[i]
            } else {
                0u8
            },
    )
}

impl Msg {
    /// The type, where the kind byte stands for one.
    pub open spec fn ty(self) -> Option<MsgType> {
        type_of(self.kind)
    }

    /// The request number, where the message is part of a remote call.
    pub open spec fn request_id(self) -> Option<u64> {
        if self.kind == 2 || self.kind == 3 {
            Some(bytes::from_le(self.payload.take(8)) as u64)
        } else {
            None
        }
    }

    /// The method number with its flags, where the message is a request.
    pub open spec fn method_id(self) -> Option<u64> {
        if self.kind == 2 {
            Some(bytes::from_le(self.payload.subrange(8, 16)) as u64)
        } else {
            None
        }
    }

    /// A notification of the number `id`.
    pub open spec fn notification(id: u32) -> Msg {
        Msg { kind: 0, payload: pad(bytes::le(id as nat, 4)) }
    }

    /// A data message.
    pub open spec fn data(b: Seq<u8>) -> Msg {
        Msg { kind: 1, payload: pad(b) }
    }

    /// A request whose argument bytes are `args`.
    pub open spec fn request(rid: u64, mid: u64, args: Seq<u8>) -> Msg {
        Msg {
            kind: 2,
            payload: pad(bytes::le(rid as nat, 8) + bytes::le(mid as nat, 8) + args),
        }
    }

    /// A response whose result bytes are `result`.
    pub open spec fn response(rid: u64, result: Seq<u8>) -> Msg {
        Msg { kind: 3, payload: pad(bytes::le(rid as nat, 8) + result) }
    }

    /// The request number, the method number and the arguments of a request
    /// whose arguments are of type `T`.
    pub open spec fn as_request<T: Wire>(self) -> Option<(u64, u64, T::V)> {
        if self.kind == 2 {
            match T::unwire(self.payload.skip(16)) {
                Some((v, n)) => Some(
                    (
                        bytes::from_le(self.payload.take(8)) as u64,
                        bytes::from_le(self.payload.subrange(8, 16)) as u64,
                        v,
                    ),
                ),
                None => None,
            }
        } else {
            None
        }
    }

    /// The request number and the result of a response whose result is of type
    /// `T`.
    pub open spec fn as_response<T: Wire>(self) -> Option<(u64, T::V)> {
        if self.kind == 3 {
            match T::unwire(self.payload.skip(8)) {
                Some((v, n)) => Some((bytes::from_le(self.payload.take(8)) as u64, v)),
                None => None,
            }
        } else {
            None
        }
    }
}

/// Why a value could not be put into a message.
#[derive(Debug, Clone, Copy, PartialEq, Eq, Structural)]
pub enum EncodeError {
    /// The bytes of the value do not fit.
    BufferFull,
}

/// A message of the shared window.
#[derive(Debug, Clone, Copy, PartialEq)]
pub struct Message {
    kind: u8,
    payload: Payload,
}

impl View for Message {
    type V = Msg;

    closed spec fn view(&self) -> Msg {
        Msg { kind: self.kind, payload: self.payload@ }
    }
}

/// `b` as a payload.
fn payload_of(b: &[u8]) -> (r: Payload)
    ensures
        r@ == pad(b@),
{
    let mut payload: Payload = [0u8; 255];
    let n: usize = if b.len() < 255 {
        b.len()
    } else {
        255
    };
    let mut i: usize = 0;
    while i < n
        invariant
            i <= n <= 255,
            n <= b@.len(),
            n == 255 || n == b@.len(),
            payload@.len() == 255,
            forall|j: int| 0 <= j < i ==> payload@[j] == b@[j],
            forall|j: int| i <= j < 255 ==> payload@[j] == 0u8,
        decreases n - i,
    {
        payload[i] = b[i];
        i = i + 1;
    }
    proof {
        assert(payload@ =~= pad(b@));
    }
    payload
}

/// Every message has a payload of 255 bytes.
pub proof fn law_payload_len(m: Message)
    ensures
        m@.payload.len() == PAYLOAD_SIZE,
{
}

impl Message {
    /// The message of all zero bytes.
    pub fn empty() -> (r: Message)
        ensures
            r@ == (Msg { kind: 0, payload: pad(Seq::empty()) }),
    {
        let r = Message { kind: 0, payload: [0u8; 255] };
        proof {
            assert(r@.payload =~= pad(Seq::empty()));
        }
        r
    }

    /// The message with the given kind byte and payload.
    pub fn raw(kind: u8, payload: Payload) -> (r: Message)
        ensures
            r@ == (Msg { kind, payload: payload@ }),
    {
        Message { kind, payload }
    }

    /// The message with the given kind byte whose payload starts with `b`.
    pub fn padded(kind: u8, b: &[u8]) -> (r: Message)
        ensures
            r@ == (Msg { kind, payload: pad(b@) }),
    {
        Message { kind, payload: payload_of(b) }
    }

    /// A notification of the number `id`.
    pub fn notification(id: u32) -> (r: Message)
        ensures
            r@ == Msg::notification(id),
    {
        let mut b: Vec<u8> = Vec::new();
        bytes::put_u32_le(&mut b, id);
        proof {
            assert(b@ =~= bytes::le(id as nat, 4));
        }
        Message { kind: 0, payload: payload_of(b.as_slice()) }
    }

    /// A data message; what exceeds the payload is cut off.
    pub fn data(data: &[u8]) -> (r: Message)
        ensures
            r@ == Msg::data(data@),
    {
        Message { kind: 1, payload: payload_of(data) }
    }

    /// A request. Fails when the arguments take more than
    /// [`REQUEST_ARGS_MAX`] bytes.
    pub fn request<T: Wire>(request_id: u64, method_id: u64, args: &T) -> (r: Result<
        Message,
        EncodeError,
    >)
        ensures
            match r {
                Ok(m) => T::wire(args@).len() <= REQUEST_ARGS_MAX && m@ == Msg::request(
                    request_id,
                    method_id,
                    T::wire(args@),
                ),
                Err(e) => T::wire(args@).len() > REQUEST_ARGS_MAX && e == EncodeError::BufferFull,
            },
    {
        let mut b: Vec<u8> = Vec::new();
        bytes::put_u64_le(&mut b, request_id);
        bytes::put_u64_le(&mut b, method_id);
        args.put(&mut b);
        proof {
            broadcast use bytes::lemma_le_len;

            assert(b@ =~= bytes::le(request_id as nat, 8) + bytes::le(method_id as nat, 8)
                + T::wire(args@));
        }
        if b.len() > 255 {
            return Err(EncodeError::BufferFull);
        }
        Ok(Message { kind: 2, payload: payload_of(b.as_slice()) })
    }

    /// A response. Fails when the result takes more than
    /// [`RESPONSE_RESULT_MAX`] bytes.
    pub fn response<T: Wire>(request_id: u64, result: &T) -> (r: Result<Message, EncodeError>)
        ensures
            match r {
                Ok(m) => T::wire(result@).len() <= RESPONSE_RESULT_MAX && m@ == Msg::response(
                    request_id,
                    T::wire(result@),
                ),
                Err(e) => T::wire(result@).len() > RESPONSE_RESULT_MAX && e
                    == EncodeError::BufferFull,
            },
    {
        let mut b: Vec<u8> = Vec::new();
        bytes::put_u64_le(&mut b, request_id);
        result.put(&mut b);
        proof {
            broadcast use bytes::lemma_le_len;

            assert(b@ =~= bytes::le(request_id as nat, 8) + T::wire(result@));
        }
        if b.len() > 255 {
            return Err(EncodeError::BufferFull);
        }
        Ok(Message { kind: 3, payload: payload_of(b.as_slice()) })
    }

    /// The payload.
    pub fn payload_bytes(&self) -> (r: &[u8])
        ensures
            r@ == self@.payload,
            r@.len() == 255,
    {
        self.payload.as_slice()
    }

    /// The kind byte.
    pub fn kind(&self) -> (r: u8)
        ensures
            r == self@.kind,
    {
        self.kind
    }

    /// The type, where the kind byte stands for one.
    pub fn ty(&self) -> (r: Option<MsgType>)
        ensures
            r == self@.ty(),
    {
        match MsgType::try_from(self.kind) {
            Ok(t) => Some(t),
            Err(_) => None,
        }
    }

    /// The number of a notification.
    pub fn as_notification(&self) -> (r: Option<u32>)
        ensures
            r == (if self@.kind == 0 {
                Some(bytes::from_le(self@.payload.take(4)) as u32)
            } else {
                None
            }),
    {
        if self.kind == 0 {
            proof {
                assert(self@.payload.subrange(0, 4) =~= self@.payload.take(4));
            }
            Some(bytes::get_u32_le(self.payload.as_slice(), 0))
        } else {
            None
        }
    }

    /// The payload of a data message.
    pub fn as_data(&self) -> (r: Option<&Payload>)
        ensures
            match r {
                Some(p) => self@.kind == 1 && p@ == self@.payload,
                None => self@.kind != 1,
            },
    {
        if self.kind == 1 {
            Some(&self.payload)
        } else {
            None
        }
    }

    /// The method number, with its flags, of a request.
    pub fn method_id(&self) -> (r: Option<u64>)
        ensures
            r == self@.method_id(),
    {
        if self.kind != 2 {
            return None;
        }
        Some(bytes::get_u64_le(self.payload.as_slice(), 8))
    }

    /// The request number of a request or a response.
    pub fn request_id(&self) -> (r: Option<u64>)
        ensures
            r == self@.request_id(),
    {
        if self.kind != 2 && self.kind != 3 {
            return None;
        }
        proof {
            assert(self@.payload.subrange(0, 8) =~= self@.payload.take(8));
        }
        Some(bytes::get_u64_le(self.payload.as_slice(), 0))
    }

    /// The request number, the method number and the arguments of a request.
    pub fn as_request<T: Wire>(&self) -> (r: Option<(u64, u64, T)>)
        ensures
            match self@.as_request::<T>() {
                Some((rid, mid, v)) => r matches Some((a, b, x)) && a == rid && b == mid && x@ == v,
                None => r is None,
            },
    {
        if self.kind != 2 {
            return None;
        }
        proof {
            assert(self@.payload.subrange(0, 8) =~= self@.payload.take(8));
        }
        let p = self.payload.as_slice();
        let rid: u64 = bytes::get_u64_le(p, 0);
        let mid: u64 = bytes::get_u64_le(p, 8);
        match T::take(p, 16) {
            Some((x, _)) => Some((rid, mid, x)),
            None => None,
        }
    }

    /// The request number and the result of a response.
    pub fn as_response<T: Wire>(&self) -> (r: Option<(u64, T)>)
        ensures
            match self@.as_response::<T>() {
                Some((rid, v)) => r matches Some((a, x)) && a == rid && x@ == v,
                None => r is None,
            },
    {
        if self.kind != 3 {
            return None;
        }
        proof {
            assert(self@.payload.subrange(0, 8) =~= self@.payload.take(8));
        }
        let p = self.payload.as_slice();
        let rid: u64 = bytes::get_u64_le(p, 0);
        match T::take(p, 8) {
            Some((x, _)) => Some((rid, x)),
            None => None,
        }
    }
}

/// A request reads back: request number, method number and arguments come out
/// as they were put in.
pub proof fn law_request_round_trip<T: Wire>(rid: u64, mid: u64, args: T)
    requires
        T::wire(args@).len() <= REQUEST_ARGS_MAX,
    ensures
        Msg::request(rid, mid, T::wire(args@)).as_request::<T>() == Some((rid, mid, args@)),
        Msg::request(rid, mid, T::wire(args@)).request_id() == Some(rid),
        Msg::request(rid, mid, T::wire(args@)).method_id() == Some(mid),
{
    broadcast use bytes::lemma_le_len;

    let w = T::wire(args@);
    let head = bytes::le(rid as nat, 8) + bytes::le(mid as nat, 8);
    let p = pad(head + w);
    let zeros = Seq::new((239 - w.len()) as nat, |i: int| 0u8);
    assert(p.take(8) =~= bytes::le(rid as nat, 8));
    assert(p.subrange(8, 16) =~= bytes::le(mid as nat, 8));
    assert(p.skip(16) =~= w + zeros);
    bytes::lemma_pow256_words();
    bytes::law_le_round_trip(rid as nat, 8);
    bytes::law_le_round_trip(mid as nat, 8);
    args.law_round_trip(zeros);
}

/// A response reads back: request number and result come out as they were put
/// in.
pub proof fn law_response_round_trip<T: Wire>(rid: u64, result: T)
    requires
        T::wire(result@).len() <= RESPONSE_RESULT_MAX,
    ensures
        Msg::response(rid, T::wire(result@)).as_response::<T>() == Some((rid, result@)),
        Msg::response(rid, T::wire(result@)).request_id() == Some(rid),
{
    broadcast use bytes::lemma_le_len;

    let w = T::wire(result@);
    let p = pad(bytes::le(rid as nat, 8) + w);
    let zeros = Seq::new((247 - w.len()) as nat, |i: int| 0u8);
    assert(p.take(8) =~= bytes::le(rid as nat, 8));
    assert(p.skip(8) =~= w + zeros);
    bytes::lemma_pow256_words();
    bytes::law_le_round_trip(rid as nat, 8);
    result.law_round_trip(zeros);
}

/// The number of a notification reads back.
pub proof fn law_notification_round_trip(id: u32)
    ensures
        bytes::from_le(Msg::notification(id).payload.take(4)) == id,
{
    broadcast use bytes::lemma_le_len;

    assert(pad(bytes::le(id as nat, 4)).take(4) =~= bytes::le(id as nat, 4));
    bytes::lemma_pow256_words();
    bytes::law_le_round_trip(id as nat, 4);
}

} // verus!
