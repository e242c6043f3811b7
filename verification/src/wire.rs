//! Values as they travel between the cores.
//!
//! A value that can be an argument or a result of a remote call implements
//! [`Wire`]. The byte format is postcard's: unsigned integers wider than a byte
//! are varints, signed ones are zigzag-mapped first, byte strings carry their
//! length as a varint, and the members of a tuple follow each other.

use crate::varint;
use vstd::prelude::*;
use vstd::slice::slice_subrange;

verus! {

/// A value with a byte format.
pub trait Wire: View + Sized {
    /// The bytes of `v`.
    spec fn wire(v: Self::V) -> Seq<u8>;

    /// The value at the start of `b` and the number of bytes it takes, or
    /// `None` when `b` does not start with a value of this type.
    spec fn unwire(b: Seq<u8>) -> Option<(Self::V, nat)>;

    /// Appends the bytes of the value.
    fn put(&self, out: &mut Vec<u8>)
        ensures
            final(out)@ == old(out)@ + Self::wire(self@),
    ;

    /// Reads the value that starts at `b[pos]`, and the position after it.
    fn take(b: &[u8], pos: usize) -> (r: Option<(Self, usize)>)
        requires
            pos <= b@.len(),
        ensures
            match Self::unwire(b@.skip(pos as int)) {
                Some((v, n)) => r matches Some((x, next)) && x@ == v && next == pos + n && next
                    <= b@.len(),
                None => r is None,
            },
    ;

    /// Reading the bytes of a value gives the value back, whatever follows.
    proof fn law_round_trip(&self, rest: Seq<u8>)
        ensures
            Self::unwire(Self::wire(self@) + rest) == Some((self@, Self::wire(self@).len())),
    ;
}

/// The smallest unsigned number for each signed one: `0, -1, 1, -2, ..`.
pub open spec fn zigzag(v: int) -> nat {
    if v >= 0 {
        (2 * v) as nat
    } else {
        (-2 * v - 1) as nat
    }
}

/// The signed number that [`zigzag`] maps to `n`.
pub open spec fn unzigzag(n: nat) -> int {
    if n % 2 == 0 {
        n as int / 2
    } else {
        -((n as int + 1) / 2)
    }
}

/// `postcard::to_slice` on a `u16`, into a buffer that always suffices: the
/// varint of the number.
#[verifier::external_body]
fn postcard_put_u16(v: u16) -> (r: Vec<u8>)
    ensures
        r@ == varint::varint(v as nat),
{
    let mut buf = [0u8; 3];
    match postcard::to_slice(&v, &mut buf) {
        Ok(used) => used.to_vec(),
        Err(_) => Vec::new(),
    }
}

/// `postcard::to_slice` on an `i16`, into a buffer that always suffices: the
/// varint of the zigzag-mapped number.
#[verifier::external_body]
fn postcard_put_i16(v: i16) -> (r: Vec<u8>)
    ensures
        r@ == varint::varint(zigzag(v as int)),
{
    let mut buf = [0u8; 3];
    match postcard::to_slice(&v, &mut buf) {
        Ok(used) => used.to_vec(),
        Err(_) => Vec::new(),
    }
}

/// `postcard::to_slice` on a `u32`, into a buffer that always suffices: the
/// varint of the number.
#[verifier::external_body]
fn postcard_put_u32(v: u32) -> (r: Vec<u8>)
    ensures
        r@ == varint::varint(v as nat),
{
    let mut buf = [0u8; 5];
    match postcard::to_slice(&v, &mut buf) {
        Ok(used) => used.to_vec(),
        Err(_) => Vec::new(),
    }
}

/// `postcard::to_slice` on an `i32`, into a buffer that always suffices: the
/// varint of the zigzag-mapped number.
#[verifier::external_body]
fn postcard_put_i32(v: i32) -> (r: Vec<u8>)
    ensures
        r@ == varint::varint(zigzag(v as int)),
{
    let mut buf = [0u8; 5];
    match postcard::to_slice(&v, &mut buf) {
        Ok(used) => used.to_vec(),
        Err(_) => Vec::new(),
    }
}

/// `postcard::to_slice` on a `u64`, into a buffer that always suffices: the
/// varint of the number.
#[verifier::external_body]
fn postcard_put_u64(v: u64) -> (r: Vec<u8>)
    ensures
        r@ == varint::varint(v as nat),
{
    let mut buf = [0u8; 10];
    match postcard::to_slice(&v, &mut buf) {
        Ok(used) => used.to_vec(),
        Err(_) => Vec::new(),
    }
}

/// `postcard::to_slice` on a byte slice, into the buffer `buf`: where the
/// varint of the length and the bytes fit, they are returned.
#[verifier::external_body]
fn postcard_put_bytes(v: &[u8], buf: Vec<u8>) -> (r: Option<Vec<u8>>)
    ensures
        match r {
            Some(o) => o@ == varint::varint(v@.len()) + v@ && o@.len() <= buf@.len(),
            None => varint::varint(v@.len()).len() + v@.len() > buf@.len(),
        },
{
    let mut buf = buf;
    match postcard::to_slice(v, &mut buf) {
        Ok(used) => Some(used.to_vec()),
        Err(_) => None,
    }
}

/// `postcard::take_from_bytes` for a `u16`: a varint of at most three bytes,
/// the third at most 3, and the bytes after it.
#[verifier::external_body]
fn postcard_take_u16(b: &[u8]) -> (r: Option<(u16, &[u8])>)
    ensures
        match varint::unvarint(b@, 3, 3) {
            Some((v, n)) => r matches Some((x, rest)) && x as nat == v && rest@ == b@.skip(n as int),
            None => r is None,
        },
{
    postcard::take_from_bytes::<u16>(b).ok()
}

/// `postcard::take_from_bytes` for an `i16`: the number that the varint of a
/// `u16` is the zigzag image of, and the bytes after it.
#[verifier::external_body]
fn postcard_take_i16(b: &[u8]) -> (r: Option<(i16, &[u8])>)
    ensures
        match varint::unvarint(b@, 3, 3) {
            Some((v, n)) => r matches Some((x, rest)) && x as int == unzigzag(v) && rest@ == b@.skip(
                n as int,
            ),
            None => r is None,
        },
{
    postcard::take_from_bytes::<i16>(b).ok()
}

/// `postcard::take_from_bytes` for a `u32`: a varint of at most five bytes,
/// the fifth at most 15, and the bytes after it.
#[verifier::external_body]
fn postcard_take_u32(b: &[u8]) -> (r: Option<(u32, &[u8])>)
    ensures
        match varint::unvarint(b@, 5, 15) {
            Some((v, n)) => r matches Some((x, rest)) && x as nat == v && rest@ == b@.skip(n as int),
            None => r is None,
        },
{
    postcard::take_from_bytes::<u32>(b).ok()
}

/// `postcard::take_from_bytes` for an `i32`: the number that the varint of a
/// `u32` is the zigzag image of, and the bytes after it.
#[verifier::external_body]
fn postcard_take_i32(b: &[u8]) -> (r: Option<(i32, &[u8])>)
    ensures
        match varint::unvarint(b@, 5, 15) {
            Some((v, n)) => r matches Some((x, rest)) && x as int == unzigzag(v) && rest@ == b@.skip(
                n as int,
            ),
            None => r is None,
        },
{
    postcard::take_from_bytes::<i32>(b).ok()
}

/// `postcard::take_from_bytes` for a `u64`: a varint of at most ten bytes, the
/// tenth at most 1, and the bytes after it.
#[verifier::external_body]
fn postcard_take_u64(b: &[u8]) -> (r: Option<(u64, &[u8])>)
    ensures
        match varint::unvarint(b@, 10, 1) {
            Some((v, n)) => r matches Some((x, rest)) && x as nat == v && rest@ == b@.skip(n as int),
            None => r is None,
        },
{
    postcard::take_from_bytes::<u64>(b).ok()
}

/// `postcard::take_from_bytes` for a byte slice: a length as in an unsigned
/// integer of the width of `usize`, that many bytes, and the bytes after them.
#[verifier::external_body]
fn postcard_take_bytes(b: &[u8]) -> (r: Option<(&[u8], &[u8])>)
    ensures
        match bytes_of(b@) {
            Some((v, n)) => r matches Some((x, rest)) && x@ == v && rest@ == b@.skip(n as int),
            None => r is None,
        },
{
    postcard::take_from_bytes::<&[u8]>(b).ok()
}

/// The byte string at the start of `b`, and the number of bytes that its
/// length and its contents take.
pub open spec fn bytes_of(b: Seq<u8>) -> Option<(Seq<u8>, nat)> {
    let head = if usize::BITS == 64 {
        varint::unvarint(b, 10, 1)
    } else {
        varint::unvarint(b, 5, 15)
    };
    match head {
        Some((len, n)) => if n + len <= b.len() {
            Some((b.subrange(n as int, (n + len) as int), n + len))
        } else {
            None
        },
        None => None,
    }
}

/// The position in `b` at which its tail `rest` starts.
fn position(b: &[u8], rest: &[u8]) -> (r: usize)
    requires
        rest@.len() <= b@.len(),
    ensures
        r == b@.len() - rest@.len(),
{
    b.len() - rest.len()
}

/// Appends `part`.
fn append(out: &mut Vec<u8>, part: Vec<u8>)
    ensures
        final(out)@ == old(out)@ + part@,
{
    let mut part = part;
    out.append(&mut part);
}

/// Zigzag loses nothing.
pub proof fn law_zigzag_round_trip(v: int)
    ensures
        unzigzag(zigzag(v)) == v,
{
}

/// Numbers within a word read back from their varints.
proof fn lemma_words(v: nat, rest: Seq<u8>)
    ensures
        v <= u16::MAX ==> varint::unvarint(varint::varint(v) + rest, 3, 3) == Some(
            (v, varint::varint(v).len()),
        ),
        v <= u32::MAX ==> varint::unvarint(varint::varint(v) + rest, 5, 15) == Some(
            (v, varint::varint(v).len()),
        ),
        v <= u64::MAX ==> varint::unvarint(varint::varint(v) + rest, 10, 1) == Some(
            (v, varint::varint(v).len()),
        ),
{
    varint::lemma_pow128_words();
    assert(0x4000nat * 4 == 0x1_0000);
    assert(0x1000_0000nat * 16 == 0x1_0000_0000);
    assert(0x8000_0000_0000_0000nat * 2 == 0x1_0000_0000_0000_0000nat);
    if v <= u16::MAX {
        varint::law_varint_round_trip(v, 3, 3, rest);
    }
    if v <= u32::MAX {
        varint::law_varint_round_trip(v, 5, 15, rest);
    }
    if v <= u64::MAX {
        varint::law_varint_round_trip(v, 10, 1, rest);
    }
}

impl Wire for () {
    open spec fn wire(v: ()) -> Seq<u8> {
        Seq::empty()
    }

    open spec fn unwire(b: Seq<u8>) -> Option<((), nat)> {
        Some(((), 0))
    }

    fn put(&self, out: &mut Vec<u8>) {
        proof {
            assert(out@ + Seq::<u8>::empty() =~= out@);
        }
    }

    fn take(b: &[u8], pos: usize) -> (r: Option<((), usize)>) {
        Some(((), pos))
    }

    proof fn law_round_trip(&self, rest: Seq<u8>) {
    }
}

impl Wire for u8 {
    open spec fn wire(v: u8) -> Seq<u8> {
        seq![v]
    }

    open spec fn unwire(b: Seq<u8>) -> Option<(u8, nat)> {
        if b.len() > 0 {
            Some((b[0], 1))
        } else {
            None
        }
    }

    fn put(&self, out: &mut Vec<u8>) {
        out.push(*self);
        proof {
            assert(out@ =~= old(out)@ + seq![*self]);
        }
    }

    fn take(b: &[u8], pos: usize) -> (r: Option<(u8, usize)>) {
        if pos < b.len() {
            Some((b[pos], pos + 1))
        } else {
            None
        }
    }

    proof fn law_round_trip(&self, rest: Seq<u8>) {
    }
}

impl Wire for bool {
    open spec fn wire(v: bool) -> Seq<u8> {
        seq![
            if v {
                1u8
            } else {
                0u8
            },
        ]
    }

    open spec fn unwire(b: Seq<u8>) -> Option<(bool, nat)> {
        if b.len() > 0 && b[0] <= 1 {
            Some((b[0] == 1, 1))
        } else {
            None
        }
    }

    fn put(&self, out: &mut Vec<u8>) {
        out.push(
            if *self {
                1
            } else {
                0
            },
        );
        proof {
            assert(out@ =~= old(out)@ + Self::wire(*self));
        }
    }

    fn take(b: &[u8], pos: usize) -> (r: Option<(bool, usize)>) {
        if pos < b.len() && b[pos] <= 1 {
            Some((b[pos] == 1, pos + 1))
        } else {
            None
        }
    }

    proof fn law_round_trip(&self, rest: Seq<u8>) {
    }
}

impl Wire for u16 {
    open spec fn wire(v: u16) -> Seq<u8> {
        varint::varint(v as nat)
    }

    open spec fn unwire(b: Seq<u8>) -> Option<(u16, nat)> {
        match varint::unvarint(b, 3, 3) {
            Some((v, n)) => Some((v as u16, n)),
            None => None,
        }
    }

    fn put(&self, out: &mut Vec<u8>) {
        append(out, postcard_put_u16(*self));
    }

    fn take(b: &[u8], pos: usize) -> (r: Option<(u16, usize)>) {
        let tail = slice_subrange(b, pos, b.len());
        proof {
            assert(tail@ =~= b@.skip(pos as int));
            varint::lemma_unvarint_bounds(tail@, 3, 3);
        }
        match postcard_take_u16(tail) {
            Some((x, rest)) => Some((x, position(b, rest))),
            None => None,
        }
    }

    proof fn law_round_trip(&self, rest: Seq<u8>) {
        lemma_words(*self as nat, rest);
    }
}

impl Wire for i16 {
    open spec fn wire(v: i16) -> Seq<u8> {
        varint::varint(zigzag(v as int))
    }

    open spec fn unwire(b: Seq<u8>) -> Option<(i16, nat)> {
        match varint::unvarint(b, 3, 3) {
            Some((v, n)) => Some((unzigzag(v) as i16, n)),
            None => None,
        }
    }

    fn put(&self, out: &mut Vec<u8>) {
        append(out, postcard_put_i16(*self));
    }

    fn take(b: &[u8], pos: usize) -> (r: Option<(i16, usize)>) {
        let tail = slice_subrange(b, pos, b.len());
        proof {
            assert(tail@ =~= b@.skip(pos as int));
            varint::lemma_unvarint_bounds(tail@, 3, 3);
        }
        match postcard_take_i16(tail) {
            Some((x, rest)) => Some((x, position(b, rest))),
            None => None,
        }
    }

    proof fn law_round_trip(&self, rest: Seq<u8>) {
        lemma_words(zigzag(*self as int), rest);
    }
}

impl Wire for u32 {
    open spec fn wire(v: u32) -> Seq<u8> {
        varint::varint(v as nat)
    }

    open spec fn unwire(b: Seq<u8>) -> Option<(u32, nat)> {
        match varint::unvarint(b, 5, 15) {
            Some((v, n)) => Some((v as u32, n)),
            None => None,
        }
    }

    fn put(&self, out: &mut Vec<u8>) {
        append(out, postcard_put_u32(*self));
    }

    fn take(b: &[u8], pos: usize) -> (r: Option<(u32, usize)>) {
        let tail = slice_subrange(b, pos, b.len());
        proof {
            assert(tail@ =~= b@.skip(pos as int));
            varint::lemma_unvarint_bounds(tail@, 5, 15);
        }
        match postcard_take_u32(tail) {
            Some((x, rest)) => Some((x, position(b, rest))),
            None => None,
        }
    }

    proof fn law_round_trip(&self, rest: Seq<u8>) {
        lemma_words(*self as nat, rest);
    }
}

impl Wire for i32 {
    open spec fn wire(v: i32) -> Seq<u8> {
        varint::varint(zigzag(v as int))
    }

    open spec fn unwire(b: Seq<u8>) -> Option<(i32, nat)> {
        match varint::unvarint(b, 5, 15) {
            Some((v, n)) => Some((unzigzag(v) as i32, n)),
            None => None,
        }
    }

    fn put(&self, out: &mut Vec<u8>) {
        append(out, postcard_put_i32(*self));
    }

    fn take(b: &[u8], pos: usize) -> (r: Option<(i32, usize)>) {
        let tail = slice_subrange(b, pos, b.len());
        proof {
            assert(tail@ =~= b@.skip(pos as int));
            varint::lemma_unvarint_bounds(tail@, 5, 15);
        }
        match postcard_take_i32(tail) {
            Some((x, rest)) => Some((x, position(b, rest))),
            None => None,
        }
    }

    proof fn law_round_trip(&self, rest: Seq<u8>) {
        lemma_words(zigzag(*self as int), rest);
    }
}

impl Wire for u64 {
    open spec fn wire(v: u64) -> Seq<u8> {
        varint::varint(v as nat)
    }

    open spec fn unwire(b: Seq<u8>) -> Option<(u64, nat)> {
        match varint::unvarint(b, 10, 1) {
            Some((v, n)) => Some((v as u64, n)),
            None => None,
        }
    }

    fn put(&self, out: &mut Vec<u8>) {
        append(out, postcard_put_u64(*self));
    }

    fn take(b: &[u8], pos: usize) -> (r: Option<(u64, usize)>) {
        let tail = slice_subrange(b, pos, b.len());
        proof {
            assert(tail@ =~= b@.skip(pos as int));
            varint::lemma_unvarint_bounds(tail@, 10, 1);
        }
        match postcard_take_u64(tail) {
            Some((x, rest)) => Some((x, position(b, rest))),
            None => None,
        }
    }

    proof fn law_round_trip(&self, rest: Seq<u8>) {
        lemma_words(*self as nat, rest);
    }
}

impl Wire for Vec<u8> {
    open spec fn wire(v: Seq<u8>) -> Seq<u8> {
        varint::varint(v.len()) + v
    }

    open spec fn unwire(b: Seq<u8>) -> Option<(Seq<u8>, nat)> {
        bytes_of(b)
    }

    fn put(&self, out: &mut Vec<u8>) {
        let len: usize = self.len();
        proof {
            varint::lemma_pow128_words();
            varint::lemma_varint_len(len as nat, 10);
        }
        let mut scratch: Vec<u8> = Vec::new();
        scratch.resize(10, 0);
        let mut zeros: Vec<u8> = Vec::new();
        zeros.resize(len, 0);
        scratch.append(&mut zeros);
        match postcard_put_bytes(self.as_slice(), scratch) {
            Some(part) => append(out, part),
            None => {},
        }
    }

    fn take(b: &[u8], pos: usize) -> (r: Option<(Vec<u8>, usize)>) {
        let tail = slice_subrange(b, pos, b.len());
        proof {
            assert(tail@ =~= b@.skip(pos as int));
        }
        match postcard_take_bytes(tail) {
            Some((x, rest)) => {
                let mut v: Vec<u8> = Vec::new();
                v.extend_from_slice(x);
                proof {
                    assert(v@ =~= x@);
                }
                Some((v, position(b, rest)))
            },
            None => None,
        }
    }

    proof fn law_round_trip(&self, rest: Seq<u8>) {
        let v = self@;
        let head = varint::varint(v.len());
        let s = Self::wire(v) + rest;
        assert(s =~= head + (v + rest));
        lemma_words(self.len() as nat, v + rest);
        assert(s.subrange(head.len() as int, (head.len() + v.len()) as int) =~= v);
    }
}

impl<A: Wire> Wire for (A,) {
    open spec fn wire(v: (A::V,)) -> Seq<u8> {
        A::wire(v.0)
    }

    open spec fn unwire(b: Seq<u8>) -> Option<((A::V,), nat)> {
        match A::unwire(b) {
            Some((a, n)) => Some(((a,), n)),
            None => None,
        }
    }

    fn put(&self, out: &mut Vec<u8>) {
        self.0.put(out);
    }

    fn take(b: &[u8], pos: usize) -> (r: Option<((A,), usize)>) {
        match A::take(b, pos) {
            Some((a, next)) => Some(((a,), next)),
            None => None,
        }
    }

    proof fn law_round_trip(&self, rest: Seq<u8>) {
        self.0.law_round_trip(rest);
    }
}

impl<A: Wire, B: Wire> Wire for (A, B) {
    open spec fn wire(v: (A::V, B::V)) -> Seq<u8> {
        A::wire(v.0) + B::wire(v.1)
    }

    open spec fn unwire(b: Seq<u8>) -> Option<((A::V, B::V), nat)> {
        match A::unwire(b) {
            Some((x, m)) => match B::unwire(b.skip(m as int)) {
                Some((y, n)) => Some(((x, y), m + n)),
                None => None,
            },
            None => None,
        }
    }

    fn put(&self, out: &mut Vec<u8>) {
        self.0.put(out);
        self.1.put(out);
        proof {
            assert(out@ =~= old(out)@ + (A::wire(self.0@) + B::wire(self.1@)));
        }
    }

    fn take(b: &[u8], pos: usize) -> (r: Option<((A, B), usize)>) {
        match A::take(b, pos) {
            Some((x, mid)) => {
                proof {
                    assert(b@.skip(pos as int).skip(mid - pos) =~= b@.skip(mid as int));
                }
                match B::take(b, mid) {
                    Some((y, next)) => Some(((x, y), next)),
                    None => None,
                }
            },
            None => None,
        }
    }

    proof fn law_round_trip(&self, rest: Seq<u8>) {
        let a = A::wire(self.0@);
        let b = B::wire(self.1@);
        assert(a + b + rest =~= a + (b + rest));
        self.0.law_round_trip(b + rest);
        self.1.law_round_trip(rest);
        assert((a + (b + rest)).skip(a.len() as int) =~= b + rest);
    }
}

impl<A: Wire, B: Wire, C: Wire> Wire for (A, B, C) {
    open spec fn wire(v: (A::V, B::V, C::V)) -> Seq<u8> {
        A::wire(v.0) + (B::wire(v.1) + C::wire(v.2))
    }

    open spec fn unwire(b: Seq<u8>) -> Option<((A::V, B::V, C::V), nat)> {
        match A::unwire(b) {
            Some((x, m)) => match <(B, C) as Wire>::unwire(b.skip(m as int)) {
                Some(((y, z), n)) => Some(((x, y, z), m + n)),
                None => None,
            },
            None => None,
        }
    }

    fn put(&self, out: &mut Vec<u8>) {
        self.0.put(out);
        self.1.put(out);
        self.2.put(out);
        proof {
            assert(out@ =~= old(out)@ + (A::wire(self.0@) + (B::wire(self.1@) + C::wire(
                self.2@,
            ))));
        }
    }

    fn take(b: &[u8], pos: usize) -> (r: Option<((A, B, C), usize)>) {
        match A::take(b, pos) {
            Some((x, mid)) => {
                proof {
                    assert(b@.skip(pos as int).skip(mid - pos) =~= b@.skip(mid as int));
                }
                match <(B, C) as Wire>::take(b, mid) {
                    Some(((y, z), next)) => Some(((x, y, z), next)),
                    None => None,
                }
            },
            None => None,
        }
    }

    proof fn law_round_trip(&self, rest: Seq<u8>) {
        let a = A::wire(self.0@);
        let t = (self.1, self.2);
        let b = <(B, C) as Wire>::wire(t@);
        assert(a + b + rest =~= a + (b + rest));
        self.0.law_round_trip(b + rest);
        t.law_round_trip(rest);
        assert((a + (b + rest)).skip(a.len() as int) =~= b + rest);
    }
}

/// The ten values of a round-trip measurement.
pub type PingReply = (u64, u8, u64, u64, u64, u64, u64, u64, u64, u64);

/// Ten values as nested pairs.
pub open spec fn nested10(v: PingReply) -> (
    (u64, u8, u64),
    ((u64, u64, u64), ((u64, u64), (u64, u64))),
) {
    ((v.0, v.1, v.2), ((v.3, v.4, v.5), ((v.6, v.7), (v.8, v.9))))
}

/// Ten values from nested pairs.
pub open spec fn flat10(
    v: ((u64, u8, u64), ((u64, u64, u64), ((u64, u64), (u64, u64)))),
) -> PingReply {
    (
        v.0.0,
        v.0.1,
        v.0.2,
        v.1.0.0,
        v.1.0.1,
        v.1.0.2,
        v.1.1.0.0,
        v.1.1.0.1,
        v.1.1.1.0,
        v.1.1.1.1,
    )
}

impl Wire for PingReply {
    open spec fn wire(v: PingReply) -> Seq<u8> {
        <((u64, u8, u64), ((u64, u64, u64), ((u64, u64), (u64, u64)))) as Wire>::wire(nested10(v))
    }

    open spec fn unwire(b: Seq<u8>) -> Option<(PingReply, nat)> {
        match <((u64, u8, u64), ((u64, u64, u64), ((u64, u64), (u64, u64)))) as Wire>::unwire(b) {
            Some((v, n)) => Some((flat10(v), n)),
            None => None,
        }
    }

    fn put(&self, out: &mut Vec<u8>) {
        let v = (
            (self.0, self.1, self.2),
            ((self.3, self.4, self.5), ((self.6, self.7), (self.8, self.9))),
        );
        v.put(out);
    }

    fn take(b: &[u8], pos: usize) -> (r: Option<(PingReply, usize)>) {
        match <((u64, u8, u64), ((u64, u64, u64), ((u64, u64), (u64, u64)))) as Wire>::take(
            b,
            pos,
        ) {
            Some((v, next)) => {
                let ((a, b1, c), ((d, e, f), ((g, h), (i, j)))) = v;
                Some(((a, b1, c, d, e, f, g, h, i, j), next))
            },
            None => None,
        }
    }

    proof fn law_round_trip(&self, rest: Seq<u8>) {
        let v = nested10(*self);
        v.law_round_trip(rest);
    }
}

} // verus!
