//! The table of methods that a service offers, as bytes.
//!
//! ```text
//! [version u8][body length varint][count varint]
//! count times: [method number varint][flags u8][name length varint][name]
//! ```
//!
//! The body length covers the count and the entries. What follows the body is
//! ignored, so a table can travel in a payload that is filled up with zeros.

use crate::varint::{self, put_varint, take_varint, taken, varint, varint_len};
use vstd::prelude::*;
use vstd::slice::slice_subrange;
use vstd::string::*;
use vstd::utf8::valid_utf8;

verus! {

/// Version of the byte format, its first byte.
pub const PROTOCOL_VERSION: u8 = 1;

/// The method sends no response.
pub const FLAG_ONE_WAY: u8 = 1;

/// The method is called on the urgent channel.
pub const FLAG_URGENT: u8 = 2;

/// The response comes later, from whoever completes the call.
pub const FLAG_ACALL: u8 = 4;

/// An entry of the table as a mathematical value.
#[verifier::ext_equal]
pub struct Method {
    /// The method number.
    pub mid: u64,
    /// The flags.
    pub flags: u8,
    /// The bytes of the name.
    pub name: Seq<u8>,
}

/// The bytes of an entry.
pub open spec fn entry_bytes(m: Method) -> Seq<u8> {
    varint(m.mid as nat) + (seq![m.flags] + (varint(m.name.len()) + m.name))
}

/// The bytes of the entries, one after the other.
pub open spec fn entries_bytes(ms: Seq<Method>) -> Seq<u8>
    decreases ms.len(),
{
    if ms.len() == 0 {
        Seq::empty()
    } else {
        entries_bytes(ms.drop_last()) + entry_bytes(ms.last())
    }
}

/// The count and the entries.
pub open spec fn body_bytes(ms: Seq<Method>) -> Seq<u8> {
    varint(ms.len()) + entries_bytes(ms)
}

/// The bytes of the table.
pub open spec fn table_bytes(ms: Seq<Method>) -> Seq<u8> {
    seq![PROTOCOL_VERSION] + (varint(body_bytes(ms).len()) + body_bytes(ms))
}

/// The table that the three columns make up.
pub open spec fn table_of(mids: Seq<u64>, flags: Seq<u8>, names: Seq<&str>) -> Seq<Method> {
    Seq::new(
        mids.len(),
        |i: int| Method { mid: mids[i], flags: flags[i], name: names[i].spec_bytes() },
    )
}

/// The entry at the start of `b` and the number of bytes it takes.
pub open spec fn read_method(b: Seq<u8>) -> Option<(Method, nat)> {
    match taken(b) {
        Some((mid, n)) => if n < b.len() {
            let rest = b.skip(n + 1int);
            match taken(rest) {
                Some((len, k)) => if k + len <= rest.len() && valid_utf8(
                    rest.subrange(k as int, k + len),
                ) {
                    Some(
                        (
                            Method {
                                mid,
                                flags: b[n as int],
                                name: rest.subrange(k as int, k + len),
                            },
                            n + 1 + k + len as nat,
                        ),
                    )
                } else {
                    None
                },
                None => None,
            }
        } else {
            None
        },
        None => None,
    }
}

/// The `count` entries at the start of `b` and the number of bytes they take.
pub open spec fn read_methods(b: Seq<u8>, count: nat) -> Option<(Seq<Method>, nat)>
    decreases count,
{
    if count == 0 {
        Some((Seq::empty(), 0))
    } else {
        match read_methods(b, (count - 1) as nat) {
            Some((ms, n)) => match read_method(b.skip(n as int)) {
                Some((m, k)) => Some((ms.push(m), n + k)),
                None => None,
            },
            None => None,
        }
    }
}

/// The entries at the start of `b`, up to the first that cannot be read.
pub open spec fn scan(b: Seq<u8>) -> Seq<Method>
    decreases b.len(),
{
    match read_method(b) {
        Some((m, n)) => if 0 < n <= b.len() {
            seq![m] + scan(b.skip(n as int))
        } else {
            Seq::empty()
        },
        None => Seq::empty(),
    }
}

/// The entry area of the table at the start of `b`, and the count before it.
pub open spec fn entry_area(b: Seq<u8>) -> Option<(Seq<u8>, u64)> {
    if b.len() == 0 || b[0] != PROTOCOL_VERSION {
        None
    } else {
        match taken(b.skip(1)) {
            Some((len, n)) => if 1 + n + len <= b.len() {
                let body = b.subrange(1int + n, 1int + n + len);
                match taken(body) {
                    Some((count, k)) => Some((body.skip(k as int), count)),
                    None => None,
                }
            } else {
                None
            },
            None => None,
        }
    }
}

/// The entries of the table at the start of `b`. `None` where the version is
/// unknown, the body does not lie within `b`, an entry cannot be read, or the
/// entries do not fill the body exactly.
pub open spec fn parsed(b: Seq<u8>) -> Option<Seq<Method>> {
    match entry_area(b) {
        Some((area, count)) => match read_methods(area, count as nat) {
            Some((ms, n)) => if n == area.len() {
                Some(ms)
            } else {
                None
            },
            None => None,
        },
        None => None,
    }
}

/// An entry that was read takes at least three bytes and lies within `b`.
proof fn lemma_read_method_bounds(b: Seq<u8>)
    ensures
        read_method(b) matches Some((m, n)) ==> 3 <= n <= b.len(),
{
    varint::lemma_unvarint_bounds(b, 10, 127);
    if let Some((mid, n)) = taken(b) {
        if n < b.len() {
            varint::lemma_unvarint_bounds(b.skip(n + 1int), 10, 127);
        }
    }
}

/// Entries that were read lie within `b`.
proof fn lemma_read_methods_bounds(b: Seq<u8>, count: nat)
    ensures
        read_methods(b, count) matches Some((ms, n)) ==> n <= b.len() && ms.len() == count && n >= 3
            * count,
    decreases count,
{
    if count > 0 {
        lemma_read_methods_bounds(b, (count - 1) as nat);
        if let Some((ms, n)) = read_methods(b, (count - 1) as nat) {
            lemma_read_method_bounds(b.skip(n as int));
        }
    }
}

/// Where reading some entries fails, reading more fails too.
proof fn lemma_read_methods_fail(b: Seq<u8>, m: nat, n: nat)
    requires
        m <= n,
        read_methods(b, m) is None,
    ensures
        read_methods(b, n) is None,
    decreases n,
{
    if m < n {
        lemma_read_methods_fail(b, m, (n - 1) as nat);
    }
}

/// Scanning finds the entries that were read, and then what follows them.
proof fn lemma_scan_prefix(b: Seq<u8>, count: nat)
    requires
        read_methods(b, count) is Some,
    ensures
        ({
            let (ms, n) = read_methods(b, count).unwrap();
            n <= b.len() && scan(b) == ms + scan(b.skip(n as int))
        }),
    decreases count,
{
    lemma_read_methods_bounds(b, count);
    if count == 0 {
        assert(b.skip(0) =~= b);
        assert(Seq::<Method>::empty() + scan(b) =~= scan(b));
    } else {
        let c = (count - 1) as nat;
        lemma_scan_prefix(b, c);
        let (ms, n) = read_methods(b, c).unwrap();
        let tail = b.skip(n as int);
        lemma_read_method_bounds(tail);
        let (m, k) = read_method(tail).unwrap();
        assert(tail.skip(k as int) =~= b.skip((n + k) as int));
        assert(ms + (seq![m] + scan(tail.skip(k as int))) =~= ms.push(m) + scan(
            b.skip((n + k) as int),
        ));
    }
}

/// A table that was parsed holds the entries that a scan of its entry area
/// finds.
proof fn lemma_parsed_scan(b: Seq<u8>)
    requires
        parsed(b) is Some,
    ensures
        scan(entry_area(b).unwrap().0) == parsed(b).unwrap(),
{
    let (area, count) = entry_area(b).unwrap();
    let (ms, n) = read_methods(area, count as nat).unwrap();
    lemma_scan_prefix(area, count as nat);
    let end = area.skip(n as int);
    assert(end.len() == 0);
    assert(read_method(end) is None);
    assert(ms + scan(end) =~= ms);
}

/// An entry reads back, whatever follows it.
proof fn lemma_entry_round_trip(m: Method, rest: Seq<u8>)
    requires
        valid_utf8(m.name),
        m.name.len() <= u64::MAX,
    ensures
        read_method(entry_bytes(m) + rest) == Some((m, entry_bytes(m).len())),
{
    let b = entry_bytes(m) + rest;
    let head = varint(m.mid as nat);
    let name_len = varint(m.name.len());
    let after = seq![m.flags] + (name_len + m.name) + rest;
    assert(b =~= head + after);
    varint::law_taken_round_trip(m.mid, after);
    let n = head.len();
    assert(b[n as int] == m.flags);
    let tail = b.skip(n + 1int);
    assert(tail =~= name_len + (m.name + rest));
    varint::law_taken_round_trip(m.name.len() as u64, m.name + rest);
    let k = name_len.len();
    assert(tail.subrange(k as int, (k + m.name.len()) as int) =~= m.name);
}

/// Entries read back, whatever follows them.
proof fn lemma_entries_round_trip(ms: Seq<Method>, rest: Seq<u8>)
    requires
        forall|i: int|
            0 <= i < ms.len() ==> valid_utf8((#[trigger] ms[i]).name) && ms[i].name.len()
                <= u64::MAX,
    ensures
        read_methods(entries_bytes(ms) + rest, ms.len()) == Some((ms, entries_bytes(ms).len())),
    decreases ms.len(),
{
    if ms.len() > 0 {
        let init = ms.drop_last();
        let m = ms.last();
        let b = entries_bytes(ms) + rest;
        assert(b =~= entries_bytes(init) + (entry_bytes(m) + rest));
        assert forall|i: int| 0 <= i < init.len() implies valid_utf8((#[trigger] init[i]).name)
            && init[i].name.len() <= u64::MAX by {
            assert(init[i] == ms[i]);
        }
        lemma_entries_round_trip(init, entry_bytes(m) + rest);
        assert(b.skip(entries_bytes(init).len() as int) =~= entry_bytes(m) + rest);
        lemma_entry_round_trip(m, rest);
        assert(init.push(m) =~= ms);
    }
}

/// A table reads back from its bytes, whatever follows them.
pub proof fn law_table_round_trip(ms: Seq<Method>, rest: Seq<u8>)
    requires
        table_bytes(ms).len() <= u64::MAX,
        forall|i: int| 0 <= i < ms.len() ==> valid_utf8((#[trigger] ms[i]).name),
    ensures
        parsed(table_bytes(ms) + rest) == Some(ms),
{
    let body = body_bytes(ms);
    let b = table_bytes(ms) + rest;
    let head = varint(body.len());
    lemma_entries_len(ms);
    assert(b.skip(1) =~= head + (body + rest));
    varint::law_taken_round_trip(body.len() as u64, body + rest);
    let n = head.len();
    assert(b.subrange((1 + n) as int, (1 + n + body.len()) as int) =~= body);
    varint::law_taken_round_trip(ms.len() as u64, entries_bytes(ms));
    assert(body.skip(varint(ms.len()).len() as int) =~= entries_bytes(ms) + Seq::empty());
    lemma_entries_round_trip(ms, Seq::empty());
}

/// Every entry adds its name and at least three bytes more.
proof fn lemma_entries_len(ms: Seq<Method>)
    ensures
        entries_bytes(ms).len() >= ms.len(),
        forall|i: int| 0 <= i < ms.len() ==> (#[trigger] ms[i]).name.len() <= entries_bytes(
            ms,
        ).len(),
    decreases ms.len(),
{
    if ms.len() > 0 {
        lemma_entries_len(ms.drop_last());
        assert forall|i: int| 0 <= i < ms.len() implies (#[trigger] ms[i]).name.len()
            <= entries_bytes(ms).len() by {
            if i < ms.len() - 1 {
                assert(ms.drop_last()[i] == ms[i]);
            }
        }
    }
}

/// `core::str::from_utf8`: the bytes as a string where they are UTF-8.
#[verifier::external_body]
pub(crate) fn utf8_str(b: &[u8]) -> (r: Option<&str>)
    ensures
        match r {
            Some(s) => valid_utf8(b@) && s.spec_bytes() == b@,
            None => !valid_utf8(b@),
        },
{
    core::str::from_utf8(b).ok()
}

/// The length of the count and the entries of a table.
fn body_len(mids: &[u64], flags: &[u8], names: &[&str]) -> (n: usize)
    requires
        names@.len() >= mids@.len(),
        table_bytes(table_of(mids@, flags@, names@)).len() <= usize::MAX,
    ensures
        n == body_bytes(table_of(mids@, flags@, names@)).len(),
{
    let ghost ms = table_of(mids@, flags@, names@);
    let ghost total = entries_bytes(ms).len();
    let count: usize = mids.len();
    let mut body: usize = varint_len(count as u64);
    let ghost head = body;
    let mut i: usize = 0;
    proof {
        assert(ms.take(0).len() == 0);
    }
    while i < count
        invariant
            count == mids@.len(),
            i <= count,
            names@.len() >= count,
            ms == table_of(mids@, flags@, names@),
            total == entries_bytes(ms).len(),
            head + total <= usize::MAX,
            head == varint(count as nat).len(),
            body == head + entries_bytes(ms.take(i as int)).len(),
        decreases count - i,
    {
        let name: &str = names[i];
        let name_bytes = name.as_bytes();
        let a: usize = varint_len(mids[i]);
        let b: usize = varint_len(name_bytes.len() as u64);
        let len: usize = name_bytes.len();
        proof {
            assert(ms.take(i + 1).drop_last() =~= ms.take(i as int));
            assert(ms.take(i + 1).last() == ms[i as int]);
            lemma_entries_prefix(ms, i + 1);
        }
        body = body + (a + 1 + b + len);
        i = i + 1;
    }
    proof {
        assert(ms.take(count as int) =~= ms);
    }
    body
}

/// The entries so far take no more bytes than all of them.
proof fn lemma_entries_prefix(ms: Seq<Method>, n: int)
    requires
        0 <= n <= ms.len(),
    ensures
        entries_bytes(ms.take(n)).len() <= entries_bytes(ms).len(),
    decreases ms.len() - n,
{
    if n < ms.len() {
        lemma_entries_prefix(ms, n + 1);
        assert(ms.take(n + 1).drop_last() =~= ms.take(n));
    } else {
        assert(ms.take(n) =~= ms);
    }
}

/// A table of few methods with short names takes few bytes.
pub proof fn lemma_table_len(ms: Seq<Method>, name: nat)
    requires
        ms.len() < 128,
        name < 128,
        forall|i: int|
            0 <= i < ms.len() ==> (#[trigger] ms[i]).name.len() <= name && ms[i].mid < 128,
    ensures
        entries_bytes(ms).len() <= ms.len() * (name + 3),
        table_bytes(ms).len() <= 12 + ms.len() * (name + 3),
    decreases ms.len(),
{
    if ms.len() > 0 {
        let init = ms.drop_last();
        assert forall|i: int| 0 <= i < init.len() implies (#[trigger] init[i]).name.len() <= name
            && init[i].mid < 128 by {
            assert(init[i] == ms[i]);
        }
        lemma_table_len(init, name);
        assert(entry_bytes(ms.last()).len() <= name + 3);
        assert((ms.len() - 1) * (name + 3) + (name + 3) == ms.len() * (name + 3))
            by (nonlinear_arith)
            requires
                ms.len() > 0,
        ;
    }
    assert(ms.len() * (name + 3) <= 127 * 130) by (nonlinear_arith)
        requires
            ms.len() < 128,
            name < 128,
    ;
    varint::lemma_pow128_words();
    varint::lemma_varint_len(body_bytes(ms).len(), 10);
}

proof fn lemma_flags_take_one_byte(a: Seq<Method>, b: Seq<Method>)
    requires
        a.len() == b.len(),
        forall|i: int|
            0 <= i < a.len() ==> (#[trigger] a[i]).mid == b[i].mid && a[i].name == b[i].name,
    ensures
        entries_bytes(a).len() == entries_bytes(b).len(),
    decreases a.len(),
{
    if a.len() > 0 {
        assert forall|i: int| 0 <= i < a.drop_last().len() implies (#[trigger] a.drop_last()[i]).mid
            == b.drop_last()[i].mid && a.drop_last()[i].name == b.drop_last()[i].name by {
            assert(a.drop_last()[i] == a[i]);
        }
        lemma_flags_take_one_byte(a.drop_last(), b.drop_last());
        assert(a.last().mid == b.last().mid && a.last().name == b.last().name) by {
            assert(a[a.len() - 1] == a.last());
        }
    }
}

/// Flags play no part in the length of a table.
pub proof fn law_flags_take_no_part(mids: Seq<u64>, f: Seq<u8>, g: Seq<u8>, names: Seq<&str>)
    ensures
        table_bytes(table_of(mids, f, names)).len() == table_bytes(table_of(mids, g, names)).len(),
{
    lemma_flags_take_one_byte(table_of(mids, f, names), table_of(mids, g, names));
}

/// The number of bytes that [`encode`] writes for the same table. Each method has
/// one byte of flags, whatever they are.
pub fn encoded_len(mids: &[u64], flags: &[u8], names: &[&str]) -> (n: usize)
    requires
        names@.len() >= mids@.len(),
        table_bytes(table_of(mids@, flags@, names@)).len() <= usize::MAX,
    ensures
        n == table_bytes(table_of(mids@, flags@, names@)).len(),
        forall|other: Seq<u8>|
            n == table_bytes(#[trigger] table_of(mids@, other, names@)).len(),
{
    let body: usize = body_len(mids, flags, names);
    let head: usize = varint_len(body as u64);
    proof {
        assert forall|other: Seq<u8>|
            table_bytes(#[trigger] table_of(mids@, other, names@)).len() == table_bytes(
                table_of(mids@, flags@, names@),
            ).len() by {
            law_flags_take_no_part(mids@, other, flags@, names@);
        }
    }
    1 + head + body
}

/// The bytes of the table whose columns are given.
pub fn encode(mids: &[u64], flags: &[u8], names: &[&str]) -> (out: Vec<u8>)
    requires
        flags@.len() >= mids@.len(),
        names@.len() >= mids@.len(),
        table_bytes(table_of(mids@, flags@, names@)).len() <= usize::MAX,
    ensures
        out@ == table_bytes(table_of(mids@, flags@, names@)),
{
    let ghost ms = table_of(mids@, flags@, names@);
    let mut out: Vec<u8> = Vec::new();
    out.push(PROTOCOL_VERSION);
    let body: usize = body_len(mids, flags, names);
    put_varint(&mut out, body as u64);
    put_varint(&mut out, mids.len() as u64);
    let ghost head = seq![PROTOCOL_VERSION] + varint(body as nat) + varint(mids@.len());
    let mut i: usize = 0;
    proof {
        assert(ms.take(0).len() == 0);
        assert(out@ =~= head + entries_bytes(ms.take(0)));
    }
    while i < mids.len()
        invariant
            i <= mids@.len(),
            flags@.len() >= mids@.len(),
            names@.len() >= mids@.len(),
            ms == table_of(mids@, flags@, names@),
            out@ == head + entries_bytes(ms.take(i as int)),
        decreases mids@.len() - i,
    {
        let name: &str = names[i];
        let name_bytes = name.as_bytes();
        let len: usize = name_bytes.len();
        let ghost before = out@;
        put_varint(&mut out, mids[i]);
        out.push(flags[i]);
        put_varint(&mut out, len as u64);
        out.extend_from_slice(name_bytes);
        proof {
            let m = ms[i as int];
            assert(ms.take(i + 1).drop_last() =~= ms.take(i as int));
            assert(ms.take(i + 1).last() == m);
            assert(out@ =~= before + entry_bytes(m));
            assert(out@ =~= head + entries_bytes(ms.take(i + 1)));
        }
        i = i + 1;
    }
    proof {
        assert(ms.take(mids@.len() as int) =~= ms);
        assert(out@ =~= table_bytes(ms));
    }
    out
}

/// What [`encode`] writes, [`parse`] reads back, whatever follows it.
pub proof fn law_encode_parse(mids: Seq<u64>, flags: Seq<u8>, names: Seq<&str>, rest: Seq<u8>)
    requires
        table_bytes(table_of(mids, flags, names)).len() <= u64::MAX,
    ensures
        parsed(table_bytes(table_of(mids, flags, names)) + rest) == Some(
            table_of(mids, flags, names),
        ),
{
    let ms = table_of(mids, flags, names);
    assert forall|i: int| 0 <= i < ms.len() implies valid_utf8((#[trigger] ms[i]).name) by {
        vstd::utf8::encode_utf8_valid_utf8(names[i]@);
    }
    law_table_round_trip(ms, rest);
}

/// One method of a table.
#[derive(Debug, Clone, Copy, PartialEq, Eq)]
pub struct MethodDesc<'a> {
    /// The method number, without call flags.
    pub mid: u64,
    /// How the method is called.
    pub flags: u8,
    /// The name.
    pub name: &'a str,
}

/// The flag with the weight `weight`, a power of two, is set in `flags`.
pub open spec fn has_flag(flags: u8, weight: u8) -> bool {
    flags / weight % 2 == 1
}

impl<'a> View for MethodDesc<'a> {
    type V = Method;

    open spec fn view(&self) -> Method {
        Method { mid: self.mid, flags: self.flags, name: self.name.spec_bytes() }
    }
}

impl<'a> MethodDesc<'a> {
    /// Whether the method sends no response.
    pub fn is_one_way(&self) -> (r: bool)
        ensures
            r == has_flag(self.flags, FLAG_ONE_WAY),
    {
        self.flags % 2 == 1
    }

    /// Whether the method is called on the urgent channel.
    pub fn is_urgent(&self) -> (r: bool)
        ensures
            r == has_flag(self.flags, FLAG_URGENT),
    {
        self.flags / 2 % 2 == 1
    }

    /// Whether the response comes later.
    pub fn is_deferred(&self) -> (r: bool)
        ensures
            r == has_flag(self.flags, FLAG_ACALL),
    {
        self.flags / 4 % 2 == 1
    }

    /// How the method is called, in a word.
    pub fn kind_name(&self) -> (r: &'static str)
        ensures
            r@ == (if has_flag(self.flags, FLAG_ACALL) {
                "acall"@
            } else if has_flag(self.flags, FLAG_URGENT) {
                "urgent"@
            } else if has_flag(self.flags, FLAG_ONE_WAY) {
                "send"@
            } else {
                "call"@
            }),
    {
        if self.is_deferred() {
            "acall"
        } else if self.is_urgent() {
            "urgent"
        } else if self.is_one_way() {
            "send"
        } else {
            "call"
        }
    }
}

/// Goes through the entries of a table.
#[derive(Debug, Clone)]
pub struct Methods<'a> {
    bytes: &'a [u8],
    pos: usize,
}

impl<'a> Methods<'a> {
    /// The bytes of the entries.
    pub closed spec fn area(&self) -> Seq<u8> {
        self.bytes@
    }

    /// The position of the next entry.
    pub closed spec fn at(&self) -> int {
        self.pos as int
    }

    /// The bytes that have not been read.
    pub open spec fn rest(&self) -> Seq<u8> {
        self.area().skip(self.at())
    }

    /// The position lies within the bytes.
    pub closed spec fn wf(&self) -> bool {
        self.pos <= self.bytes@.len()
    }

    /// The next entry; `None`, without moving on, where none can be read.
    pub fn next(&mut self) -> (r: Option<MethodDesc<'a>>)
        requires
            old(self).wf(),
        ensures
            final(self).wf(),
            final(self).area() == old(self).area(),
            match read_method(old(self).rest()) {
                Some((m, n)) => r matches Some(d) && d@ == m && n <= old(self).rest().len()
                    && final(self).at() == old(self).at() + n && final(self).rest() == old(
                    self,
                ).rest().skip(n as int),
                None => r is None && final(self).at() == old(self).at(),
            },
    {
        let ghost s = self.rest();
        proof {
            lemma_read_method_bounds(s);
        }
        let bytes = self.bytes;
        let len: usize = bytes.len();
        let (mid, at) = match take_varint(bytes, self.pos) {
            Some(x) => x,
            None => return None,
        };
        if at >= len {
            return None;
        }
        let flags: u8 = bytes[at];
        proof {
            assert(bytes@.skip(at + 1) =~= s.skip(at + 1 - self.pos));
            varint::lemma_unvarint_bounds(bytes@.skip(at + 1), 10, 127);
        }
        let (name_len, start) = match take_varint(bytes, at + 1) {
            Some(x) => x,
            None => return None,
        };
        if name_len > (len - start) as u64 {
            return None;
        }
        let end: usize = start + name_len as usize;
        let part = slice_subrange(bytes, start, end);
        proof {
            let tail = bytes@.skip(at + 1);
            let k = start - (at + 1);
            assert(part@ =~= tail.subrange(k, k + name_len));
        }
        match utf8_str(part) {
            Some(name) => {
                proof {
                    assert(bytes@.skip(end as int) =~= s.skip(end - self.pos));
                }
                self.pos = end;
                Some(MethodDesc { mid, flags, name })
            },
            None => None,
        }
    }

    /// The entries that follow, up to the first that cannot be read.
    pub fn collect(self) -> (r: Vec<MethodDesc<'a>>)
        requires
            self.wf(),
        ensures
            r@.len() == scan(self.rest()).len(),
            forall|i: int| 0 <= i < r@.len() ==> (#[trigger] r@[i])@ == scan(self.rest())[i],
    {
        let mut it = self;
        let mut out: Vec<MethodDesc<'a>> = Vec::new();
        let ghost all = scan(self.rest());
        proof {
            assert(scan(it.rest()) =~= all.skip(0));
        }
        loop
            invariant
                it.wf(),
                out@.len() <= all.len(),
                scan(it.rest()) == all.skip(out@.len() as int),
                forall|i: int| 0 <= i < out@.len() ==> (#[trigger] out@[i])@ == all[i],
            ensures
                out@.len() == all.len(),
                forall|i: int| 0 <= i < out@.len() ==> (#[trigger] out@[i])@ == all[i],
            decreases it.rest().len(),
        {
            let ghost s = it.rest();
            proof {
                lemma_read_method_bounds(s);
            }
            match it.next() {
                Some(d) => {
                    proof {
                        let (m, n) = read_method(s).unwrap();
                        let i = out@.len() as int;
                        assert(scan(s) == seq![m] + scan(s.skip(n as int)));
                        assert(scan(s).len() == all.len() - i);
                        assert(all[i] == all.skip(i)[0]);
                        assert(scan(s.skip(n as int)) =~= scan(s).skip(1));
                        assert(all.skip(i).skip(1) =~= all.skip(i + 1));
                    }
                    out.push(d);
                },
                None => {
                    proof {
                        assert(scan(s).len() == 0);
                    }
                    break;
                },
            }
        }
        out
    }
}

/// A table that has been parsed.
#[derive(Debug, Clone, Copy)]
pub struct Descriptor<'a> {
    proto: u8,
    bytes: &'a [u8],
}

impl<'a> View for Descriptor<'a> {
    type V = Seq<Method>;

    closed spec fn view(&self) -> Seq<Method> {
        scan(self.bytes@)
    }
}

impl<'a> Descriptor<'a> {
    /// The version of the byte format.
    pub closed spec fn spec_proto(&self) -> u8 {
        self.proto
    }

    /// The version of the byte format.
    pub fn proto(&self) -> (r: u8)
        ensures
            r == self.spec_proto(),
    {
        self.proto
    }

    /// Goes through the entries.
    pub fn methods(&self) -> (r: Methods<'a>)
        ensures
            r.wf(),
            scan(r.rest()) == self@,
    {
        let r = Methods { bytes: self.bytes, pos: 0 };
        proof {
            assert(r.rest() =~= self.bytes@);
        }
        r
    }

    /// The number of entries.
    pub fn method_count(&self) -> (r: usize)
        ensures
            r == self@.len(),
    {
        self.methods().collect().len()
    }
}

/// Parses the table at the start of `bytes`.
pub fn parse(bytes: &[u8]) -> (r: Option<Descriptor<'_>>)
    ensures
        match parsed(bytes@) {
            Some(ms) => r matches Some(d) && d@ == ms && d.spec_proto() == PROTOCOL_VERSION,
            None => r is None,
        },
{
    let len: usize = bytes.len();
    if len == 0 {
        return None;
    }
    let proto: u8 = bytes[0];
    if proto != PROTOCOL_VERSION {
        return None;
    }
    let (desc_len, pos) = match take_varint(bytes, 1) {
        Some(x) => x,
        None => return None,
    };
    if desc_len > (len - pos) as u64 {
        return None;
    }
    let body = slice_subrange(bytes, pos, pos + desc_len as usize);
    proof {
        assert(body@.skip(0) =~= body@);
    }
    let (count, inner) = match take_varint(body, 0) {
        Some(x) => x,
        None => return None,
    };
    let area = slice_subrange(body, inner, body.len());
    proof {
        assert(area@ =~= body@.skip(inner as int));
        assert(entry_area(bytes@) == Some((area@, count)));
    }
    let mut m = Methods { bytes: area, pos: 0 };
    proof {
        assert(m.rest() =~= area@);
        assert(area@.skip(0) =~= area@);
    }
    let mut i: u64 = 0;
    while i < count
        invariant
            i <= count,
            m.wf(),
            m.bytes@ == area@,
            entry_area(bytes@) == Some((area@, count)),
            read_methods(area@, i as nat) matches Some((ms, n)) && n == m.pos,
        decreases count - i,
    {
        if m.next().is_none() {
            proof {
                lemma_read_methods_fail(area@, (i + 1) as nat, count as nat);
            }
            return None;
        }
        i = i + 1;
    }
    if m.pos != area.len() {
        return None;
    }
    proof {
        lemma_parsed_scan(bytes@);
    }
    Some(Descriptor { proto, bytes: area })
}

} // verus!
