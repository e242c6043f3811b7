//! Values and tables of methods as bytes.

use crate::apps::intercom::RtAsyncRpc;
use crate::apps::intercom_app::EchoService;
use crate::descriptor::{
    encode, encoded_len, entries_bytes, entry_bytes, parse, table_bytes, table_of, Descriptor,
    Method, MethodDesc, Methods,
};
use crate::server::{empty_descriptor, RpcHandler};
use crate::varint::{put_varint, take_varint, taken, unvarint, varint, varint_len};
use crate::wire::{PingReply, Wire};
use vstd::prelude::*;
use vstd::string::*;

verus! {

/// The number that groups of seven bits stand for, low group first.
pub open spec fn weighed(b: Seq<u8>) -> int
    decreases b.len(),
{
    if b.len() == 0 {
        0
    } else {
        b[0] % 128 + 128 * weighed(b.skip(1))
    }
}

/// The bytes `b` are `v` in groups of seven bits: every byte but the last has its high
/// bit set, and there is no group too many.
pub open spec fn grouped(b: Seq<u8>, v: int) -> bool {
    &&& b.len() > 0
    &&& weighed(b) == v
    &&& b.last() < 128
    &&& forall|i: int| 0 <= i < b.len() - 1 ==> #[trigger] b[i] >= 128
    &&& b.len() > 1 ==> b.last() != 0
}

proof fn lemma_grouped(v: nat)
    ensures
        grouped(varint(v), v as int),
        v > 0 ==> varint(v).last() != 0,
    decreases v,
{
    let b = varint(v);
    if v < 128 {
        assert(b.skip(1).len() == 0);
        assert(weighed(b.skip(1)) == 0);
    } else {
        lemma_grouped(v / 128);
        let t = varint(v / 128);
        assert(b.skip(1) =~= t);
        assert(b.last() == t.last());
        assert forall|i: int| 0 <= i < b.len() - 1 implies #[trigger] b[i] >= 128 by {
            if i > 0 {
                assert(b[i] == t[i - 1]);
            }
        }
    }
}

proof fn lemma_read(b: Seq<u8>, max: nat, last: nat)
    ensures
        unvarint(b, max, last) matches Some((v, n)) ==> {
            &&& 1 <= n <= max
            &&& n <= b.len()
            &&& weighed(b.take(n as int)) == v
            &&& b[n - 1] < 128
            &&& forall|i: int| 0 <= i < n - 1 ==> #[trigger] b[i] >= 128
        },
    decreases max,
{
    if max > 0 && b.len() > 0 {
        if b[0] < 128 {
            assert(b.take(1).skip(1).len() == 0);
            assert(weighed(b.take(1).skip(1)) == 0);
        } else {
            let t = b.skip(1);
            lemma_read(t, (max - 1) as nat, last);
            if let Some((v, n)) = unvarint(t, (max - 1) as nat, last) {
                assert(b.take(n + 1int).skip(1) =~= t.take(n as int));
                assert(b[n as int] == t[n - 1]);
                assert forall|i: int| 0 <= i < n implies #[trigger] b[i] >= 128 by {
                    if i > 0 {
                        assert(b[i] == t[i - 1]);
                    }
                }
            }
        }
    }
}

proof fn lemma_small(b: Seq<u8>, max: nat, last: nat)
    requires
        last < 128,
        max >= 1,
    ensures
        unvarint(b, max, last) matches Some((v, n)) ==> v < crate::varint::pow128(
            (max - 1) as nat,
        ) * (last + 1),
    decreases max,
{
    let p = crate::varint::pow128((max - 1) as nat);
    crate::varint::lemma_pow128_mono(0, (max - 1) as nat);
    if let Some((v, n)) = unvarint(b, max, last) {
        if b[0] >= 128 {
            lemma_small(b.skip(1), (max - 1) as nat, last);
            let (w, m) = unvarint(b.skip(1), (max - 1) as nat, last).unwrap();
            let q = crate::varint::pow128((max - 2) as nat);
            assert(p == 128 * q);
            assert(128 * w + 127 < p * (last + 1)) by (nonlinear_arith)
                requires
                    p == 128 * q,
                    w < q * (last + 1),
                    last >= 0,
            ;
        } else if max > 1 {
            let q = crate::varint::pow128((max - 2) as nat);
            crate::varint::lemma_pow128_mono(0, (max - 2) as nat);
            assert(p == 128 * q);
            assert(128 <= p * (last + 1)) by (nonlinear_arith)
                requires
                    p == 128 * q,
                    q >= 1,
                    last >= 0,
            ;
        } else {
            assert(p * (last + 1) == last + 1) by (nonlinear_arith)
                requires
                    p == 1,
            ;
        }
    }
}

proof fn lemma_readable(b: Seq<u8>, max: nat, n: nat)
    requires
        1 <= n <= max,
        n <= b.len(),
        b[n - 1] < 128,
        forall|i: int| 0 <= i < n - 1 ==> #[trigger] b[i] >= 128,
    ensures
        unvarint(b, max, 127) is Some,
    decreases n,
{
    if n > 1 {
        let t = b.skip(1);
        assert(b[0] >= 128);
        assert(t[n - 2] == b[n - 1]);
        assert forall|i: int| 0 <= i < n - 2 implies #[trigger] t[i] >= 128 by {
            assert(t[i] == b[i + 1]);
        }
        lemma_readable(t, (max - 1) as nat, (n - 1) as nat);
    }
}

/// A number is written in groups of seven bits, behind what is there, in as many bytes as
/// its length says.
pub proof fn law_number_is_grouped(out: &mut Vec<u8>, v: u64, n: usize)
    requires
        call_ensures(put_varint, (out, v), ()),
        call_ensures(varint_len, (v,), n),
    ensures
        final(out)@.len() == old(out)@.len() + n,
        final(out)@.take(old(out)@.len() as int) == old(out)@,
        grouped(final(out)@.skip(old(out)@.len() as int), v as int),
        1 <= n <= 10,
{
    lemma_grouped(v as nat);
    assert((old(out)@ + varint(v as nat)).skip(old(out)@.len() as int) =~= varint(v as nat));
    assert((old(out)@ + varint(v as nat)).take(old(out)@.len() as int) =~= old(out)@);
}

/// A number is read from its groups, up to the first byte without the high bit, which is
/// one of the first ten; 64 bits of it are kept.
pub proof fn law_groups_are_read(b: &[u8], pos: usize, r: Option<(u64, usize)>, n: nat)
    requires
        pos <= b@.len(),
        call_ensures(take_varint, (b, pos), r),
    ensures
        r is Some ==> ({
            let (v, end) = r->0;
            &&& pos < end <= b@.len()
            &&& end - pos <= 10
            &&& b@[end - 1] < 128
            &&& forall|i: int| pos <= i < end - 1 ==> #[trigger] b@[i] >= 128
            &&& v == weighed(b@.subrange(pos as int, end as int)) % 0x1_0000_0000_0000_0000
        }),
        1 <= n <= 10 && pos + n <= b@.len() && b@[pos + n - 1] < 128 && (forall|i: int|
            pos <= i < pos + n - 1 ==> #[trigger] b@[i] >= 128) ==> r is Some,
{
    let s = b@.skip(pos as int);
    lemma_read(s, 10, 127);
    assert(b.len() == b@.len());
    if r is Some {
        let end = (r->0).1;
        assert(s.take(end - pos) =~= b@.subrange(pos as int, end as int));
        assert forall|i: int| pos <= i < end - 1 implies #[trigger] b@[i] >= 128 by {
            assert(s[i - pos] >= 128);
        }
    }
    if 1 <= n <= 10 && pos + n <= b@.len() && b@[pos + n - 1] < 128 && (forall|i: int|
        pos <= i < pos + n - 1 ==> #[trigger] b@[i] >= 128) {
        assert forall|i: int| 0 <= i < n - 1 implies #[trigger] s[i] >= 128 by {
            assert(b@[i + pos] >= 128);
        }
        lemma_readable(s, 10, n);
    }
}

/// The unsigned number that stands for a signed one: twice as much where it is not
/// negative, and one less than twice its magnitude where it is.
pub open spec fn folded_sign(v: int) -> int {
    if v < 0 {
        -2 * v - 1
    } else {
        2 * v
    }
}

/// How values travel: a byte as it is, a truth value as 0 or 1, wider numbers in groups of
/// seven bits, signed ones with the sign folded in, nothing as nothing.
pub proof fn law_values_as_bytes(a: u8, b: bool, c: u16, d: i16, e: u32, f: i32, g: u64)
    ensures
        <u8 as Wire>::wire(a) == seq![a],
        <bool as Wire>::wire(true) == seq![1u8],
        <bool as Wire>::wire(false) == seq![0u8],
        grouped(<u16 as Wire>::wire(c), c as int),
        grouped(<i16 as Wire>::wire(d), folded_sign(d as int)),
        grouped(<u32 as Wire>::wire(e), e as int),
        grouped(<i32 as Wire>::wire(f), folded_sign(f as int)),
        grouped(<u64 as Wire>::wire(g), g as int),
        <() as Wire>::wire(()).len() == 0,
{
    lemma_grouped(c as nat);
    lemma_grouped(crate::wire::zigzag(d as int));
    lemma_grouped(e as nat);
    lemma_grouped(crate::wire::zigzag(f as int));
    lemma_grouped(g as nat);
}

/// Byte strings travel behind their length, and the members of a tuple one after the
/// other, in their order.
pub proof fn law_compounds_as_bytes<A: Wire, B: Wire, C: Wire>(
    s: Seq<u8>,
    a: A::V,
    b: B::V,
    c: C::V,
    p: PingReply,
)
    ensures
        ({
            let w = <Vec<u8> as Wire>::wire(s);
            let n = w.len() - s.len();
            &&& n > 0
            &&& grouped(w.take(n), s.len() as int)
            &&& w.skip(n) == s
        }),
        <(A,) as Wire>::wire((a,)) == A::wire(a),
        <(A, B) as Wire>::wire((a, b)) == A::wire(a) + B::wire(b),
        <(A, B, C) as Wire>::wire((a, b, c)) == A::wire(a) + B::wire(b) + C::wire(c),
        <PingReply as Wire>::wire(p) == <u64 as Wire>::wire(p.0) + <u8 as Wire>::wire(p.1)
            + <u64 as Wire>::wire(p.2) + <u64 as Wire>::wire(p.3) + <u64 as Wire>::wire(p.4)
            + <u64 as Wire>::wire(p.5) + <u64 as Wire>::wire(p.6) + <u64 as Wire>::wire(p.7)
            + <u64 as Wire>::wire(p.8) + <u64 as Wire>::wire(p.9),
{
    lemma_grouped(s.len());
    let w = <Vec<u8> as Wire>::wire(s);
    let n = w.len() - s.len();
    assert(w.take(n) =~= varint(s.len()));
    assert(w.skip(n) =~= s);
    assert(A::wire(a) + (B::wire(b) + C::wire(c)) =~= A::wire(a) + B::wire(b) + C::wire(c));
    let x = crate::wire::nested10(p);
    assert(<PingReply as Wire>::wire(p) =~= <u64 as Wire>::wire(p.0) + <u8 as Wire>::wire(p.1)
        + <u64 as Wire>::wire(p.2) + <u64 as Wire>::wire(p.3) + <u64 as Wire>::wire(p.4)
        + <u64 as Wire>::wire(p.5) + <u64 as Wire>::wire(p.6) + <u64 as Wire>::wire(p.7)
        + <u64 as Wire>::wire(p.8) + <u64 as Wire>::wire(p.9));
}

/// What is read as a number or a truth value stands there: the groups that were read weigh
/// the number, and a truth value is 0 or 1.
pub proof fn law_bytes_as_values(b: Seq<u8>)
    ensures
        <u8 as Wire>::unwire(b) is Some <==> b.len() > 0,
        <u8 as Wire>::unwire(b) matches Some((v, n)) ==> v == b[0] && n == 1,
        <bool as Wire>::unwire(b) is Some <==> b.len() > 0 && (b[0] == 0 || b[0] == 1),
        <bool as Wire>::unwire(b) matches Some((v, n)) ==> v == (b[0] == 1) && n == 1,
        <u16 as Wire>::unwire(b) matches Some((v, n)) ==> 1 <= n <= 3 && n <= b.len() && v
            == weighed(b.take(n as int)),
        <i16 as Wire>::unwire(b) matches Some((v, n)) ==> 1 <= n <= 3 && n <= b.len()
            && folded_sign(v as int) == weighed(b.take(n as int)),
        <u32 as Wire>::unwire(b) matches Some((v, n)) ==> 1 <= n <= 5 && n <= b.len() && v
            == weighed(b.take(n as int)),
        <i32 as Wire>::unwire(b) matches Some((v, n)) ==> 1 <= n <= 5 && n <= b.len()
            && folded_sign(v as int) == weighed(b.take(n as int)),
        <u64 as Wire>::unwire(b) matches Some((v, n)) ==> 1 <= n <= 10 && n <= b.len() && v
            == weighed(b.take(n as int)),
{
    lemma_read(b, 3, 3);
    lemma_read(b, 5, 15);
    lemma_read(b, 10, 1);
    crate::varint::lemma_pow128_words();
    lemma_small(b, 3, 3);
    lemma_small(b, 5, 15);
    lemma_small(b, 10, 1);
    assert(0x4000nat * 4 == 0x1_0000);
    assert(0x1000_0000nat * 16 == 0x1_0000_0000);
    assert(0x8000_0000_0000_0000nat * 2 == 0x1_0000_0000_0000_0000nat);
}

/// The bytes `e` are the entry of a method: its number, its flags, the length of its name,
/// and its name.
pub open spec fn is_entry(e: Seq<u8>, mid: u64, flags: u8, name: Seq<u8>) -> bool {
    exists|a: Seq<u8>, l: Seq<u8>|
        grouped(a, mid as int) && grouped(l, name.len() as int) && e == #[trigger] (a + seq![flags]
            + l + name)
}

/// The bytes `b` are the first `n` entries, one after the other.
pub open spec fn is_list(
    b: Seq<u8>,
    mids: Seq<u64>,
    flags: Seq<u8>,
    names: Seq<&str>,
    n: nat,
) -> bool
    decreases n,
{
    if n == 0 {
        b.len() == 0
    } else {
        exists|front: Seq<u8>, e: Seq<u8>|
            b == #[trigger] (front + e) && is_list(front, mids, flags, names, (n - 1) as nat)
                && is_entry(e, mids[n - 1], flags[n - 1], names[n - 1].spec_bytes())
    }
}

/// The bytes `b` are a table: the version 1, the length of what follows it, the number of
/// methods, and their entries.
pub open spec fn is_table(b: Seq<u8>, mids: Seq<u64>, flags: Seq<u8>, names: Seq<&str>) -> bool {
    exists|l: Seq<u8>, c: Seq<u8>, list: Seq<u8>|
        {
            &&& b == #[trigger] (seq![1u8] + l + c + list)
            &&& grouped(l, (c + list).len() as int)
            &&& grouped(c, mids.len() as int)
            &&& is_list(list, mids, flags, names, mids.len())
        }
}

proof fn lemma_list(mids: Seq<u64>, flags: Seq<u8>, names: Seq<&str>, n: nat)
    requires
        n <= mids.len(),
    ensures
        is_list(
            entries_bytes(table_of(mids, flags, names).take(n as int)),
            mids,
            flags,
            names,
            n,
        ),
    decreases n,
{
    let ms = table_of(mids, flags, names);
    if n > 0 {
        let k = (n - 1) as nat;
        lemma_list(mids, flags, names, k);
        assert(ms.take(n as int).drop_last() =~= ms.take(k as int));
        let m = ms[n - 1];
        assert(ms.take(n as int).last() == m);
        let front = entries_bytes(ms.take(k as int));
        let e = entry_bytes(m);
        lemma_grouped(m.mid as nat);
        lemma_grouped(m.name.len());
        assert(e =~= varint(m.mid as nat) + seq![m.flags] + varint(m.name.len()) + m.name);
        assert(is_entry(e, mids[n - 1], flags[n - 1], names[n - 1].spec_bytes()));
        assert(entries_bytes(ms.take(n as int)) == front + e);
    }
}

/// A table of methods is written with its columns, in their order, and takes as many bytes
/// as its length says.
pub proof fn law_table_is_written(
    mids: &[u64],
    flags: &[u8],
    names: &[&str],
    out: Vec<u8>,
    n: usize,
)
    requires
        flags@.len() >= mids@.len(),
        names@.len() >= mids@.len(),
        table_bytes(table_of(mids@, flags@, names@)).len() <= usize::MAX,
        call_ensures(encode, (mids, flags, names), out),
        call_ensures(encoded_len, (mids, flags, names), n),
    ensures
        is_table(out@, mids@, flags@, names@),
        n == out@.len(),
{
    let ms = table_of(mids@, flags@, names@);
    lemma_list(mids@, flags@, names@, mids@.len());
    assert(ms.take(mids@.len() as int) =~= ms);
    let list = entries_bytes(ms);
    let c = varint(mids@.len());
    let l = varint((c + list).len());
    lemma_grouped(mids@.len());
    lemma_grouped((c + list).len());
    assert(out@ =~= seq![1u8] + l + c + list);
}

/// A table that was written is found again with its columns, whatever follows it; one that
/// was cut off within its body is not read.
pub proof fn law_table_is_read(
    mids: &[u64],
    flags: &[u8],
    names: &[&str],
    out: Vec<u8>,
    bytes: &[u8],
    rest: Seq<u8>,
    d: Option<Descriptor<'_>>,
    it: Methods<'_>,
    found: Vec<MethodDesc<'_>>,
    n: usize,
    proto: u8,
    cut: &[u8],
    k: int,
    none: Option<Descriptor<'_>>,
)
    requires
        flags@.len() >= mids@.len(),
        names@.len() >= mids@.len(),
        table_bytes(table_of(mids@, flags@, names@)).len() <= usize::MAX,
        call_ensures(encode, (mids, flags, names), out),
        bytes@ == out@ + rest,
        call_ensures(parse, (bytes,), d),
        d is Some ==> call_ensures(Descriptor::methods, (&d->0,), it) && call_ensures(
            Descriptor::method_count,
            (&d->0,),
            n,
        ) && call_ensures(Descriptor::proto, (&d->0,), proto),
        call_ensures(Methods::collect, (it,), found),
        11 <= k < out@.len(),
        cut@ == out@.take(k),
        call_ensures(parse, (cut,), none),
    ensures
        d is Some,
        proto == 1,
        n == mids@.len(),
        found@.len() == mids@.len(),
        forall|i: int|
            0 <= i < mids@.len() ==> (#[trigger] found@[i]).mid == mids@[i] && found@[i].flags
                == flags@[i] && found@[i].name.spec_bytes() == names@[i].spec_bytes(),
        none is None,
{
    let ms = table_of(mids@, flags@, names@);
    crate::descriptor::law_encode_parse(mids@, flags@, names@, rest);
    assert forall|i: int| 0 <= i < mids@.len() implies (#[trigger] found@[i]).mid == mids@[i]
        && found@[i].flags == flags@[i] && found@[i].name.spec_bytes()
        == names@[i].spec_bytes() by {
        assert(found@[i]@ == ms[i]);
    }
    let body = crate::descriptor::body_bytes(ms);
    let head = varint(body.len());
    crate::varint::lemma_pow128_words();
    crate::varint::lemma_varint_len(body.len(), 10);
    let t = cut@.skip(1);
    assert(t =~= head + t.skip(head.len() as int));
    crate::varint::law_taken_round_trip(body.len() as u64, t.skip(head.len() as int));
}

/// What is read as a table starts with the version 1.
pub proof fn law_other_versions_are_refused(bytes: &[u8], d: Option<Descriptor<'_>>)
    requires
        call_ensures(parse, (bytes,), d),
    ensures
        d is Some ==> bytes@.len() > 0 && bytes@[0] == 1,
{
}

/// How a method is called: the flags 1, 2 and 4 stand for no answer, for the urgent
/// channel and for a later answer, and the last of them that is set gives the name.
pub proof fn law_flags_of_a_method(
    m: &MethodDesc<'_>,
    one_way: bool,
    urgent: bool,
    deferred: bool,
    name: &'static str,
)
    requires
        call_ensures(MethodDesc::is_one_way, (m,), one_way),
        call_ensures(MethodDesc::is_urgent, (m,), urgent),
        call_ensures(MethodDesc::is_deferred, (m,), deferred),
        call_ensures(MethodDesc::kind_name, (m,), name),
    ensures
        m.flags % 8 == (if one_way {
            1int
        } else {
            0int
        }) + (if urgent {
            2int
        } else {
            0int
        }) + (if deferred {
            4int
        } else {
            0int
        }),
        deferred ==> name@ == "acall"@,
        !deferred && urgent ==> name@ == "urgent"@,
        !deferred && !urgent && one_way ==> name@ == "send"@,
        !deferred && !urgent && !one_way ==> name@ == "call"@,
{
}

/// A service without methods says so: version 1, a body of one byte, and no method.
pub proof fn law_empty_table(r: Vec<u8>)
    requires
        call_ensures(empty_descriptor, (), r),
    ensures
        r@ == seq![1u8, 1u8, 0u8],
{
}

proof fn lemma_table_parses(mids: Seq<u64>, flags: Seq<u8>, names: Seq<&str>)
    requires
        table_bytes(table_of(mids, flags, names)).len() <= u64::MAX,
    ensures
        crate::descriptor::parsed(table_bytes(table_of(mids, flags, names))) == Some(
            table_of(mids, flags, names),
        ),
{
    let b = table_bytes(table_of(mids, flags, names));
    crate::descriptor::law_encode_parse(mids, flags, names, Seq::empty());
    assert(b + Seq::<u8>::empty() =~= b);
}

/// The methods that were found have the numbers from 0 on and these names; methods 2 and 6
/// give no answer.
pub open spec fn lists(found: Seq<MethodDesc<'_>>, names: Seq<&str>) -> bool {
    &&& found.len() == names.len()
    &&& forall|i: int|
        0 <= i < found.len() ==> {
            &&& (#[trigger] found[i]).mid == i
            &&& found[i].flags == (if i == 2 || i == 6 {
                1int
            } else {
                0int
            })
            &&& found[i].name.spec_bytes() == names[i].spec_bytes()
        }
}

proof fn lemma_service_table(
    mids: Seq<u64>,
    flags: Seq<u8>,
    names: Seq<&str>,
    bytes: &[u8],
    d: Option<Descriptor<'_>>,
    it: Methods<'_>,
    found: Vec<MethodDesc<'_>>,
)
    requires
        mids.len() == names.len(),
        forall|i: int| 0 <= i < mids.len() ==> #[trigger] mids[i] == i,
        forall|i: int|
            0 <= i < mids.len() ==> #[trigger] flags[i] == (if i == 2 || i == 6 {
                1int
            } else {
                0int
            }),
        table_bytes(table_of(mids, flags, names)).len() <= u64::MAX,
        bytes@ == table_bytes(table_of(mids, flags, names)),
        call_ensures(parse, (bytes,), d),
        d is Some ==> call_ensures(Descriptor::methods, (&d->0,), it),
        call_ensures(Methods::collect, (it,), found),
    ensures
        d is Some,
        lists(found@, names),
{
    let ms = table_of(mids, flags, names);
    lemma_table_parses(mids, flags, names);
    assert forall|i: int| 0 <= i < found@.len() implies {
        &&& (#[trigger] found@[i]).mid == i
        &&& found@[i].flags == (if i == 2 || i == 6 {
            1int
        } else {
            0int
        })
        &&& found@[i].name.spec_bytes() == names[i].spec_bytes()
    } by {
        assert(found@[i]@ == ms[i]);
        assert(mids[i] == i);
        assert(flags[i] == flags[i]);
    }
}

/// The methods of the service without the measuring probes.
pub proof fn law_methods_of_the_service(
    h: &RtAsyncRpc,
    r: Vec<u8>,
    bytes: &[u8],
    d: Option<Descriptor<'_>>,
    it: Methods<'_>,
    found: Vec<MethodDesc<'_>>,
)
    requires
        !h.stats.probes(),
        call_ensures(<RtAsyncRpc as RpcHandler>::descriptor, (h,), r),
        bytes@ == r@,
        call_ensures(parse, (bytes,), d),
        d is Some ==> call_ensures(Descriptor::methods, (&d->0,), it),
        call_ensures(Methods::collect, (it,), found),
    ensures
        d is Some,
        lists(found@, seq!["ECHO", "ADD", "DELAY", "PING", "STATS"]),
{
    crate::apps::intercom::lemma_tables_short();
    lemma_service_table(
        seq![0u64, 1, 2, 3, 4],
        seq![0u8, 0, 1, 0, 0],
        seq!["ECHO", "ADD", "DELAY", "PING", "STATS"],
        bytes,
        d,
        it,
        found,
    );
}

/// The methods of the service with the measuring probes.
pub proof fn law_methods_with_the_probes(
    h: &RtAsyncRpc,
    r: Vec<u8>,
    bytes: &[u8],
    d: Option<Descriptor<'_>>,
    it: Methods<'_>,
    found: Vec<MethodDesc<'_>>,
)
    requires
        h.stats.probes(),
        call_ensures(<RtAsyncRpc as RpcHandler>::descriptor, (h,), r),
        bytes@ == r@,
        call_ensures(parse, (bytes,), d),
        d is Some ==> call_ensures(Descriptor::methods, (&d->0,), it),
        call_ensures(Methods::collect, (it,), found),
    ensures
        d is Some,
        lists(found@, seq!["ECHO", "ADD", "DELAY", "PING", "STATS", "MEMBENCH", "LITMUS"]),
{
    crate::apps::intercom::lemma_tables_short();
    lemma_service_table(
        seq![0u64, 1, 2, 3, 4, 5, 6],
        seq![0u8, 0, 1, 0, 0, 0, 1],
        seq!["ECHO", "ADD", "DELAY", "PING", "STATS", "MEMBENCH", "LITMUS"],
        bytes,
        d,
        it,
        found,
    );
}

/// The methods of the service on the virtual board.
pub proof fn law_methods_on_the_virtual_board(
    h: &EchoService,
    r: Vec<u8>,
    bytes: &[u8],
    d: Option<Descriptor<'_>>,
    it: Methods<'_>,
    found: Vec<MethodDesc<'_>>,
)
    requires
        call_ensures(<EchoService as RpcHandler>::descriptor, (h,), r),
        bytes@ == r@,
        call_ensures(parse, (bytes,), d),
        d is Some ==> call_ensures(Descriptor::methods, (&d->0,), it),
        call_ensures(Methods::collect, (it,), found),
    ensures
        d is Some,
        lists(found@, seq!["ECHO", "ADD", "DELAY"]),
{
    reveal_strlit("ECHO");
    reveal_strlit("ADD");
    reveal_strlit("DELAY");
    crate::apps::intercom::lemma_ascii_len("ECHO", 4);
    crate::apps::intercom::lemma_ascii_len("ADD", 3);
    crate::apps::intercom::lemma_ascii_len("DELAY", 5);
    crate::descriptor::lemma_table_len(crate::apps::intercom_app::table(), 8);
    lemma_service_table(
        seq![0u64, 1, 2],
        seq![0u8, 0, 1],
        seq!["ECHO", "ADD", "DELAY"],
        bytes,
        d,
        it,
        found,
    );
}

} // verus!
