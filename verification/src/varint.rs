//! Variable-length integers: seven bits per byte, low group first, the high
//! bit set on every byte but the last.

use vstd::prelude::*;

verus! {

/// The varint of `v`.
pub open spec fn varint(v: nat) -> Seq<u8>
    decreases v,
{
    if v < 128 {
        seq![v as u8]
    } else {
        seq![(v % 128 + 128) as u8] + varint(v / 128)
    }
}

/// `128` to the power `n`.
pub open spec fn pow128(n: nat) -> nat
    decreases n,
{
    if n == 0 {
        1
    } else {
        128 * pow128((n - 1) as nat)
    }
}

/// The varint at the start of `b` and the number of bytes it takes.
///
/// At most `max` bytes are read. There is none when the bytes end first, when
/// byte number `max` still has the high bit set, or when byte number `max`
/// exceeds `last`.
pub open spec fn unvarint(b: Seq<u8>, max: nat, last: nat) -> Option<(nat, nat)>
    decreases max,
{
    if max == 0 || b.len() == 0 {
        None
    } else if b[0] < 128 {
        if max == 1 && b[0] > last {
            None
        } else {
            Some((b[0] as nat, 1))
        }
    } else {
        match unvarint(b.skip(1), (max - 1) as nat, last) {
            Some((v, n)) => Some(((b[0] - 128) as nat + 128 * v, n + 1)),
            None => None,
        }
    }
}

/// What [`take_varint`] reads at the start of `b`: a varint of at most ten
/// bytes, of whose value the 64 low bits are kept.
pub open spec fn taken(b: Seq<u8>) -> Option<(u64, nat)> {
    match unvarint(b, 10, 127) {
        Some((v, n)) => Some(((v % 0x1_0000_0000_0000_0000) as u64, n)),
        None => None,
    }
}

/// Values of the powers of 128 that the word sizes need.
pub proof fn lemma_pow128_words()
    ensures
        pow128(0) == 1,
        pow128(2) == 0x4000,
        pow128(4) == 0x1000_0000,
        pow128(8) == 0x100_0000_0000_0000,
        pow128(9) == 0x8000_0000_0000_0000,
        pow128(10) == 0x40_0000_0000_0000_0000,
{
    reveal_with_fuel(pow128, 11);
}

/// `pow128` grows with its argument.
pub proof fn lemma_pow128_mono(m: nat, n: nat)
    requires
        m <= n,
    ensures
        1 <= pow128(m) <= pow128(n),
    decreases n,
{
    if m < n {
        lemma_pow128_mono(m, (n - 1) as nat);
    } else if n > 0 {
        lemma_pow128_mono((n - 1) as nat, (n - 1) as nat);
    }
}

/// Reading a varint gives back the number written and its length, whatever
/// follows, for every number within the reader's limits.
pub proof fn law_varint_round_trip(v: nat, max: nat, last: nat, rest: Seq<u8>)
    requires
        max >= 1,
        last < 128,
        v < pow128((max - 1) as nat) * (last + 1),
    ensures
        unvarint(varint(v) + rest, max, last) == Some((v, varint(v).len())),
    decreases v,
{
    let s = varint(v) + rest;
    if v < 128 {
        assert(s[0] == v as u8);
        assert(max == 1 ==> v <= last) by {
            assert(pow128(0) == 1);
            assert(1 * (last + 1) == last + 1);
        }
    } else {
        let m = (max - 1) as nat;
        assert(m > 0) by {
            assert(pow128(0) == 1);
            assert(1 * (last + 1) == last + 1);
        }
        let p = pow128((m - 1) as nat);
        assert(pow128(m) == 128 * p);
        assert(v / 128 < p * (last + 1)) by (nonlinear_arith)
            requires
                v < (128 * p) * (last + 1),
        ;
        law_varint_round_trip(v / 128, m, last, rest);
        assert(s.skip(1) =~= varint(v / 128) + rest);
        assert(s[0] == (v % 128 + 128) as u8);
    }
}

/// Every 64-bit number reads back from its varint.
pub proof fn law_taken_round_trip(v: u64, rest: Seq<u8>)
    ensures
        taken(varint(v as nat) + rest) == Some((v, varint(v as nat).len())),
{
    lemma_pow128_words();
    assert(0x8000_0000_0000_0000nat * 128 == 0x40_0000_0000_0000_0000nat);
    law_varint_round_trip(v as nat, 10, 127, rest);
}

/// A varint that was read lies within the bytes.
pub proof fn lemma_unvarint_bounds(b: Seq<u8>, max: nat, last: nat)
    ensures
        unvarint(b, max, last) matches Some((v, n)) ==> 1 <= n <= b.len() && n <= max && v < pow128(
            n,
        ),
    decreases max,
{
    if max > 0 && b.len() > 0 && b[0] >= 128 {
        lemma_unvarint_bounds(b.skip(1), (max - 1) as nat, last);
    }
    if let Some((v, n)) = unvarint(b, max, last) {
        reveal_with_fuel(pow128, 2);
        if b[0] >= 128 {
            let (w, m) = unvarint(b.skip(1), (max - 1) as nat, last).unwrap();
            assert(m + 1 == n);
            assert(pow128(n) == 128 * pow128(m));
        }
    }
}

/// A varint has at least one byte; that of a 64-bit number at most ten.
pub proof fn lemma_varint_len(v: nat, n: nat)
    requires
        n >= 1,
        v < pow128(n),
    ensures
        1 <= varint(v).len() <= n,
    decreases n,
{
    reveal_with_fuel(pow128, 2);
    if v >= 128 {
        lemma_varint_len(v / 128, (n - 1) as nat);
    }
}

/// The number of bytes of the varint of `v`.
pub fn varint_len(v: u64) -> (n: usize)
    ensures
        n == varint(v as nat).len(),
        1 <= n <= 10,
{
    proof {
        lemma_pow128_words();
        lemma_varint_len(v as nat, 10);
    }
    let mut rest: u64 = v;
    let mut n: usize = 1;
    while rest >= 128
        invariant
            n >= 1,
            varint(v as nat).len() == varint(rest as nat).len() + n - 1,
            varint(v as nat).len() <= 10,
            forall|x: nat| #![trigger varint(x)] varint(x).len() >= 1,
        decreases rest,
    {
        proof {
            assert(varint(rest as nat) == seq![(rest % 128 + 128) as u8] + varint(
                rest as nat / 128,
            ));
            assert(varint(rest as nat / 128).len() >= 1);
        }
        rest = rest / 128;
        n = n + 1;
    }
    n
}

/// Appends the varint of `v`.
pub fn put_varint(out: &mut Vec<u8>, v: u64)
    ensures
        final(out)@ == old(out)@ + varint(v as nat),
{
    let ghost before = out@;
    let mut rest: u64 = v;
    while rest >= 128
        invariant
            before + varint(v as nat) == out@ + varint(rest as nat),
        decreases rest,
    {
        let ghost prev = out@;
        let b: u8 = (rest % 128 + 128) as u8;
        out.push(b);
        proof {
            let tail = varint(rest as nat / 128);
            assert(varint(rest as nat) == seq![b] + tail);
            assert(prev + (seq![b] + tail) =~= out@ + tail);
        }
        rest = rest / 128;
    }
    let ghost prev = out@;
    out.push(rest as u8);
    proof {
        assert(prev + varint(rest as nat) =~= out@);
    }
}

/// Reads the varint that starts at `bytes[pos]`: its 64 low bits and the
/// position after it. `None` when the bytes end inside it or when it has more
/// than ten bytes.
pub fn take_varint(bytes: &[u8], pos: usize) -> (r: Option<(u64, usize)>)
    requires
        pos <= bytes@.len(),
    ensures
        match taken(bytes@.skip(pos as int)) {
            Some((v, n)) => r == Some((v, (pos + n) as usize)) && pos + n <= bytes@.len(),
            None => r is None,
        },
{
    let ghost s = bytes@.skip(pos as int);
    let len: usize = bytes.len();
    let mut acc: u64 = 0;
    let mut unit: u64 = 1;
    let mut i: usize = 0;
    proof {
        assert(s.skip(0) =~= s);
        lemma_pow128_words();
        lemma_unvarint_bounds(s, 10, 127);
    }
    while i < 10
        invariant
            i <= 10,
            len == bytes@.len(),
            pos + i <= len,
            s == bytes@.skip(pos as int),
            i < 10 ==> unit == pow128(i as nat),
            i < 10 ==> acc < unit,
            i == 10 ==> unvarint(s, 10, 127) is None,
            i < 10 ==> unvarint(s, 10, 127) == (match unvarint(
                s.skip(i as int),
                (10 - i) as nat,
                127,
            ) {
                Some((v, n)) => Some((acc as nat + unit as nat * v, n + i as nat)),
                None => None,
            }),
            pow128(8) == 0x100_0000_0000_0000,
            pow128(9) == 0x8000_0000_0000_0000,
            unvarint(s, 10, 127) matches Some((v, n)) ==> n <= s.len(),
        decreases 10 - i,
    {
        let ghost t = s.skip(i as int);
        if pos + i >= len {
            return None;
        }
        let b: u8 = bytes[pos + i];
        proof {
            assert(t[0] == b);
            assert(t.skip(1) =~= s.skip(i + 1));
            lemma_pow128_mono(i as nat, 9);
        }
        let low: u64 = (b % 128) as u64;
        if b < 128 {
            if i == 9 {
                let bit: u64 = low % 2;
                let ghost whole = acc as nat + unit as nat * (b as nat);
                proof {
                    let k = low as nat / 2;
                    assert(low as nat == 2 * k + bit as nat);
                    assert(0x8000_0000_0000_0000 * low == 0x1_0000_0000_0000_0000 * k
                        + 0x8000_0000_0000_0000 * bit) by (nonlinear_arith)
                        requires
                            low as nat == 2 * k + bit as nat,
                    ;
                    assert(whole == acc + 0x8000_0000_0000_0000 * bit + 0x1_0000_0000_0000_0000
                        * k);
                }
                return Some((acc + 0x8000_0000_0000_0000 * bit, pos + i + 1));
            }
            proof {
                lemma_pow128_mono((i + 1) as nat, 9);
                assert(pow128((i + 1) as nat) == 128 * unit);
                assert(unit * low <= unit * 127) by (nonlinear_arith)
                    requires
                        low <= 127,
                ;
                let w = acc as nat + unit as nat * (b as nat);
                assert(w < 0x8000_0000_0000_0000);
            }
            return Some((acc + unit * low, pos + i + 1));
        }
        proof {
            let u = unit as nat;
            let rest = unvarint(t.skip(1), (9 - i) as nat, 127);
            if let Some((v, n)) = rest {
                assert(u * (low as nat + 128 * v) == u * (low as nat) + (128 * u) * v)
                    by (nonlinear_arith);
            }
            if i < 9 {
                lemma_pow128_mono((i + 1) as nat, 9);
                assert(pow128((i + 1) as nat) == 128 * u);
            }
            assert(unit * low <= unit * 127) by (nonlinear_arith)
                requires
                    low <= 127,
            ;
        }
        if i < 9 {
            acc = acc + unit * low;
            unit = unit * 128;
        }
        i = i + 1;
    }
    None
}

} // verus!
