//! Fixed-width integers as byte strings.

use vstd::prelude::*;

verus! {

/// `256` to the power `n`: the number of values that `n` bytes can hold.
pub open spec fn pow256(n: nat) -> nat
    decreases n,
{
    if n == 0 {
        1
    } else {
        256 * pow256((n - 1) as nat)
    }
}

/// The `n` lowest bytes of `v`, least significant first.
pub open spec fn le(v: nat, n: nat) -> Seq<u8>
    decreases n,
{
    if n == 0 {
        Seq::empty()
    } else {
        seq![(v % 256) as u8] + le(v / 256, (n - 1) as nat)
    }
}

/// The number whose bytes are `b`, least significant first.
pub open spec fn from_le(b: Seq<u8>) -> nat
    decreases b.len(),
{
    if b.len() == 0 {
        0
    } else {
        b[0] as nat + 256 * from_le(b.skip(1))
    }
}

/// The number whose bytes are `b`, most significant first.
pub open spec fn from_be(b: Seq<u8>) -> nat
    decreases b.len(),
{
    if b.len() == 0 {
        0
    } else {
        256 * from_be(b.drop_last()) + b.last() as nat
    }
}

/// `le(v, n)` has `n` bytes.
pub broadcast proof fn lemma_le_len(v: nat, n: nat)
    ensures
        #[trigger] le(v, n).len() == n,
    decreases n,
{
    if n > 0 {
        lemma_le_len(v / 256, (n - 1) as nat);
    }
}

/// Reading the bytes of a number that fits gives the number back.
pub proof fn law_le_round_trip(v: nat, n: nat)
    requires
        v < pow256(n),
    ensures
        from_le(le(v, n)) == v,
    decreases n,
{
    if n > 0 {
        let m = (n - 1) as nat;
        assert(v / 256 < pow256(m)) by (nonlinear_arith)
            requires
                v < 256 * pow256(m),
        ;
        law_le_round_trip(v / 256, m);
        assert(le(v, n).skip(1) =~= le(v / 256, m));
        assert(le(v, n)[0] == (v % 256) as u8);
    }
}

/// The bytes of the number that a byte string denotes are that byte string.
pub proof fn law_from_le_round_trip(b: Seq<u8>)
    ensures
        le(from_le(b), b.len()) == b,
        from_le(b) < pow256(b.len()),
    decreases b.len(),
{
    if b.len() > 0 {
        law_from_le_round_trip(b.skip(1));
        let rest = from_le(b.skip(1));
        let v = from_le(b);
        assert(v == b[0] as nat + 256 * rest);
        assert(v % 256 == b[0] as nat && v / 256 == rest);
        assert(b =~= seq![b[0]] + b.skip(1));
    }
}

/// Every 64-bit number fits in eight bytes, every 32-bit number in four.
pub proof fn lemma_pow256_words()
    ensures
        pow256(1) == 0x100,
        pow256(2) == 0x1_0000,
        pow256(4) == 0x1_0000_0000,
        pow256(8) == 0x1_0000_0000_0000_0000,
{
    reveal_with_fuel(pow256, 9);
}

/// In eight bytes, byte number `i` weighs `256` to the power `i`.
pub proof fn law_weights_of_eight(v: u64)
    ensures
        ({
            let b = le(v as nat, 8);
            &&& b.len() == 8
            &&& from_le(b) == v
            &&& v == b[0] + 0x100 * b[1] + 0x1_0000 * b[2] + 0x100_0000 * b[3] + 0x1_0000_0000
                * b[4] + 0x100_0000_0000 * b[5] + 0x1_0000_0000_0000 * b[6] + 0x100_0000_0000_0000
                * b[7]
        }),
{
    let b = le(v as nat, 8);
    lemma_le_len(v as nat, 8);
    lemma_pow256_words();
    law_le_round_trip(v as nat, 8);
    reveal_with_fuel(from_le, 9);
    assert(b.skip(1).skip(1) =~= b.skip(2));
    assert(b.skip(2).skip(1) =~= b.skip(3));
    assert(b.skip(3).skip(1) =~= b.skip(4));
    assert(b.skip(4).skip(1) =~= b.skip(5));
    assert(b.skip(5).skip(1) =~= b.skip(6));
    assert(b.skip(6).skip(1) =~= b.skip(7));
    assert(b.skip(7).skip(1) =~= Seq::<u8>::empty());
}

/// In four bytes, byte number `i` weighs `256` to the power `i`.
pub proof fn law_weights_of_four(v: u32)
    ensures
        ({
            let b = le(v as nat, 4);
            &&& b.len() == 4
            &&& from_le(b) == v
            &&& v == b[0] + 0x100 * b[1] + 0x1_0000 * b[2] + 0x100_0000 * b[3]
        }),
{
    let b = le(v as nat, 4);
    lemma_le_len(v as nat, 4);
    lemma_pow256_words();
    law_le_round_trip(v as nat, 4);
    reveal_with_fuel(from_le, 5);
    assert(b.skip(1).skip(1) =~= b.skip(2));
    assert(b.skip(2).skip(1) =~= b.skip(3));
    assert(b.skip(3).skip(1) =~= Seq::<u8>::empty());
}

/// Appends the eight bytes of `v`, least significant first.
pub fn put_u64_le(out: &mut Vec<u8>, v: u64)
    ensures
        final(out)@ == old(out)@ + le(v as nat, 8),
{
    let ghost before = out@;
    let mut rest: u64 = v;
    let mut i: usize = 0;
    while i < 8
        invariant
            i <= 8,
            before + le(v as nat, 8) == out@ + le(rest as nat, (8 - i) as nat),
        decreases 8 - i,
    {
        let ghost prev = out@;
        let ghost n = (8 - i) as nat;
        let b: u8 = (rest % 256) as u8;
        proof {
            assert(le(rest as nat, n) == seq![b] + le(rest as nat / 256, (n - 1) as nat));
        }
        out.push(b);
        proof {
            assert(prev + (seq![b] + le(rest as nat / 256, (n - 1) as nat)) =~= out@ + le(
                rest as nat / 256,
                (n - 1) as nat,
            ));
        }
        rest = rest / 256;
        i = i + 1;
    }
    proof {
        assert(out@ + le(rest as nat, 0) =~= out@);
    }
}

/// Appends the four bytes of `v`, least significant first.
pub fn put_u32_le(out: &mut Vec<u8>, v: u32)
    ensures
        final(out)@ == old(out)@ + le(v as nat, 4),
{
    let b0: u8 = (v % 256) as u8;
    let b1: u8 = (v / 0x100 % 256) as u8;
    let b2: u8 = (v / 0x1_0000 % 256) as u8;
    let b3: u8 = (v / 0x100_0000 % 256) as u8;
    out.push(b0);
    out.push(b1);
    out.push(b2);
    out.push(b3);
    proof {
        reveal_with_fuel(le, 5);
        let n = v as nat;
        assert(n / 256 / 256 == n / 0x1_0000);
        assert(n / 256 / 256 / 256 == n / 0x100_0000);
        assert(out@ =~= old(out)@ + le(v as nat, 4));
    }
}

/// The 64-bit number in `b[at..at + 8]`, least significant byte first.
pub fn get_u64_le(b: &[u8], at: usize) -> (v: u64)
    requires
        at + 8 <= b@.len(),
    ensures
        v as nat == from_le(b@.subrange(at as int, at + 8)),
        b@.subrange(at as int, at + 8) == le(v as nat, 8),
{
    let ghost s = b@.subrange(at as int, at + 8);
    proof {
        law_from_le_round_trip(s);
        lemma_pow256_words();
    }
    let len: usize = b.len();
    let mut v: u64 = 0;
    let mut i: usize = 8;
    proof {
        assert(len == b@.len());
        assert(s.skip(8) =~= Seq::<u8>::empty());
        assert(from_le(s.skip(8)) == 0);
        reveal_with_fuel(pow256, 1);
    }
    while i > 0
        invariant
            i <= 8,
            at + 8 <= b@.len() <= usize::MAX,
            s == b@.subrange(at as int, at + 8),
            v as nat == from_le(s.skip(i as int)),
            v as nat <= pow256((8 - i) as nat) - 1,
            pow256(8) == 0x1_0000_0000_0000_0000,
        decreases i,
    {
        i = i - 1;
        proof {
            assert(s.skip(i as int).skip(1) =~= s.skip(i + 1));
            assert(s.skip(i as int)[0] == s[i as int]);
            law_from_le_round_trip(s.skip(i as int));
            lemma_pow256_mono((8 - i) as nat, 8);
        }
        v = v * 256 + b[at + i] as u64;
    }
    proof {
        assert(s.skip(0) =~= s);
    }
    v
}

/// `pow256` grows with its argument.
proof fn lemma_pow256_mono(m: nat, n: nat)
    requires
        m <= n,
    ensures
        pow256(m) <= pow256(n),
        pow256(m) >= 1,
    decreases n,
{
    if m < n {
        lemma_pow256_mono(m, (n - 1) as nat);
        assert(pow256((n - 1) as nat) <= 256 * pow256((n - 1) as nat)) by (nonlinear_arith)
            requires
                pow256((n - 1) as nat) >= 1,
        ;
    } else if n > 0 {
        lemma_pow256_mono((n - 1) as nat, (n - 1) as nat);
    }
}

/// The 32-bit number in `b[at..at + 4]`, least significant byte first.
pub fn get_u32_le(b: &[u8], at: usize) -> (v: u32)
    requires
        at + 4 <= b@.len(),
    ensures
        v as nat == from_le(b@.subrange(at as int, at + 4)),
        b@.subrange(at as int, at + 4) == le(v as nat, 4),
{
    let v: u32 = b[at] as u32 + 0x100 * (b[at + 1] as u32) + 0x1_0000 * (b[at + 2] as u32)
        + 0x100_0000 * (b[at + 3] as u32);
    proof {
        let s = b@.subrange(at as int, at + 4);
        law_from_le_round_trip(s);
        reveal_with_fuel(from_le, 5);
        assert(s.skip(1).skip(1) =~= s.skip(2));
        assert(s.skip(2).skip(1) =~= s.skip(3));
        assert(s.skip(3).skip(1) =~= Seq::<u8>::empty());
    }
    v
}

} // verus!
