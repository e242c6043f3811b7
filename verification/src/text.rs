//! Decimal numbers and words of a text, which is UTF-8.

use vstd::prelude::*;
use vstd::string::*;
use vstd::utf8::{
    codepoint_width_2, codepoint_width_3, decode_first_scalar, is_leading_byte_width_1,
    is_leading_byte_width_2, is_leading_byte_width_3, length_of_first_scalar, valid_first_scalar,
};

verus! {

/// The decimal digits of a number.
pub open spec fn digits(n: nat) -> Seq<u8>
    decreases n,
{
    if n < 10 {
        seq![(48 + n) as u8]
    } else {
        digits(n / 10).push((48 + n % 10) as u8)
    }
}

/// The decimal text of a number, with a sign where it is negative.
pub open spec fn decimal(v: int) -> Seq<u8> {
    if v < 0 {
        seq![45u8] + digits((-v) as nat)
    } else {
        digits(v as nat)
    }
}

/// The number that a text of digits stands for.
pub open spec fn value(s: Seq<u8>) -> nat
    decreases s.len(),
{
    if s.len() == 0 {
        0
    } else {
        value(s.drop_last()) * 10 + (s.last() - 48) as nat
    }
}

/// A text of at least one digit.
pub open spec fn is_number(s: Seq<u8>) -> bool {
    s.len() > 0 && forall|i: int| 0 <= i < s.len() ==> 48 <= #[trigger] s[i] <= 57
}

/// The digits of a number stand for that number.
pub proof fn law_digits_round_trip(n: nat)
    ensures
        is_number(digits(n)),
        value(digits(n)) == n,
    decreases n,
{
    if n < 10 {
        let s = digits(n);
        assert(s.drop_last() =~= seq![]);
        assert(value(s.drop_last()) == 0);
    } else {
        law_digits_round_trip(n / 10);
        assert(digits(n).drop_last() =~= digits(n / 10));
    }
}

/// Appends the digits of a number.
pub fn put_u64(out: &mut Vec<u8>, v: u64)
    ensures
        final(out)@ == old(out)@ + digits(v as nat),
    decreases v,
{
    if v >= 10 {
        put_u64(out, v / 10);
    }
    out.push(48 + (v % 10) as u8);
    assert(out@ =~= old(out)@ + digits(v as nat));
}

/// Appends the decimal text of a number.
pub fn put_i32(out: &mut Vec<u8>, v: i32)
    ensures
        final(out)@ == old(out)@ + decimal(v as int),
{
    if v < 0 {
        out.push(45);
        put_u64(out, (-(v as i64)) as u64);
        assert(out@ =~= old(out)@ + decimal(v as int));
    } else {
        put_u64(out, v as u64);
    }
}

/// Appends a text.
pub fn put_str(out: &mut Vec<u8>, s: &str)
    ensures
        final(out)@ == old(out)@ + s.spec_bytes(),
{
    put_bytes(out, s.as_bytes());
}

/// Appends bytes.
pub fn put_bytes(out: &mut Vec<u8>, s: &[u8])
    ensures
        final(out)@ == old(out)@ + s@,
{
    let mut i: usize = 0;
    while i < s.len()
        invariant
            i <= s@.len(),
            out@ == old(out)@ + s@.take(i as int),
        decreases s@.len() - i,
    {
        out.push(s[i]);
        i = i + 1;
        assert(out@ =~= old(out)@ + s@.take(i as int));
    }
    assert(s@.take(i as int) =~= s@);
}

/// Whether two runs of bytes are the same.
pub fn same(a: &[u8], b: &[u8]) -> (r: bool)
    ensures
        r == (a@ == b@),
{
    if a.len() != b.len() {
        return false;
    }
    let mut i: usize = 0;
    while i < a.len()
        invariant
            i <= a@.len(),
            a@.len() == b@.len(),
            forall|j: int| 0 <= j < i ==> a@[j] == b@[j],
        decreases a@.len() - i,
    {
        if a[i] != b[i] {
            return false;
        }
        i = i + 1;
    }
    assert(a@ =~= b@);
    true
}

/// The white space of Unicode.
pub open spec fn white(c: u32) -> bool {
    ||| 9 <= c <= 13
    ||| c == 0x20
    ||| c == 0x85
    ||| c == 0xA0
    ||| c == 0x1680
    ||| 0x2000 <= c <= 0x200A
    ||| c == 0x2028
    ||| c == 0x2029
    ||| c == 0x202F
    ||| c == 0x205F
    ||| c == 0x3000
}

/// Three bytes that are white space.
pub open spec fn wide_space(a: u8, b: u8, c: u8) -> bool {
    ||| a == 0xE1 && b == 0x9A && c == 0x80
    ||| a == 0xE2 && b == 0x80 && (0x80 <= c <= 0x8A || c == 0xA8 || c == 0xA9 || c == 0xAF)
    ||| a == 0xE2 && b == 0x81 && c == 0x9F
    ||| a == 0xE3 && b == 0x80 && c == 0x80
}

/// The number of bytes of the white space that a text starts with; 0 where it
/// starts with none.
pub open spec fn space_len(s: Seq<u8>) -> nat {
    if s.len() >= 1 && (s[0] == 32 || 9 <= s[0] <= 13) {
        1
    } else if s.len() >= 2 && s[0] == 0xC2 && (s[1] == 0x85 || s[1] == 0xA0) {
        2
    } else if s.len() >= 3 && wide_space(s[0], s[1], s[2]) {
        3
    } else {
        0
    }
}

/// The number of bytes of the white space that a text ends with; 0 where it ends
/// with none.
pub open spec fn space_end(s: Seq<u8>) -> nat {
    let n = s.len() as int;
    if n >= 1 && (s[n - 1] == 32 || 9 <= s[n - 1] <= 13) {
        1
    } else if n >= 2 && s[n - 2] == 0xC2 && (s[n - 1] == 0x85 || s[n - 1] == 0xA0) {
        2
    } else if n >= 3 && wide_space(s[n - 3], s[n - 2], s[n - 1]) {
        3
    } else {
        0
    }
}

/// In UTF-8 the bytes of white space are those of a white character.
pub proof fn law_space_is_white(s: Seq<u8>)
    requires
        valid_first_scalar(s),
    ensures
        space_len(s) == (if white(decode_first_scalar(s)) {
            length_of_first_scalar(s)
        } else {
            0
        }),
{
    if is_leading_byte_width_1(s[0]) {
        let a = s[0];
        assert(a <= 0x7f ==> (a & 0x7F) as u32 == a) by (bit_vector);
    } else if is_leading_byte_width_2(s[0]) {
        let a = s[0];
        let b = s[1];
        let c = codepoint_width_2(a, b);
        assert(0xc0 <= a <= 0xdf && 0x80 <= b <= 0xbf ==> c < 0x800 && (c == 0x85 <==> a == 0xC2
            && b == 0x85) && (c == 0xA0 <==> a == 0xC2 && b == 0xA0)) by (bit_vector)
            requires
                c == (((a & 0x1F) as u32) << 6) | ((b & 0x3f) as u32),
        ;
    } else if is_leading_byte_width_3(s[0]) {
        let a = s[0];
        let b = s[1];
        let d = s[2];
        let c = codepoint_width_3(a, b, d);
        assert(0xe0 <= a <= 0xef && 0x80 <= b <= 0xbf && 0x80 <= d <= 0xbf ==> ((c == 0x1680
            || 0x2000 <= c <= 0x200A || c == 0x2028 || c == 0x2029 || c == 0x202F || c == 0x205F
            || c == 0x3000) <==> (a == 0xE1 && b == 0x9A && d == 0x80 || a == 0xE2 && b == 0x80
            && (0x80 <= d <= 0x8A || d == 0xA8 || d == 0xA9 || d == 0xAF) || a == 0xE2 && b == 0x81
            && d == 0x9F || a == 0xE3 && b == 0x80 && d == 0x80))) by (bit_vector)
            requires
                c == ((((a & 0x0F) as u32) << 12) | (((b & 0x3f) as u32) << 6)) | ((d
                    & 0x3f) as u32),
        ;
    }
}

/// A text in UTF-8 ends with white space where its last character is white.
pub proof fn law_last_space_is_white(before: Seq<u8>, last: Seq<u8>)
    requires
        valid_first_scalar(last),
        last.len() == length_of_first_scalar(last),
    ensures
        space_end(before + last) == (if white(decode_first_scalar(last)) {
            last.len()
        } else {
            0
        }),
{
    law_space_is_white(last);
    let s = before + last;
    let n = s.len() as int;
    assert(s[n - 1] == last[last.len() - 1]);
    if last.len() >= 2 {
        assert(s[n - 2] == last[last.len() - 2]);
    }
    if last.len() >= 3 {
        assert(s[n - 3] == last[last.len() - 3]);
    }
}

/// A text without the white space that it starts with.
pub open spec fn trim_front(s: Seq<u8>) -> Seq<u8>
    decreases s.len(),
{
    if space_len(s) > 0 {
        trim_front(s.skip(space_len(s) as int))
    } else {
        s
    }
}

/// A text without the white space that it ends with.
pub open spec fn trim_back(s: Seq<u8>) -> Seq<u8>
    decreases s.len(),
{
    if space_end(s) > 0 {
        trim_back(s.take(s.len() - space_end(s)))
    } else {
        s
    }
}

/// The length of the part of a text before its first white space.
pub open spec fn word_len(s: Seq<u8>) -> int
    decreases s.len(),
{
    if s.len() == 0 || space_len(s) > 0 {
        0
    } else {
        1 + word_len(s.skip(1))
    }
}

/// The first word of a text, and what follows it from the next word on.
pub open spec fn split_word(s: Seq<u8>) -> (Seq<u8>, Seq<u8>) {
    let t = trim_front(s);
    (t.take(word_len(t)), trim_front(t.skip(word_len(t))))
}

proof fn lemma_word_len(s: Seq<u8>)
    ensures
        0 <= word_len(s) <= s.len(),
    decreases s.len(),
{
    if s.len() > 0 {
        lemma_word_len(s.skip(1));
    }
}

/// Whether three bytes are white space.
fn is_wide_space(a: u8, b: u8, c: u8) -> (r: bool)
    ensures
        r == wide_space(a, b, c),
{
    (a == 0xE1 && b == 0x9A && c == 0x80) || (a == 0xE2 && b == 0x80 && ((0x80 <= c && c <= 0x8A)
        || c == 0xA8 || c == 0xA9 || c == 0xAF)) || (a == 0xE2 && b == 0x81 && c == 0x9F) || (a
        == 0xE3 && b == 0x80 && c == 0x80)
}

/// The number of bytes of the white space at `i`; 0 where there is none.
fn space_at(s: &[u8], i: usize) -> (r: usize)
    requires
        i <= s@.len(),
    ensures
        r == space_len(s@.skip(i as int)),
        i + r <= s@.len(),
{
    let n: usize = s.len() - i;
    if n >= 1 && (s[i] == 32 || (9 <= s[i] && s[i] <= 13)) {
        1
    } else if n >= 2 && s[i] == 0xC2 && (s[i + 1] == 0x85 || s[i + 1] == 0xA0) {
        2
    } else if n >= 3 && is_wide_space(s[i], s[i + 1], s[i + 2]) {
        3
    } else {
        0
    }
}

/// The number of bytes of the white space before `n`; 0 where there is none.
fn space_before(s: &[u8], n: usize) -> (r: usize)
    requires
        n <= s@.len(),
    ensures
        r == space_end(s@.take(n as int)),
        r <= n,
{
    if n >= 1 && (s[n - 1] == 32 || (9 <= s[n - 1] && s[n - 1] <= 13)) {
        1
    } else if n >= 2 && s[n - 2] == 0xC2 && (s[n - 1] == 0x85 || s[n - 1] == 0xA0) {
        2
    } else if n >= 3 && is_wide_space(s[n - 3], s[n - 2], s[n - 1]) {
        3
    } else {
        0
    }
}

/// A text without the white space that it starts with.
pub fn trim_start(s: &[u8]) -> (r: &[u8])
    ensures
        r@ == trim_front(s@),
{
    let mut i: usize = 0;
    assert(s@.skip(0) =~= s@);
    let all: usize = s.len();
    let mut k: usize = space_at(s, 0);
    while k > 0
        invariant
            i + k <= all == s@.len(),
            k == space_len(s@.skip(i as int)),
            trim_front(s@.skip(i as int)) == trim_front(s@),
        decreases s@.len() - i,
    {
        assert(s@.skip(i as int).skip(k as int) =~= s@.skip(i + k));
        i = i + k;
        k = space_at(s, i);
    }
    assert(s@.skip(i as int) =~= s@.subrange(i as int, s@.len() as int));
    vstd::slice::slice_subrange(s, i, s.len())
}

/// A text without the white space around it.
pub fn trim(s: &[u8]) -> (r: &[u8])
    ensures
        r@ == trim_back(trim_front(s@)),
{
    let t = trim_start(s);
    let mut n: usize = t.len();
    assert(t@.take(n as int) =~= t@);
    let mut k: usize = space_before(t, n);
    while k > 0
        invariant
            k <= n <= t@.len(),
            k == space_end(t@.take(n as int)),
            trim_back(t@.take(n as int)) == trim_back(t@),
        decreases n,
    {
        assert(t@.take(n as int).take(n - k) =~= t@.take(n - k));
        n = n - k;
        k = space_before(t, n);
    }
    assert(t@.take(n as int) =~= t@.subrange(0, n as int));
    vstd::slice::slice_subrange(t, 0, n)
}

/// The first word of a text, and what follows it from the next word on.
pub fn split_first_word(s: &[u8]) -> (r: (&[u8], &[u8]))
    ensures
        (r.0@, r.1@) == split_word(s@),
{
    let t = trim_start(s);
    let mut i: usize = 0;
    assert(t@.skip(0) =~= t@);
    while i < t.len() && space_at(t, i) == 0
        invariant
            i <= t@.len(),
            i + word_len(t@.skip(i as int)) == word_len(t@),
        decreases t@.len() - i,
    {
        assert(t@.skip(i as int).skip(1) =~= t@.skip(i + 1));
        i = i + 1;
    }
    proof {
        lemma_word_len(t@);
        assert(word_len(t@.skip(i as int)) == 0);
        assert(t@.take(i as int) =~= t@.subrange(0, i as int));
        assert(t@.skip(i as int) =~= t@.subrange(i as int, t@.len() as int));
    }
    (
        vstd::slice::slice_subrange(t, 0, i),
        trim_start(vstd::slice::slice_subrange(t, i, t.len())),
    )
}

/// The number that a text stands for: digits, after a sign or none, with white
/// space around. The magnitude is at most `i32::MAX`, whatever the sign.
pub open spec fn parsed(s: Seq<u8>) -> Option<i32> {
    let t = trim_back(trim_front(s));
    let negative = t.len() > 0 && t[0] == 45;
    let signed = t.len() > 0 && (t[0] == 45 || t[0] == 43);
    let d = if signed {
        t.skip(1)
    } else {
        t
    };
    if is_number(d) && value(d) <= i32::MAX {
        Some((if negative { -(value(d) as int) } else { value(d) as int }) as i32)
    } else {
        None
    }
}

proof fn lemma_value_grows(s: Seq<u8>, n: int)
    requires
        is_number(s),
        0 <= n <= s.len(),
    ensures
        value(s.take(n)) <= value(s),
    decreases s.len() - n,
{
    if n < s.len() {
        lemma_value_grows(s, n + 1);
        assert(s.take(n + 1).drop_last() =~= s.take(n));
    } else {
        assert(s.take(n) =~= s);
    }
}

/// The number that a text stands for.
pub fn parse_i32(s: &[u8]) -> (r: Option<i32>)
    ensures
        r == parsed(s@),
{
    let t = trim(s);
    if t.len() == 0 {
        return None;
    }
    let negative: bool = t[0] == 45;
    let start: usize = if negative || t[0] == 43 { 1 } else { 0 };
    let ghost d = if start == 1 {
        t@.skip(1)
    } else {
        t@
    };
    if start == t.len() {
        return None;
    }
    let mut n: i32 = 0;
    let mut i: usize = start;
    assert(d.take(0) =~= seq![]);
    while i < t.len()
        invariant
            start <= 1,
            start <= i <= t@.len(),
            d == (if start == 1 {
                t@.skip(1)
            } else {
                t@
            }),
            d.len() == t@.len() - start > 0,
            0 <= n == value(d.take(i - start)),
            forall|j: int| 0 <= j < i - start ==> 48 <= #[trigger] d[j] <= 57,
            parsed(s@) == (if is_number(d) && value(d) <= i32::MAX {
                Some((if negative { -(value(d) as int) } else { value(d) as int }) as i32)
            } else {
                None
            }),
        decreases t@.len() - i,
    {
        let b: u8 = t[i];
        assert(b == d[i - start]);
        if !(b >= 48 && b <= 57) {
            return None;
        }
        assert(d.take(i - start + 1).drop_last() =~= d.take(i - start));
        proof {
            if is_number(d) {
                lemma_value_grows(d, i - start + 1);
            }
        }
        let ten: i32 = match n.checked_mul(10) {
            Some(x) => x,
            None => {
                return None;
            },
        };
        n = match ten.checked_add((b - 48) as i32) {
            Some(x) => x,
            None => {
                return None;
            },
        };
        i = i + 1;
    }
    assert(d.take(d.len() as int) =~= d);
    Some(if negative { -n } else { n })
}

/// A text that is not negative is read back as the number it was written for,
/// and so is a negative one unless its magnitude is one too many.
pub proof fn law_decimal_round_trip(v: int)
    requires
        -i32::MAX <= v <= i32::MAX,
    ensures
        parsed(decimal(v)) == Some(v as i32),
{
    let n = (if v < 0 { -v } else { v }) as nat;
    law_digits_round_trip(n);
    let s = decimal(v);
    let d = digits(n);
    if v < 0 {
        assert(s.skip(1) =~= d);
        assert(s.last() == d.last());
    }
    assert(48 <= d[0] <= 57 && 48 <= d[d.len() - 1] <= 57);
    assert(trim_front(s) == s);
    assert(trim_back(s) == s);
}

} // verus!
