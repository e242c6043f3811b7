//! Words and numbers of a text, and the console.

use crate::apps::console::{execute, greeting, LineEditor};
use crate::text::{
    decimal, digits, parse_i32, put_bytes, put_i32, put_str, put_u64, same, space_end, space_len,
    split_first_word, trim, trim_back, trim_front, trim_start, word_len,
};
use vstd::prelude::*;
use vstd::string::*;

verus! {

/// The number that decimal digits stand for.
pub open spec fn worth(s: Seq<u8>) -> int
    decreases s.len(),
{
    if s.len() == 0 {
        0
    } else {
        10 * worth(s.drop_last()) + (s.last() - 48)
    }
}

/// The text `s` is one digit or more.
pub open spec fn all_digits(s: Seq<u8>) -> bool {
    s.len() > 0 && forall|i: int| 0 <= i < s.len() ==> 48 <= #[trigger] s[i] <= 57
}

/// The text `s` is `v` in decimal: without leading zeros, and with a sign where `v` is
/// negative.
pub open spec fn spells(s: Seq<u8>, v: int) -> bool {
    let d = if v < 0 {
        s.skip(1)
    } else {
        s
    };
    &&& v < 0 ==> s.len() > 0 && s[0] == 45
    &&& all_digits(d)
    &&& d.len() > 1 ==> d[0] != 48
    &&& worth(d) == (if v < 0 {
        -v
    } else {
        v
    })
}

pub(crate) proof fn lemma_worth(s: Seq<u8>)
    requires
        forall|i: int| 0 <= i < s.len() ==> 48 <= #[trigger] s[i] <= 57,
    ensures
        worth(s) == crate::text::value(s),
    decreases s.len(),
{
    if s.len() > 0 {
        assert forall|i: int| 0 <= i < s.drop_last().len() implies 48 <= #[trigger] s.drop_last()[i]
            <= 57 by {
            assert(s.drop_last()[i] == s[i]);
        }
        lemma_worth(s.drop_last());
    }
}

pub(crate) proof fn lemma_digits_spell(n: nat)
    ensures
        spells(digits(n), n as int),
        n > 0 ==> digits(n)[0] != 48,
    decreases n,
{
    crate::text::law_digits_round_trip(n);
    lemma_worth(digits(n));
    if n >= 10 {
        lemma_digits_spell(n / 10);
        assert(digits(n)[0] == digits(n / 10)[0]);
    }
}

proof fn lemma_decimal_spells(v: int)
    ensures
        spells(decimal(v), v),
{
    if v < 0 {
        lemma_digits_spell((-v) as nat);
        assert(decimal(v).skip(1) =~= digits((-v) as nat));
    } else {
        lemma_digits_spell(v as nat);
    }
}

/// Numbers, texts and bytes are written behind what is there.
pub proof fn law_writing_appends(
    a: &mut Vec<u8>,
    n: u64,
    b: &mut Vec<u8>,
    v: i32,
    c: &mut Vec<u8>,
    s: &str,
    d: &mut Vec<u8>,
    x: &[u8],
)
    requires
        call_ensures(put_u64, (a, n), ()),
        call_ensures(put_i32, (b, v), ()),
        call_ensures(put_str, (c, s), ()),
        call_ensures(put_bytes, (d, x), ()),
    ensures
        final(a)@.len() > old(a)@.len(),
        final(a)@.take(old(a)@.len() as int) == old(a)@,
        spells(final(a)@.skip(old(a)@.len() as int), n as int),
        final(b)@.len() > old(b)@.len(),
        final(b)@.take(old(b)@.len() as int) == old(b)@,
        spells(final(b)@.skip(old(b)@.len() as int), v as int),
        final(c)@ == old(c)@ + s.spec_bytes(),
        final(d)@ == old(d)@ + x@,
{
    lemma_digits_spell(n as nat);
    lemma_decimal_spells(v as int);
    assert((old(a)@ + digits(n as nat)).skip(old(a)@.len() as int) =~= digits(n as nat));
    assert((old(a)@ + digits(n as nat)).take(old(a)@.len() as int) =~= old(a)@);
    assert((old(b)@ + decimal(v as int)).skip(old(b)@.len() as int) =~= decimal(v as int));
    assert((old(b)@ + decimal(v as int)).take(old(b)@.len() as int) =~= old(b)@);
}

/// Two runs of bytes are the same where they have the same length and the same bytes.
pub proof fn law_same_bytes(a: &[u8], b: &[u8], r: bool)
    requires
        call_ensures(same, (a, b), r),
    ensures
        r ==> a@.len() == b@.len() && forall|i: int| 0 <= i < a@.len() ==> a@[i] == #[trigger] b@[i],
        a@ =~= b@ ==> r,
{
}

/// The first `k` bytes of `s` are one character of white space.
pub open spec fn space_first(s: Seq<u8>, k: int) -> bool {
    &&& 1 <= k <= 3
    &&& s.len() >= k
    &&& k == 1 ==> s[0] == 0x20 || s[0] == 0x09 || s[0] == 0x0A || s[0] == 0x0B || s[0] == 0x0C
        || s[0] == 0x0D
    &&& k == 2 ==> s[0] == 0xC2 && (s[1] == 0x85 || s[1] == 0xA0)
    &&& k == 3 ==> {
        ||| s[0] == 0xE1 && s[1] == 0x9A && s[2] == 0x80
        ||| s[0] == 0xE2 && s[1] == 0x80 && (0x80 <= s[2] <= 0x8A || s[2] == 0xA8 || s[2] == 0xA9
            || s[2] == 0xAF)
        ||| s[0] == 0xE2 && s[1] == 0x81 && s[2] == 0x9F
        ||| s[0] == 0xE3 && s[1] == 0x80 && s[2] == 0x80
    }
}

/// The text starts with white space.
pub open spec fn starts_white(s: Seq<u8>) -> bool {
    space_first(s, 1) || space_first(s, 2) || space_first(s, 3)
}

/// The text ends with white space.
pub open spec fn ends_white(s: Seq<u8>) -> bool {
    let n = s.len() as int;
    ||| n >= 1 && space_first(s.skip(n - 1), 1)
    ||| n >= 2 && space_first(s.skip(n - 2), 2)
    ||| n >= 3 && space_first(s.skip(n - 3), 3)
}

/// The text is white space only.
pub open spec fn blank(s: Seq<u8>) -> bool
    decreases s.len(),
{
    ||| s.len() == 0
    ||| space_first(s, 1) && blank(s.skip(1))
    ||| space_first(s, 2) && blank(s.skip(2))
    ||| space_first(s, 3) && blank(s.skip(3))
}

proof fn lemma_space(s: Seq<u8>)
    ensures
        space_len(s) > 0 <==> starts_white(s),
        space_len(s) > 0 ==> space_first(s, space_len(s) as int),
        space_end(s) > 0 <==> ends_white(s),
        space_end(s) > 0 ==> space_end(s) <= s.len() && space_first(
            s.skip(s.len() - space_end(s)),
            space_end(s) as int,
        ),
{
}

proof fn lemma_blank_join(a: Seq<u8>, b: Seq<u8>)
    requires
        blank(a),
        blank(b),
    ensures
        blank(a + b),
    decreases a.len(),
{
    if a.len() == 0 {
        assert(a + b =~= b);
    } else {
        let k = if space_first(a, 1) && blank(a.skip(1)) {
            1int
        } else if space_first(a, 2) && blank(a.skip(2)) {
            2int
        } else {
            3int
        };
        lemma_blank_join(a.skip(k), b);
        assert((a + b).skip(k) =~= a.skip(k) + b);
        assert(space_first(a + b, k));
    }
}

proof fn lemma_one_space(s: Seq<u8>, k: int)
    requires
        space_first(s, k),
        s.len() == k,
    ensures
        blank(s),
{
    assert(s.skip(k).len() == 0);
    assert(blank(s.skip(k)));
}

proof fn lemma_trim_front(s: Seq<u8>) -> (i: int)
    ensures
        0 <= i <= s.len(),
        trim_front(s) == s.skip(i),
        blank(s.take(i)),
        !starts_white(s.skip(i)),
    decreases s.len(),
{
    lemma_space(s);
    if space_len(s) > 0 {
        let k = space_len(s) as int;
        let j = lemma_trim_front(s.skip(k));
        lemma_one_space(s.take(k), k);
        lemma_blank_join(s.take(k), s.skip(k).take(j));
        assert(s.take(k) + s.skip(k).take(j) =~= s.take(k + j));
        assert(s.skip(k).skip(j) =~= s.skip(k + j));
        k + j
    } else {
        assert(s.skip(0) =~= s);
        0
    }
}

proof fn lemma_trim_back(s: Seq<u8>) -> (n: int)
    ensures
        0 <= n <= s.len(),
        trim_back(s) == s.take(n),
        blank(s.skip(n)),
        !ends_white(s.take(n)),
    decreases s.len(),
{
    lemma_space(s);
    if space_end(s) > 0 {
        let k = s.len() - space_end(s);
        let n = lemma_trim_back(s.take(k));
        lemma_one_space(s.skip(k), space_end(s) as int);
        lemma_blank_join(s.take(k).skip(n), s.skip(k));
        assert(s.take(k).skip(n) + s.skip(k) =~= s.skip(n));
        assert(s.take(k).take(n) =~= s.take(n));
        n
    } else {
        assert(s.take(s.len() as int) =~= s);
        s.len() as int
    }
}

/// The text `t` is `s` without the white space around it.
pub open spec fn is_core(s: Seq<u8>, t: Seq<u8>) -> bool {
    exists|a: Seq<u8>, b: Seq<u8>|
        blank(a) && blank(b) && s == #[trigger] (a + t + b) && !starts_white(t + b) && !ends_white(
            t,
        )
}

/// The text `t` is `s` without the white space before it.
pub open spec fn is_tail(s: Seq<u8>, t: Seq<u8>) -> bool {
    exists|a: Seq<u8>| blank(a) && s == #[trigger] (a + t) && !starts_white(t)
}

/// White space is taken off both ends, or off the front, and nothing else.
pub proof fn law_trimming(s: &[u8], t: &[u8], f: &[u8])
    requires
        call_ensures(trim, (s,), t),
        call_ensures(trim_start, (s,), f),
    ensures
        is_core(s@, t@),
        is_tail(s@, f@),
{
    let i = lemma_trim_front(s@);
    let m = s@.skip(i);
    let n = lemma_trim_back(m);
    assert(s@.take(i) + m.take(n) + m.skip(n) =~= s@);
    assert(m.take(n) + m.skip(n) =~= m);
    assert(s@.take(i) + m =~= s@);
}

proof fn lemma_word(s: Seq<u8>)
    ensures
        0 <= word_len(s) <= s.len(),
        forall|i: int| 0 <= i < word_len(s) ==> !starts_white(#[trigger] s.skip(i)),
        word_len(s) < s.len() ==> starts_white(s.skip(word_len(s))),
    decreases s.len(),
{
    lemma_space(s);
    assert(s.skip(0) =~= s);
    if !(s.len() == 0 || space_len(s) > 0) {
        let t = s.skip(1);
        lemma_word(t);
        assert forall|i: int| 0 <= i < word_len(s) implies !starts_white(#[trigger] s.skip(i)) by {
            if i > 0 {
                assert(t.skip(i - 1) =~= s.skip(i));
            }
        }
        if word_len(s) < s.len() {
            assert(t.skip(word_len(t)) =~= s.skip(word_len(s)));
        }
    }
}

/// The first word of `s` is `w`, and `rest` is what follows, from the next word on.
pub open spec fn is_split(s: Seq<u8>, w: Seq<u8>, rest: Seq<u8>) -> bool {
    exists|a: Seq<u8>, b: Seq<u8>|
        {
            &&& blank(a)
            &&& blank(b)
            &&& s == #[trigger] (a + w + b + rest)
            &&& !starts_white(rest)
            &&& rest.len() > 0 ==> b.len() > 0
            &&& forall|i: int|
                0 <= i < w.len() ==> !starts_white(#[trigger] (w + b + rest).skip(i))
        }
}

/// A text is split after its first word.
pub proof fn law_first_word(s: &[u8], r: (&[u8], &[u8]))
    requires
        call_ensures(split_first_word, (s,), r),
    ensures
        is_split(s@, r.0@, r.1@),
{
    let i = lemma_trim_front(s@);
    let t = s@.skip(i);
    lemma_word(t);
    let k = word_len(t);
    let u = t.skip(k);
    let j = lemma_trim_front(u);
    let a = s@.take(i);
    let b = u.take(j);
    let w = t.take(k);
    let rest = u.skip(j);
    assert(a + w + b + rest =~= s@);
    assert(w + b + rest =~= t);
    if rest.len() > 0 && b.len() == 0 {
        assert(u.skip(0) =~= u);
        assert(false);
    }
}

/// A text stands for a number where it is digits behind one sign or none, with white space
/// around, and at most 2147483647 without the sign.
pub proof fn law_number_of_a_text(s: &[u8], t: &[u8], r: Option<i32>)
    requires
        call_ensures(trim, (s,), t),
        call_ensures(parse_i32, (s,), r),
    ensures
        ({
            let signed = t@.len() > 0 && (t@[0] == 45 || t@[0] == 43);
            let d = if signed {
                t@.skip(1)
            } else {
                t@
            };
            &&& r is Some <==> all_digits(d) && worth(d) <= 2147483647
            &&& r is Some ==> r->0 == (if t@[0] == 45 {
                -worth(d)
            } else {
                worth(d)
            })
        }),
{
    let signed = t@.len() > 0 && (t@[0] == 45 || t@[0] == 43);
    let d = if signed {
        t@.skip(1)
    } else {
        t@
    };
    if all_digits(d) {
        lemma_worth(d);
    }
}

/// The commands of the console. `echo` prints what follows it; `add` prints its two
/// numbers and their sum, which is the sum modulo 2^32, and the sum itself where a 32-bit
/// number holds it; what is no number is an error; an unknown command is named; and an
/// empty line prints nothing.
pub proof fn law_commands(
    line: &[u8],
    out: Vec<u8>,
    t: &[u8],
    w: (&[u8], &[u8]),
    x: (&[u8], &[u8]),
    a: Option<i32>,
    b: Option<i32>,
)
    requires
        call_ensures(execute, (line,), out),
        call_ensures(trim, (line,), t),
        call_ensures(split_first_word, (t,), w),
        call_ensures(split_first_word, (w.1,), x),
        call_ensures(parse_i32, (x.0,), a),
        call_ensures(parse_i32, (x.1,), b),
    ensures
        t@.len() == 0 ==> out@.len() == 0,
        t@.len() > 0 && w.0@ == "echo".spec_bytes() ==> out@ == w.1@ + "\r\n".spec_bytes(),
        t@.len() > 0 && w.0@ == "add".spec_bytes() && w.0@ != "echo".spec_bytes() ==> {
            &&& a is None ==> out@ == "error: invalid first operand\r\n".spec_bytes()
            &&& a is Some && b is None ==> out@ == "error: invalid second operand\r\n".spec_bytes()
            &&& a is Some && b is Some ==> prints_sum(out@, a->0 as int, b->0 as int)
        },
{
    if a is Some && b is Some {
        let c = crate::apps::console::wrapped_sum(a->0, b->0);
        lemma_decimal_spells(a->0 as int);
        lemma_decimal_spells(b->0 as int);
        lemma_decimal_spells(c);
        assert(sums(decimal(a->0 as int), decimal(b->0 as int), decimal(c), a->0 as int, b->0 as int, c));
    }
}

/// The texts of two numbers and of their sum modulo 2^32.
pub open spec fn sums(x: Seq<u8>, y: Seq<u8>, z: Seq<u8>, a: int, b: int, c: int) -> bool {
    &&& spells(x, a)
    &&& spells(y, b)
    &&& spells(z, c)
    &&& (c - (a + b)) % 0x1_0000_0000 == 0
    &&& -0x8000_0000 <= c < 0x8000_0000
}

/// What `add` prints for `a` and `b`.
pub open spec fn prints_sum(out: Seq<u8>, a: int, b: int) -> bool {
    exists|x: Seq<u8>, y: Seq<u8>, z: Seq<u8>, c: int|
        #[trigger] sums(x, y, z, a, b, c) && out == x + " + ".spec_bytes() + y + " = ".spec_bytes()
            + z + "\r\n".spec_bytes()
}

proof fn lemma_commands_differ()
    ensures
        "echo".spec_bytes() != "add".spec_bytes(),
        "echo".spec_bytes() != "help".spec_bytes(),
        "echo".spec_bytes() != "clear".spec_bytes(),
        "add".spec_bytes() != "help".spec_bytes(),
        "add".spec_bytes() != "clear".spec_bytes(),
        "help".spec_bytes() != "clear".spec_bytes(),
        "\x08 \x08".spec_bytes().len() == 3,
{
    reveal_strlit("echo");
    reveal_strlit("add");
    reveal_strlit("help");
    reveal_strlit("clear");
    reveal_strlit("\x08 \x08");
    crate::apps::intercom::lemma_ascii_len("echo", 4);
    crate::apps::intercom::lemma_ascii_len("add", 3);
    crate::apps::intercom::lemma_ascii_len("help", 4);
    crate::apps::intercom::lemma_ascii_len("clear", 5);
    crate::apps::intercom::lemma_ascii_len("\x08 \x08", 3);
    vstd::utf8::is_ascii_chars_encode_utf8("echo"@);
    vstd::utf8::is_ascii_chars_encode_utf8("help"@);
    assert("echo".spec_bytes()[0] == 101);
    assert("help".spec_bytes()[0] == 104);
}

/// `help` lists the commands, `clear` clears the screen, and any other word but `echo` and
/// `add` is named as unknown.
pub proof fn law_other_commands(line: &[u8], out: Vec<u8>, t: &[u8], w: (&[u8], &[u8]))
    requires
        call_ensures(execute, (line,), out),
        call_ensures(trim, (line,), t),
        t@.len() > 0,
        call_ensures(split_first_word, (t,), w),
    ensures
        w.0@ == "help".spec_bytes() ==> out@ == "Commands:\r\n".spec_bytes()
            + "  echo <text>  - echo text back\r\n".spec_bytes()
            + "  add <a> <b>  - add two integers\r\n".spec_bytes()
            + "  help         - show this help\r\n".spec_bytes()
            + "  clear        - clear screen\r\n".spec_bytes(),
        w.0@ == "clear".spec_bytes() ==> out@ == "\x1b[2J\x1b[H".spec_bytes(),
        w.0@ != "echo".spec_bytes() && w.0@ != "add".spec_bytes() && w.0@ != "help".spec_bytes()
            && w.0@ != "clear".spec_bytes() ==> out@ == "unknown command: ".spec_bytes() + w.0@
            + "\r\n".spec_bytes(),
{
    lemma_commands_differ();
}

/// What a key does to the line: printable characters are added up to 127 of them and
/// shown, the delete keys (0x08 and 0x7f) take the last one off, and the keys that end or
/// drop the line (return, 3 and 0x15) leave it empty. Any other key changes nothing.
pub proof fn law_keys_edit_the_line(e: &mut LineEditor, key: u8, out: Vec<u8>, new: LineEditor)
    requires
        call_ensures(LineEditor::key, (e, key), out),
        call_ensures(LineEditor::new, (), new),
    ensures
        new@.len() == 0,
        0x20 <= key < 0x7f && old(e)@.len() < 127 ==> final(e)@.len() == old(e)@.len() + 1
            && final(e)@.drop_last() == old(e)@ && final(e)@.last() == key && out@.len() == 1
            && out@[0] == key,
        0x20 <= key < 0x7f && old(e)@.len() >= 127 ==> final(e)@ == old(e)@ && out@.len() == 0,
        (key == 0x08 || key == 0x7f) && old(e)@.len() > 0 ==> final(e)@ == old(e)@.drop_last()
            && out@ == "\x08 \x08".spec_bytes(),
        (key == 0x08 || key == 0x7f) && old(e)@.len() == 0 ==> final(e)@ == old(e)@ && out@.len()
            == 0,
        key == 13 || key == 10 || key == 3 || key == 0x15 ==> final(e)@.len() == 0,
        key == 3 ==> out@ == "^C\r\n".spec_bytes() + "> ".spec_bytes(),
        key > 0x7f || (key < 0x20 && key != 0x08 && key != 13 && key != 10 && key != 3 && key
            != 0x15) ==> final(e)@ == old(e)@ && out@.len() == 0,
{
    reveal_with_fuel(crate::apps::console::rubout, 2);
    let s = "\x08 \x08".spec_bytes();
    assert(Seq::<u8>::empty() + s =~= s);
    assert(old(e)@.push(key).drop_last() =~= old(e)@);
}

/// The return key runs the line and prints what it gives, between a line break and the next
/// prompt.
pub proof fn law_return_runs_the_line(
    e: &mut LineEditor,
    key: u8,
    out: Vec<u8>,
    line: &[u8],
    printed: Vec<u8>,
)
    requires
        key == 13 || key == 10,
        call_ensures(LineEditor::key, (e, key), out),
        line@ == old(e)@,
        call_ensures(execute, (line,), printed),
    ensures
        out@ == "\r\n".spec_bytes() + printed@ + "> ".spec_bytes(),
{
    if line@.len() == 0 {
        assert(line@ =~= Seq::<u8>::empty());
        let i = lemma_trim_front(line@);
        let n = lemma_trim_back(line@.skip(i));
        assert(printed@.len() == 0);
        assert(printed@ =~= Seq::<u8>::empty());
    }
}

proof fn lemma_rubout(n: nat)
    ensures
        crate::apps::console::rubout(n).len() == 3 * n,
        forall|i: int|
            0 <= i < n ==> #[trigger] crate::apps::console::rubout(n).subrange(3 * i, 3 * i + 3)
                == "\x08 \x08".spec_bytes(),
    decreases n,
{
    lemma_commands_differ();
    if n > 0 {
        lemma_rubout((n - 1) as nat);
        let a = crate::apps::console::rubout((n - 1) as nat);
        let b = crate::apps::console::rubout(n);
        assert forall|i: int| 0 <= i < n implies #[trigger] b.subrange(3 * i, 3 * i + 3)
            == "\x08 \x08".spec_bytes() by {
            if i < n - 1 {
                assert(b.subrange(3 * i, 3 * i + 3) =~= a.subrange(3 * i, 3 * i + 3));
            } else {
                assert(b.subrange(3 * i, 3 * i + 3) =~= "\x08 \x08".spec_bytes());
            }
        }
    }
}

/// The key that drops the line takes every character of it off the screen.
pub proof fn law_dropped_line_leaves_the_screen(e: &mut LineEditor, out: Vec<u8>)
    requires
        call_ensures(LineEditor::key, (e, 0x15u8), out),
    ensures
        out@.len() == 3 * old(e)@.len(),
        forall|i: int|
            0 <= i < old(e)@.len() ==> #[trigger] out@.subrange(3 * i, 3 * i + 3)
                == "\x08 \x08".spec_bytes(),
{
    lemma_rubout(old(e)@.len());
}

/// What the console says when it starts.
pub proof fn law_greeting(r: &'static str)
    requires
        call_ensures(greeting, (), r),
    ensures
        r@ == "\r\nrt-async console ready (interrupt-driven). Type 'help' for commands.\r\n"@,
{
}

} // verus!
