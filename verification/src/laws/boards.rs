//! The configuration of a board, and the device tree that is looked for.

use crate::chip::amp_config::{
    bare, classify, constant_line, first, setting, settings, AmpConfig, Constant,
};
use crate::chip::dtb::{
    candidate, claims, locate_rtasync_dtb, located, part, readable, root_compatible, root_readable,
    string_at, walkable, zero_at, Located,
};
use crate::laws::texts::{is_core, spells};
use crate::text::trim;
use vstd::prelude::*;
use vstd::string::*;

verus! {

/// A name that was set has its value, until it is set again; other names keep theirs.
pub proof fn law_setting_is_kept(
    c: &mut AmpConfig,
    name: &[u8],
    value: &[u8],
    same: Option<&[u8]>,
    other: &[u8],
    was: Option<&[u8]>,
    now: Option<&[u8]>,
)
    requires
        old(c).wf(),
        other@ != name@,
        call_ensures(AmpConfig::get, (old(c), other), was),
        call_ensures(AmpConfig::insert, (c, name, value), ()),
        call_ensures(AmpConfig::get, (final(c), name), same),
        call_ensures(AmpConfig::get, (final(c), other), now),
    ensures
        same is Some,
        same->0@ == value@,
        now is Some <==> was is Some,
        now is Some ==> now->0@ == was->0@,
{
}

proof fn lemma_first(s: Seq<u8>, b: u8)
    ensures
        0 <= first(s, b) <= s.len(),
        forall|i: int| 0 <= i < first(s, b) ==> #[trigger] s[i] != b,
        first(s, b) < s.len() ==> s[first(s, b)] == b,
    decreases s.len(),
{
    if s.len() > 0 && s[0] != b {
        let t = s.drop_first();
        lemma_first(t, b);
        assert forall|i: int| 0 <= i < first(s, b) implies #[trigger] s[i] != b by {
            if i > 0 {
                assert(t[i - 1] == s[i]);
            }
        }
    }
}

proof fn lemma_first_is(s: Seq<u8>, b: u8, n: int)
    requires
        0 <= n <= s.len(),
        forall|i: int| 0 <= i < n ==> #[trigger] s[i] != b,
        n < s.len() ==> s[n] == b,
    ensures
        first(s, b) == n,
{
    lemma_first(s, b);
    let m = first(s, b);
    if m < n {
        assert(s[m] != b);
    }
    if m > n {
        assert(s[n] != b);
    }
}

proof fn lemma_lines(
    a: Seq<u8>,
    line: Seq<u8>,
    m: Map<Seq<u8>, Seq<u8>>,
)
    requires
        forall|i: int| 0 <= i < line.len() ==> #[trigger] line[i] != 10,
    ensures
        settings(a + seq![10u8] + line, m) == ({
            let before = settings(a, m);
            match setting(line) {
                Some((name, value)) => before.insert(name, value),
                None => before,
            }
        }),
    decreases a.len(),
{
    let t = a + seq![10u8] + line;
    lemma_first(a, 10);
    let n = first(a, 10);
    assert forall|i: int| 0 <= i < n implies #[trigger] t[i] != 10 by {
        assert(t[i] == a[i]);
    }
    assert(t[n] == 10) by {
        if n < a.len() {
            assert(t[n] == a[n]);
        }
    }
    lemma_first_is(t, 10, n);
    assert(t.take(n) =~= a.take(n));
    let here = match setting(a.take(n)) {
        Some((name, value)) => m.insert(name, value),
        None => m,
    };
    assert(settings(t, m) == settings(t.skip(n + 1), here));
    if n < a.len() {
        assert(t.skip(n + 1) =~= a.skip(n + 1) + seq![10u8] + line);
        lemma_lines(a.skip(n + 1), line, here);
        assert(settings(a, m) == settings(a.skip(n + 1), here));
    } else {
        assert(t.skip(n + 1) =~= line);
        assert(a.take(n) =~= a);
        if a.len() == 0 {
            lemma_nothing_is_set();
            assert(a =~= Seq::<u8>::empty());
            assert(settings(a, m) == m);
            assert(here == m);
        } else {
            assert(settings(a, m) == here);
        }
        lemma_first_is(line, 10, line.len() as int);
        assert(line.take(line.len() as int) =~= line);
        if line.len() == 0 {
            lemma_nothing_is_set();
            assert(line =~= Seq::<u8>::empty());
        }
    }
}

proof fn lemma_nothing_is_set()
    ensures
        setting(Seq::<u8>::empty()) is None,
{
    let e = Seq::<u8>::empty();
    assert(crate::text::trim_front(e) == e);
    assert(crate::text::trim_back(e) == e);
}

/// What a text sets. Nothing is set by an empty one. A line that is added sets the name
/// before its first equals sign to the value after it, both without the white space around
/// them, whatever was set before; one that is empty, starts with `#` or has no equals sign
/// sets nothing.
pub proof fn law_lines_set_names(
    none: &[u8],
    c0: AmpConfig,
    text: &[u8],
    c1: AmpConfig,
    more: &[u8],
    c2: AmpConfig,
    line: &[u8],
    t: &[u8],
    n: int,
    left: &[u8],
    name: &[u8],
    right: &[u8],
    value: &[u8],
)
    requires
        none@.len() == 0,
        call_ensures(AmpConfig::load_amp_config, (none,), c0),
        call_ensures(AmpConfig::load_amp_config, (text,), c1),
        forall|i: int| 0 <= i < line@.len() ==> #[trigger] line@[i] != 10,
        more@ == text@ + seq![10u8] + line@,
        call_ensures(AmpConfig::load_amp_config, (more,), c2),
        call_ensures(trim, (line,), t),
        0 <= n <= t@.len(),
        forall|i: int| 0 <= i < n ==> #[trigger] t@[i] != 61,
        n < t@.len() ==> t@[n] == 61,
        n < t@.len() ==> left@ == t@.take(n) && right@ == t@.skip(n + 1),
        call_ensures(trim, (left,), name),
        call_ensures(trim, (right,), value),
    ensures
        c0@ == Map::<Seq<u8>, Seq<u8>>::empty(),
        t@.len() == 0 || t@[0] == 35 || n == t@.len() ==> c2@ == c1@,
        t@.len() > 0 && t@[0] != 35 && n < t@.len() ==> c2@ == c1@.insert(name@, value@),
{
    lemma_lines(text@, line@, Map::empty());
    lemma_first_is(t@, 61, n);
    assert(none@ =~= Seq::<u8>::empty());
}

/// The worth of a digit in a base of up to sixteen; -1 where it is none.
pub open spec fn digit_worth(b: u8) -> int {
    if 48 <= b <= 57 {
        b - 48
    } else if 65 <= b <= 70 {
        b - 65 + 10
    } else if 97 <= b <= 102 {
        b - 97 + 10
    } else {
        -1
    }
}

/// The number that digits stand for in a base.
pub open spec fn worth_in(s: Seq<u8>, base: int) -> int
    decreases s.len(),
{
    if s.len() == 0 {
        0
    } else {
        base * worth_in(s.drop_last(), base) + digit_worth(s.last())
    }
}

/// The text is one digit of the base or more.
pub open spec fn digits_in(s: Seq<u8>, base: int) -> bool {
    s.len() > 0 && forall|i: int| 0 <= i < s.len() ==> 0 <= digit_worth(#[trigger] s[i]) < base
}

proof fn lemma_worth_in(s: Seq<u8>, base: int)
    ensures
        crate::chip::amp_config::radix_value(s, base) == worth_in(s, base),
        crate::chip::amp_config::all_digits(s, base) == digits_in(s, base),
    decreases s.len(),
{
    if s.len() > 0 {
        lemma_worth_in(s.drop_last(), base);
        assert(crate::chip::amp_config::radix_value(s.drop_last(), base) * base == base * worth_in(
            s.drop_last(),
            base,
        )) by (nonlinear_arith)
            requires
                crate::chip::amp_config::radix_value(s.drop_last(), base) == worth_in(
                    s.drop_last(),
                    base,
                ),
        ;
    }
    assert(forall|i: int|
        0 <= i < s.len() ==> crate::chip::amp_config::digit_value(#[trigger] s[i]) == digit_worth(
            s[i],
        ));
}

proof fn lemma_worth_positive(s: Seq<u8>, base: int)
    requires
        base > 0,
        forall|i: int| 0 <= i < s.len() ==> 0 <= digit_worth(#[trigger] s[i]),
    ensures
        worth_in(s, base) >= 0,
    decreases s.len(),
{
    if s.len() > 0 {
        let t = s.drop_last();
        assert forall|i: int| 0 <= i < t.len() implies 0 <= digit_worth(#[trigger] t[i]) by {
            assert(t[i] == s[i]);
        }
        lemma_worth_positive(t, base);
        assert(0 <= digit_worth(s[s.len() - 1]));
        assert(base * worth_in(t, base) >= 0) by (nonlinear_arith)
            requires
                base > 0,
                worth_in(t, base) >= 0,
        ;
    }
}

/// A value that reads `0x` and hexadecimal digits, or those digits alone, is a hexadecimal
/// number where 64 bits hold it; one of decimal digits is hexadecimal too. A value whose
/// hexadecimal reading does not fit may be decimal; a value that is no number is a text.
pub proof fn law_kinds_of_values(value: &[u8], r: Constant, d: Seq<u8>)
    requires
        call_ensures(classify, (value,), r),
        !(d.len() >= 2 && d[0] == 48 && d[1] == 120),
        d.len() > 0,
        d[0] != 43,
        value@ == d || value@ == seq![48u8, 120u8] + d,
    ensures
        digits_in(d, 16) && worth_in(d, 16) <= 0xffff_ffff_ffff_ffff ==> r == Constant::Hex(
            worth_in(d, 16) as u64,
        ),
        !(digits_in(d, 16) && worth_in(d, 16) <= 0xffff_ffff_ffff_ffff) ==> {
            &&& !(r is Hex)
            &&& r is Dec <==> digits_in(value@, 10) && worth_in(value@, 10)
                <= 0xffff_ffff_ffff_ffff
            &&& r is Dec ==> r->Dec_0 == worth_in(value@, 10)
        },
{
    lemma_worth_in(d, 16);
    lemma_worth_in(value@, 10);
    if digits_in(value@, 10) {
        lemma_worth_positive(value@, 10);
    }
    reveal_with_fuel(crate::chip::amp_config::unmarked, 3);
    if value@ == seq![48u8, 120u8] + d {
        assert(value@[0] == 48 && value@[1] == 120);
        assert(value@.skip(2) =~= d);
    } else {
        assert(value@ == d);
    }
    assert(crate::chip::amp_config::unmarked(value@) == d);
}

/// The text `s` is `n` in hexadecimal, in small letters and without leading zeros.
pub open spec fn spells_hex(s: Seq<u8>, n: int) -> bool {
    &&& digits_in(s, 16)
    &&& worth_in(s, 16) == n
    &&& s.len() > 1 ==> s[0] != 48
    &&& forall|i: int| 0 <= i < s.len() ==> !(65 <= #[trigger] s[i] <= 90)
}

proof fn lemma_hex_spells(n: nat)
    ensures
        spells_hex(crate::chip::amp_config::hex(n), n as int),
        n > 0 ==> crate::chip::amp_config::hex(n)[0] != 48,
    decreases n,
{
    let s = crate::chip::amp_config::hex(n);
    if n < 16 {
        assert(s.drop_last().len() == 0);
        assert(worth_in(s.drop_last(), 16) == 0);
    } else {
        lemma_hex_spells(n / 16);
        let t = crate::chip::amp_config::hex(n / 16);
        assert(s.drop_last() =~= t);
        assert(s[0] == t[0]);
        assert forall|i: int| 0 <= i < s.len() implies 0 <= digit_worth(#[trigger] s[i]) < 16 && !(65
            <= s[i] <= 90) by {
            if i < t.len() {
                assert(s[i] == t[i]);
            }
        }
    }
}

/// The letter `c` is `b`, in upper case where it is a letter.
pub open spec fn is_upper(c: u8, b: u8) -> bool {
    if 97 <= b <= 122 {
        c == b - 32
    } else {
        c == b
    }
}

/// A constant is written under its name in upper case: a number as a `usize`, in its own
/// base, and a text as a string.
pub proof fn law_constant_is_written(name: &[u8], value: &[u8], r: Constant, out: Vec<u8>)
    requires
        forall|i: int| 0 <= i < name@.len() ==> (#[trigger] name@[i]) < 128,
        call_ensures(classify, (value,), r),
        call_ensures(constant_line, (name, value), out),
    ensures
        exists|n: Seq<u8>, v: Seq<u8>| #[trigger]
            written(out@, n, v, r) && n.len() == name@.len() && (forall|i: int|
                0 <= i < n.len() ==> is_upper(#[trigger] n[i], name@[i])) && (r matches
                Constant::Hex(x) ==> spells_hex(v, x as int)) && (r matches Constant::Dec(x)
                ==> spells(v, x as int)) && (r == Constant::Text ==> v == value@),
{
    let n = name@.map_values(|b: u8| crate::chip::amp_config::upper(b));
    let v = match r {
        Constant::Hex(x) => crate::chip::amp_config::hex(x as nat),
        Constant::Dec(x) => crate::text::digits(x as nat),
        Constant::Text => value@,
    };
    match r {
        Constant::Hex(x) => lemma_hex_spells(x as nat),
        Constant::Dec(x) => crate::laws::texts::lemma_digits_spell(x as nat),
        Constant::Text => {},
    }
    assert(written(out@, n, v, r));
}

/// The line of a constant with the name `n` and the value `v`.
pub open spec fn written(out: Seq<u8>, n: Seq<u8>, v: Seq<u8>, r: Constant) -> bool {
    let head = "pub const ".spec_bytes() + n;
    match r {
        Constant::Hex(_) => out == head + ": usize = 0x".spec_bytes() + v + ";\n".spec_bytes(),
        Constant::Dec(_) => out == head + ": usize = ".spec_bytes() + v + ";\n".spec_bytes(),
        Constant::Text => out == head + ": &str = \"".spec_bytes() + v + "\";\n".spec_bytes(),
    }
}

/// A list of settings written as constants.
pub open spec fn written_all(out: Seq<u8>, order: Seq<(Seq<u8>, Seq<u8>)>) -> bool
    decreases order.len(),
{
    if order.len() == 0 {
        out == "// Auto-generated from amp.config. Do not edit.\n\n".spec_bytes()
    } else {
        exists|a: Seq<u8>, l: Seq<u8>|
            out == #[trigger] (a + l) && written_all(a, order.drop_last())
                && crate::chip::amp_config::constant_of(order.last().0, order.last().1) == l
    }
}

proof fn lemma_written_all(order: Seq<(Seq<u8>, Seq<u8>)>)
    ensures
        written_all(crate::chip::amp_config::generated(order), order),
    decreases order.len(),
{
    if order.len() > 0 {
        lemma_written_all(order.drop_last());
        let a = crate::chip::amp_config::generated(order.drop_last());
        let l = crate::chip::amp_config::constant_of(order.last().0, order.last().1);
        assert(crate::chip::amp_config::generated(order) == a + l);
    }
}

/// The constants of a board are its settings, each once, behind a line that says where they
/// come from.
pub proof fn law_constants_of_a_board(c: &AmpConfig, out: Vec<u8>)
    requires
        c.wf(),
        c.plain_names(),
        call_ensures(AmpConfig::generate_rs, (c,), out),
    ensures
        exists|order: Seq<(Seq<u8>, Seq<u8>)>| #[trigger]
            written_all(out@, order) && (forall|i: int|
                0 <= i < order.len() ==> c@.contains_key((#[trigger] order[i]).0)
                    && c@[order[i].0] == order[i].1) && (forall|i: int, j: int|
                0 <= i < j < order.len() ==> (#[trigger] order[i]).0 != (#[trigger] order[j]).0)
                && (forall|k: Seq<u8>| #[trigger]
                c@.contains_key(k) ==> exists|i: int|
                    0 <= i < order.len() && (#[trigger] order[i]).0 == k),
{
    let order = choose|order: Seq<(Seq<u8>, Seq<u8>)>|
        #![trigger crate::chip::amp_config::generated(order)]
        c.lists(order) && out@ == crate::chip::amp_config::generated(order);
    crate::chip::amp_config::law_listed_once(*c, order);
    lemma_written_all(order);
}

/// The tree is this program's where one of the names of its root is `ov,rt-async`.
pub proof fn law_tree_is_claimed(names: &Vec<Vec<u8>>, r: bool, i: int)
    requires
        call_ensures(claims, (names,), r),
    ensures
        0 <= i < names@.len() && names@[i]@ == "ov,rt-async".spec_bytes() ==> r,
        r ==> exists|j: int|
            0 <= j < names@.len() && (#[trigger] names@[j])@ == "ov,rt-async".spec_bytes(),
{
    let all = names@.map_values(|v: Vec<u8>| v@);
    if 0 <= i < names@.len() && names@[i]@ == "ov,rt-async".spec_bytes() {
        assert(all[i] == "ov,rt-async".spec_bytes());
    }
    if r {
        let j = choose|j: int| 0 <= j < all.len() && #[trigger] all[j] == "ov,rt-async".spec_bytes();
        assert(names@[j]@ == "ov,rt-async".spec_bytes());
    }
}

/// The number of the four bytes of `b` from `at` on, high byte first.
pub open spec fn number_at(b: Seq<u8>, at: int) -> int {
    0x100_0000 * b[at] + 0x1_0000 * b[at + 1] + 0x100 * b[at + 2] + b[at + 3]
}

/// A tree may start at `at`: its first word is 0xd00dfeed, and its second, the size, is at
/// least the forty bytes of a header and at most a megabyte.
pub open spec fn may_start(memory: Seq<u8>, at: int) -> bool {
    &&& number_at(memory, at) == 0xd00d_feed
    &&& 40 <= number_at(memory, at + 4) <= 0x10_0000
}

proof fn lemma_number(b: Seq<u8>, at: int)
    requires
        0 <= at,
        at + 4 <= b.len(),
    ensures
        crate::chip::dtb::word(b, at) == number_at(b, at),
{
    reveal_with_fuel(crate::bytes::from_be, 5);
    let s = b.subrange(at, at + 4);
    assert(s.drop_last().drop_last().drop_last().drop_last().len() == 0);
}

proof fn lemma_candidate(memory: Seq<u8>, page: int)
    requires
        memory.len() >= 0x10_f000,
        0 <= page < 16,
    ensures
        candidate(memory, page) is Some <==> may_start(memory, page * 0x1000),
        candidate(memory, page) is Some ==> candidate(memory, page)->0 == memory.subrange(
            page * 0x1000,
            page * 0x1000 + number_at(memory, page * 0x1000 + 4),
        ),
{
    let at = page * 0x1000;
    let probe = memory.subrange(at, at + 0x1000);
    lemma_number(probe, 0);
    lemma_number(probe, 4);
    let total = number_at(memory, at + 4);
    assert(number_at(probe, 0) == number_at(memory, at));
    assert(number_at(probe, 4) == total);
    if 40 <= total <= 0x10_0000 {
        let tree = memory.subrange(at, at + total);
        lemma_number(tree, 0);
        assert(number_at(tree, 0) == number_at(memory, at));
    } else if 0 < total < 40 {
        assert(memory.subrange(at, at + total).len() < 40);
    }
}

/// Among what the root of a tree is compatible with is "ov,rt-async".
pub open spec fn names_this_program(tree: Seq<u8>) -> bool {
    root_compatible(tree).contains("ov,rt-async".spec_bytes())
}

/// The tree that may start at page `k` is read, and is not this program's.
pub open spec fn passed(memory: Seq<u8>, k: int) -> bool {
    let tree = memory.subrange(k * 0x1000, k * 0x1000 + number_at(memory, k * 0x1000 + 4));
    readable(tree) && !names_this_program(tree)
}

proof fn lemma_located(memory: Seq<u8>, page: int, k: int)
    requires
        memory.len() >= 0x10_f000,
        0 <= page <= 16,
        page <= k < 16,
    ensures
        match located(memory, page) {
            Located::At(at, n) => {
                &&& at % 0x1000 == 0
                &&& page * 0x1000 <= at < 0x1_0000
                &&& may_start(memory, at as int)
                &&& n == number_at(memory, at + 4)
                &&& readable(memory.subrange(at as int, at + n))
                &&& names_this_program(memory.subrange(at as int, at + n))
                &&& k * 0x1000 < at && may_start(memory, k * 0x1000) ==> passed(memory, k)
            },
            Located::Unreadable(at) => {
                &&& at % 0x1000 == 0
                &&& page * 0x1000 <= at < 0x1_0000
                &&& may_start(memory, at as int)
                &&& !readable(
                    memory.subrange(at as int, at + number_at(memory, at + 4)),
                )
                &&& k * 0x1000 < at && may_start(memory, k * 0x1000) ==> passed(memory, k)
            },
            Located::Nothing => may_start(memory, k * 0x1000) ==> passed(memory, k),
        },
    decreases 16 - page,
{
    lemma_candidate(memory, page);
    let goes_on = match candidate(memory, page) {
        None => true,
        Some(tree) => readable(tree) && !crate::chip::dtb::ours(root_compatible(tree)),
    };
    if goes_on {
        if page + 1 < 16 {
            lemma_located(
                memory,
                page + 1,
                if k > page {
                    k
                } else {
                    page + 1
                },
            );
        } else {
            assert(located(memory, 16) == Located::Nothing);
        }
    }
}

/// The search looks at the first sixteen pages, one after the other, and ends at the first
/// tree that is this program's or cannot be read: what it finds starts at a page, has a
/// header, and is as long as its header says, and every tree at an earlier page (at every
/// page where nothing is found) was read and is another's.
pub proof fn law_tree_is_located(memory: &[u8], r: Located, k: int)
    requires
        memory@.len() >= 0x10_f000,
        0 <= k < 16,
        call_ensures(locate_rtasync_dtb, (memory,), r),
    ensures
        match r {
            Located::At(at, n) => {
                &&& at % 0x1000 == 0
                &&& at < 0x1_0000
                &&& may_start(memory@, at as int)
                &&& n == number_at(memory@, at + 4)
                &&& readable(memory@.subrange(at as int, at + n))
                &&& names_this_program(memory@.subrange(at as int, at + n))
                &&& k * 0x1000 < at && may_start(memory@, k * 0x1000) ==> passed(memory@, k)
            },
            Located::Unreadable(at) => {
                &&& at % 0x1000 == 0
                &&& at < 0x1_0000
                &&& may_start(memory@, at as int)
                &&& !readable(
                    memory@.subrange(at as int, at + number_at(memory@, at + 4)),
                )
                &&& k * 0x1000 < at && may_start(memory@, k * 0x1000) ==> passed(memory@, k)
            },
            Located::Nothing => may_start(memory@, k * 0x1000) ==> passed(memory@, k),
        },
{
    lemma_located(memory@, 0, k);
}

/// The part of the tree `b` whose offset and size its header gives at `at` and `len`.
pub open spec fn part_of(b: Seq<u8>, at: int, len: int) -> Seq<u8> {
    b.subrange(number_at(b, at), number_at(b, at) + number_at(b, len))
}

/// The tree `b` has a header, and the part whose offset and size stand there at `at` and
/// `len` lies in the tree.
pub open spec fn has_part(b: Seq<u8>, at: int, len: int) -> bool {
    &&& b.len() >= 40
    &&& number_at(b, 0) == 0xd00d_feed
    &&& number_at(b, at) + number_at(b, len) <= b.len()
}

/// At `at` of the strings stands `name`, and a zero behind it.
pub open spec fn stands(strings: Seq<u8>, at: int, name: Seq<u8>) -> bool {
    &&& 0 <= at
    &&& at + name.len() < strings.len()
    &&& strings.subrange(at, at + name.len()) == name
    &&& strings[at + name.len()] == 0
    &&& forall|i: int| 0 <= i < name.len() ==> #[trigger] name[i] != 0
}

proof fn lemma_zero(s: Seq<u8>, n: nat)
    requires
        n < s.len(),
        s[n as int] == 0,
        forall|i: int| 0 <= i < n ==> #[trigger] s[i] != 0,
    ensures
        zero_at(s) == Some(n),
    decreases n,
{
    if n > 0 {
        let t = s.drop_first();
        assert forall|i: int| 0 <= i < n - 1 implies #[trigger] t[i] != 0 by {
            assert(t[i] == s[i + 1]);
        }
        lemma_zero(t, (n - 1) as nat);
    }
}

proof fn lemma_stands(strings: Seq<u8>, at: int, name: Seq<u8>)
    requires
        stands(strings, at, name),
    ensures
        string_at(strings, at) == Some(name),
{
    let s = strings.skip(at);
    assert forall|i: int| 0 <= i < name.len() implies #[trigger] s[i] != 0 by {
        assert(s[i] == strings.subrange(at, at + name.len())[i]);
        assert(name[i] != 0);
    }
    lemma_zero(s, name.len());
    assert(s.take(name.len() as int) =~= name);
}

proof fn lemma_root_begins(s: Seq<u8>, strings: Option<Seq<u8>>)
    requires
        s.len() >= 8,
        number_at(s, 0) == 1,
        s[4] == 0,
    ensures
        walkable(s, strings, crate::chip::dtb::outside()) == walkable(
            s.skip(8),
            strings,
            crate::chip::dtb::at_root(),
        ),
{
    lemma_number(s, 0);
    let rest = s.skip(4);
    lemma_zero(rest, 0);
    assert(vstd::utf8::valid_utf8(rest.take(0)));
    assert(rest.skip(4) =~= s.skip(8));
}

/// A tree whose nodes do not lie in it cannot be read; neither can one whose nodes begin
/// with the end of a node.
pub proof fn law_root_is_missing(b: &[u8], r: bool)
    requires
        b@.len() >= 40,
        number_at(b@, 0) == 0xd00d_feed,
        call_ensures(root_readable, (b,), r),
    ensures
        !has_part(b@, 8, 36) ==> !r,
        has_part(b@, 8, 36) && number_at(b@, 36) >= 4 && number_at(part_of(b@, 8, 36), 0) == 2
            ==> !r,
{
    lemma_number(b@, 0);
    lemma_number(b@, 8);
    lemma_number(b@, 12);
    lemma_number(b@, 32);
    lemma_number(b@, 36);
    if has_part(b@, 8, 36) && number_at(b@, 36) >= 4 {
        lemma_number(part_of(b@, 8, 36), 0);
    }
}

/// A root without a name and without properties can be read.
pub proof fn law_bare_root_is_read(b: &[u8], r: bool)
    requires
        has_part(b@, 8, 36),
        number_at(b@, 36) >= 12,
        number_at(part_of(b@, 8, 36), 0) == 1,
        number_at(part_of(b@, 8, 36), 4) == 0,
        number_at(part_of(b@, 8, 36), 8) == 2,
        call_ensures(root_readable, (b,), r),
    ensures
        r,
{
    lemma_number(b@, 0);
    lemma_number(b@, 8);
    lemma_number(b@, 12);
    lemma_number(b@, 32);
    lemma_number(b@, 36);
    let s = part_of(b@, 8, 36);
    lemma_root_begins(s, part(b@, number_at(b@, 12), number_at(b@, 32)));
    let t = s.skip(8);
    assert(number_at(t, 0) == number_at(s, 8));
    lemma_number(t, 0);
}

/// A root with one property can be read, whatever the property is called and holds, but
/// for three things: one called "ranges", one called "interrupt-parent" of less than four
/// bytes, and one that says how many cells something takes and has less than four bytes.
pub proof fn law_root_with_a_property(b: &[u8], r: bool, name: Seq<u8>)
    requires
        has_part(b@, 8, 36),
        has_part(b@, 12, 32),
        ({
            let s = part_of(b@, 8, 36);
            let n = number_at(s, 12);
            &&& s.len() >= 24
            &&& number_at(s, 0) == 1
            &&& number_at(s, 4) == 0
            &&& number_at(s, 8) == 3
            &&& stands(part_of(b@, 12, 32), number_at(s, 16), name)
            &&& 20 + (n + 3) / 4 * 4 + 4 <= s.len()
            &&& number_at(s, 20 + (n + 3) / 4 * 4) == 2
        }),
        call_ensures(root_readable, (b,), r),
    ensures
        ({
            let n = number_at(part_of(b@, 8, 36), 12);
            let cells = name == "#address-cells".spec_bytes() || name == "#size-cells".spec_bytes()
                || name == "#clock-cells".spec_bytes() || name
                == "#interrupt-cells".spec_bytes() || name == "#gpio-cells".spec_bytes() || name
                == "#dma-cells".spec_bytes() || name == "#cooling-cells".spec_bytes();
            r <==> {
                &&& name != "ranges".spec_bytes()
                &&& cells || name == "interrupt-parent".spec_bytes() ==> n >= 4
            }
        }),
{
    lemma_number(b@, 0);
    lemma_number(b@, 8);
    lemma_number(b@, 12);
    lemma_number(b@, 32);
    lemma_number(b@, 36);
    let s = part_of(b@, 8, 36);
    let strings = part_of(b@, 12, 32);
    lemma_root_begins(s, Some(strings));
    let t = s.skip(8);
    let rest = t.skip(4);
    let n = number_at(s, 12);
    assert(number_at(t, 0) == number_at(s, 8));
    assert(number_at(rest, 0) == n);
    assert(number_at(rest, 4) == number_at(s, 16));
    lemma_number(t, 0);
    lemma_number(rest, 0);
    lemma_number(rest, 4);
    lemma_stands(strings, number_at(s, 16), name);
    let last = rest.skip(8).skip((n + 3) / 4 * 4);
    assert(number_at(last, 0) == number_at(s, 20 + (n + 3) / 4 * 4));
    lemma_number(last, 0);
    let w = crate::chip::dtb::noted(crate::chip::dtb::at_root(), strings, number_at(s, 16), n);
    assert(walkable(last, Some(strings), w) == w.sound);
}

/// A property whose value ends with the nodes is judged; one whose value is cut off there
/// is not, and the root can be read.
pub proof fn law_last_property(b: &[u8], r: bool)
    requires
        has_part(b@, 8, 36),
        has_part(b@, 12, 32),
        ({
            let s = part_of(b@, 8, 36);
            &&& s.len() >= 20
            &&& number_at(s, 0) == 1
            &&& number_at(s, 4) == 0
            &&& number_at(s, 8) == 3
            &&& stands(part_of(b@, 12, 32), number_at(s, 16), "#size-cells".spec_bytes())
            &&& number_at(s, 12) < 4
        }),
        call_ensures(root_readable, (b,), r),
    ensures
        r <==> part_of(b@, 8, 36).len() < 20 + number_at(part_of(b@, 8, 36), 12),
{
    lemma_number(b@, 0);
    lemma_number(b@, 8);
    lemma_number(b@, 12);
    lemma_number(b@, 32);
    lemma_number(b@, 36);
    let s = part_of(b@, 8, 36);
    let strings = part_of(b@, 12, 32);
    lemma_root_begins(s, Some(strings));
    let t = s.skip(8);
    let rest = t.skip(4);
    assert(number_at(t, 0) == number_at(s, 8));
    assert(number_at(rest, 0) == number_at(s, 12));
    assert(number_at(rest, 4) == number_at(s, 16));
    lemma_number(t, 0);
    lemma_number(rest, 0);
    lemma_number(rest, 4);
    lemma_stands(strings, number_at(s, 16), "#size-cells".spec_bytes());
}

} // verus!
