//! The configuration of a board: lines of names and values, from which
//! constants are written. The text is UTF-8; names are ASCII.

use crate::text::{put_bytes, put_str, put_u64, same, trim};
use vstd::prelude::*;
use vstd::slice::slice_subrange;
use vstd::string::*;

verus! {

/// Every byte is one of ASCII.
pub open spec fn ascii(s: Seq<u8>) -> bool {
    forall|i: int| 0 <= i < s.len() ==> (#[trigger] s[i]) < 128
}

/// Whether every byte is one of ASCII.
fn is_ascii(s: &[u8]) -> (r: bool)
    ensures
        r == ascii(s@),
{
    let mut i: usize = 0;
    while i < s.len()
        invariant
            i <= s@.len(),
            forall|j: int| 0 <= j < i ==> (#[trigger] s@[j]) < 128,
        decreases s@.len() - i,
    {
        if s[i] >= 128 {
            return false;
        }
        i = i + 1;
    }
    true
}

/// The offset of the first such byte; the length where there is none.
pub open spec fn first(s: Seq<u8>, b: u8) -> int
    decreases s.len(),
{
    if s.len() == 0 || s[0] == b {
        0
    } else {
        1 + first(s.drop_first(), b)
    }
}

proof fn lemma_first(s: Seq<u8>, b: u8)
    ensures
        0 <= first(s, b) <= s.len(),
    decreases s.len(),
{
    if s.len() > 0 && s[0] != b {
        lemma_first(s.drop_first(), b);
    }
}

/// The offset of the first such byte from `from` on.
fn find(s: &[u8], from: usize, b: u8) -> (r: usize)
    requires
        from <= s@.len(),
    ensures
        from <= r <= s@.len(),
        r == from + first(s@.skip(from as int), b),
{
    let mut i: usize = from;
    while i < s.len() && s[i] != b
        invariant
            from <= i <= s@.len(),
            from + first(s@.skip(from as int), b) == i + first(s@.skip(i as int), b),
        decreases s@.len() - i,
    {
        assert(s@.skip(i as int).drop_first() =~= s@.skip(i + 1));
        i = i + 1;
    }
    i
}

/// A text without the white space around it.
pub open spec fn bare(s: Seq<u8>) -> Seq<u8> {
    crate::text::trim_back(crate::text::trim_front(s))
}

/// The name and the value of a line, unless it is empty, a comment or without
/// an equals sign.
pub open spec fn setting(line: Seq<u8>) -> Option<(Seq<u8>, Seq<u8>)> {
    let t = bare(line);
    let n = first(t, 61);
    if t.len() == 0 || t[0] == 35 || n == t.len() {
        None
    } else {
        Some((bare(t.take(n)), bare(t.skip(n + 1))))
    }
}

/// The settings of a text, after those before it: a later line wins.
pub open spec fn settings(text: Seq<u8>, before: Map<Seq<u8>, Seq<u8>>) -> Map<Seq<u8>, Seq<u8>>
    decreases text.len(),
{
    if text.len() == 0 {
        before
    } else {
        let n = first(text, 10);
        let now = match setting(text.take(n)) {
            Some((name, value)) => before.insert(name, value),
            None => before,
        };
        if n < 0 || n >= text.len() {
            now
        } else {
            settings(text.skip(n + 1), now)
        }
    }
}

/// A setting.
pub struct Setting {
    /// The name.
    pub name: Vec<u8>,
    /// The value.
    pub value: Vec<u8>,
}

/// The settings of a board.
pub struct AmpConfig {
    entries: Vec<Setting>,
}

impl View for AmpConfig {
    type V = Map<Seq<u8>, Seq<u8>>;

    closed spec fn view(&self) -> Map<Seq<u8>, Seq<u8>> {
        held(self.entries@)
    }
}

/// The settings that a list holds.
spec fn held(entries: Seq<Setting>) -> Map<Seq<u8>, Seq<u8>> {
    Map::new(
        |k: Seq<u8>| exists|i: int| 0 <= i < entries.len() && #[trigger] entries[i].name@ == k,
        |k: Seq<u8>|
            entries[choose|i: int| 0 <= i < entries.len() && #[trigger] entries[i].name@ == k].value@,
    )
}

proof fn lemma_held(entries: Seq<Setting>, i: int)
    requires
        forall|a: int, b: int|
            0 <= a < b < entries.len() ==> #[trigger] entries[a].name@ != #[trigger] entries[b].name@,
        0 <= i < entries.len(),
    ensures
        held(entries).contains_key(entries[i].name@),
        held(entries)[entries[i].name@] == entries[i].value@,
{
    let k = entries[i].name@;
    let j = choose|j: int| 0 <= j < entries.len() && #[trigger] entries[j].name@ == k;
    assert(entries[i].name@ == k);
    if j < i {
        assert(entries[j].name@ != entries[i].name@);
    } else if i < j {
        assert(entries[i].name@ != entries[j].name@);
    }
}

fn copied(s: &[u8]) -> (r: Vec<u8>)
    ensures
        r@ == s@,
{
    let mut r: Vec<u8> = Vec::new();
    put_bytes(&mut r, s);
    assert(r@ =~= s@);
    r
}

impl AmpConfig {
    /// Each name is there once.
    pub closed spec fn wf(&self) -> bool {
        forall|a: int, b: int|
            0 <= a < b < self.entries@.len() ==> #[trigger] self.entries@[a].name@
                != #[trigger] self.entries@[b].name@
    }

    /// Every name is ASCII, so that its upper case is that of its bytes.
    pub open spec fn plain_names(&self) -> bool {
        forall|k: Seq<u8>| #[trigger] self@.contains_key(k) ==> ascii(k)
    }

    /// Whether every name is ASCII.
    pub fn has_plain_names(&self) -> (r: bool)
        requires
            self.wf(),
        ensures
            r == self.plain_names(),
    {
        let mut i: usize = 0;
        while i < self.entries.len()
            invariant
                i <= self.entries@.len(),
                self.wf(),
                forall|j: int| 0 <= j < i ==> ascii((#[trigger] self.entries@[j]).name@),
            decreases self.entries@.len() - i,
        {
            if !is_ascii(self.entries[i].name.as_slice()) {
                proof {
                    lemma_held(self.entries@, i as int);
                    assert(self@.contains_key(self.entries@[i as int].name@));
                }
                return false;
            }
            i = i + 1;
        }
        proof {
            assert forall|k: Seq<u8>| #[trigger] self@.contains_key(k) implies ascii(k) by {
                let j = choose|j: int|
                    0 <= j < self.entries@.len() && #[trigger] self.entries@[j].name@ == k;
                assert(ascii(self.entries@[j].name@));
            }
        }
        true
    }

    fn position(&self, name: &[u8]) -> (r: Option<usize>)
        ensures
            match r {
                Some(i) => i < self.entries@.len() && self.entries@[i as int].name@ == name@,
                None => forall|i: int|
                    0 <= i < self.entries@.len() ==> #[trigger] self.entries@[i].name@ != name@,
            },
    {
        let mut i: usize = 0;
        while i < self.entries.len()
            invariant
                i <= self.entries@.len(),
                forall|j: int| 0 <= j < i ==> #[trigger] self.entries@[j].name@ != name@,
            decreases self.entries@.len() - i,
        {
            if same(self.entries[i].name.as_slice(), name) {
                return Some(i);
            }
            i = i + 1;
        }
        None
    }

    /// Sets a name to a value.
    pub fn insert(&mut self, name: &[u8], value: &[u8])
        requires
            old(self).wf(),
        ensures
            final(self).wf(),
            final(self)@ == old(self)@.insert(name@, value@),
    {
        let ghost before = self.entries@;
        let setting = Setting { name: copied(name), value: copied(value) };
        let ghost mut at: int = 0;
        match self.position(name) {
            Some(i) => {
                proof {
                    at = i as int;
                }
                self.entries.set(i, setting);
            },
            None => {
                proof {
                    at = before.len() as int;
                }
                self.entries.push(setting);
            },
        }
        proof {
            let now = self.entries@;
            assert(now[at].name@ == name@ && now[at].value@ == value@);
            assert forall|k: Seq<u8>| #[trigger] held(now).contains_key(k) <==> held(
                before,
            ).insert(name@, value@).contains_key(k) by {
                if held(now).contains_key(k) {
                    let j = choose|j: int| 0 <= j < now.len() && #[trigger] now[j].name@ == k;
                    if j != at {
                        assert(before[j].name@ == k);
                    }
                }
                if held(before).contains_key(k) {
                    let j = choose|j: int| 0 <= j < before.len() && #[trigger] before[j].name@ == k;
                    assert(now[j].name@ == k);
                }
            }
            assert forall|k: Seq<u8>| #[trigger] held(now).contains_key(k) implies held(now)[k]
                == held(before).insert(name@, value@)[k] by {
                let j = choose|j: int| 0 <= j < now.len() && #[trigger] now[j].name@ == k;
                lemma_held(now, j);
                if j != at {
                    assert(now[j] == before[j]);
                    lemma_held(before, j);
                    assert(now[j].name@ != now[at].name@) by {
                        if j < at {
                            assert(now[j].name@ != now[at].name@);
                        } else {
                            assert(now[at].name@ != now[j].name@);
                        }
                    }
                }
            }
            assert(held(now) =~= held(before).insert(name@, value@));
        }
    }

    /// The value of a name.
    pub fn get(&self, name: &[u8]) -> (r: Option<&[u8]>)
        requires
            self.wf(),
        ensures
            match r {
                Some(v) => self@.contains_key(name@) && v@ == self@[name@],
                None => !self@.contains_key(name@),
            },
    {
        match self.position(name) {
            Some(i) => {
                proof {
                    lemma_held(self.entries@, i as int);
                }
                Some(self.entries[i].value.as_slice())
            },
            None => None,
        }
    }

    /// The settings of a text.
    pub fn load_amp_config(text: &[u8]) -> (r: Self)
        ensures
            r.wf(),
            r@ == settings(text@, Map::empty()),
    {
        let mut r = AmpConfig { entries: Vec::new() };
        assert(r@ =~= Map::empty());
        let mut pos: usize = 0;
        assert(text@.skip(0) =~= text@);
        while pos < text.len()
            invariant
                pos <= text@.len(),
                r.wf(),
                settings(text@, Map::empty()) == settings(text@.skip(pos as int), r@),
            decreases text@.len() - pos,
        {
            let end: usize = find(text, pos, 10);
            let line = slice_subrange(text, pos, end);
            let ghost rest = text@.skip(pos as int);
            assert(rest.take(end - pos) =~= line@);
            let t = trim(line);
            if t.len() > 0 && t[0] != 35 {
                let n: usize = find(t, 0, 61);
                assert(t@.skip(0) =~= t@);
                if n < t.len() {
                    let name = trim(slice_subrange(t, 0, n));
                    let value = trim(slice_subrange(t, n + 1, t.len()));
                    assert(t@.subrange(0, n as int) =~= t@.take(n as int));
                    assert(t@.subrange(n + 1, t@.len() as int) =~= t@.skip(n + 1));
                    r.insert(name, value);
                }
            }
            if end < text.len() {
                assert(rest.skip(end - pos + 1) =~= text@.skip(end + 1));
                pos = end + 1;
            } else {
                assert(text@.skip(text@.len() as int) =~= Seq::<u8>::empty());
                pos = text.len();
            }
        }
        r
    }

    /// The constants of the settings, one line for each, in the order in which
    /// the names first came.
    pub fn generate_rs(&self) -> (r: Vec<u8>)
        requires
            self.wf(),
            self.plain_names(),
        ensures
            exists|order: Seq<(Seq<u8>, Seq<u8>)>|
                #![trigger generated(order)]
                self.lists(order) && r@ == generated(order),
    {
        let mut out: Vec<u8> = Vec::new();
        put_str(&mut out, "// Auto-generated from amp.config. Do not edit.\n\n");
        let ghost order = self.entries@.map_values(|e: Setting| (e.name@, e.value@));
        assert(order.take(0) =~= Seq::empty());
        assert(out@ =~= generated(order.take(0)));
        let mut i: usize = 0;
        while i < self.entries.len()
            invariant
                i <= self.entries@.len(),
                order == self.entries@.map_values(|e: Setting| (e.name@, e.value@)),
                out@ == generated(order.take(i as int)),
                self.wf(),
                self.plain_names(),
            decreases self.entries@.len() - i,
        {
            proof {
                lemma_held(self.entries@, i as int);
                assert(self@.contains_key(self.entries@[i as int].name@));
            }
            let mut line = constant_line(
                self.entries[i].name.as_slice(),
                self.entries[i].value.as_slice(),
            );
            out.append(&mut line);
            assert(order.take(i + 1).drop_last() =~= order.take(i as int));
            i = i + 1;
        }
        proof {
            assert(order.take(order.len() as int) =~= order);
            assert(self.lists(order));
        }
        out
    }

    /// A list of all settings.
    pub closed spec fn lists(&self, order: Seq<(Seq<u8>, Seq<u8>)>) -> bool {
        order == self.entries@.map_values(|e: Setting| (e.name@, e.value@))
    }
}

/// A list of all settings has each of them once.
pub proof fn law_listed_once(c: AmpConfig, order: Seq<(Seq<u8>, Seq<u8>)>)
    requires
        c.wf(),
        c.lists(order),
    ensures
        forall|i: int|
            0 <= i < order.len() ==> c@.contains_key((#[trigger] order[i]).0) && c@[order[i].0]
                == order[i].1,
        forall|i: int, j: int|
            0 <= i < j < order.len() ==> (#[trigger] order[i]).0 != (#[trigger] order[j]).0,
        forall|k: Seq<u8>| #[trigger]
            c@.contains_key(k) ==> exists|i: int|
                0 <= i < order.len() && (#[trigger] order[i]).0 == k,
{
    assert forall|i: int| 0 <= i < order.len() implies c@.contains_key((#[trigger] order[i]).0)
        && c@[order[i].0] == order[i].1 by {
        lemma_held(c.entries@, i);
    }
    assert forall|i: int, j: int| 0 <= i < j < order.len() implies (#[trigger] order[i]).0 != (
    #[trigger] order[j]).0 by {
        assert(c.entries@[i].name@ != c.entries@[j].name@);
    }
    assert forall|k: Seq<u8>| #[trigger] c@.contains_key(k) implies exists|i: int|
        0 <= i < order.len() && (#[trigger] order[i]).0 == k by {
        let j = choose|j: int| 0 <= j < c.entries@.len() && #[trigger] c.entries@[j].name@ == k;
        assert(order[j].0 == k);
    }
}

/// The text of the constants for a list of settings.
pub open spec fn generated(order: Seq<(Seq<u8>, Seq<u8>)>) -> Seq<u8>
    decreases order.len(),
{
    if order.len() == 0 {
        "// Auto-generated from amp.config. Do not edit.\n\n".spec_bytes()
    } else {
        generated(order.drop_last()) + constant_of(order.last().0, order.last().1)
    }
}

/// The value of a digit; -1 where it is none.
pub open spec fn digit_value(b: u8) -> int {
    if 48 <= b <= 57 {
        b - 48
    } else if 97 <= b <= 102 {
        b - 87
    } else if 65 <= b <= 70 {
        b - 55
    } else {
        -1
    }
}

/// The number that some digits stand for.
pub open spec fn radix_value(s: Seq<u8>, radix: int) -> int
    decreases s.len(),
{
    if s.len() == 0 {
        0
    } else {
        radix_value(s.drop_last(), radix) * radix + digit_value(s.last())
    }
}

/// At least one digit, and digits only.
pub open spec fn all_digits(s: Seq<u8>, radix: int) -> bool {
    s.len() > 0 && forall|i: int|
        0 <= i < s.len() ==> 0 <= digit_value(#[trigger] s[i]) < radix
}

/// The 64-bit number that a text stands for: digits, after a plus sign or none.
pub open spec fn number(s: Seq<u8>, radix: int) -> Option<u64> {
    let d = if s.len() > 0 && s[0] == 43 {
        s.skip(1)
    } else {
        s
    };
    if all_digits(d, radix) && radix_value(d, radix) <= u64::MAX {
        Some(radix_value(d, radix) as u64)
    } else {
        None
    }
}

/// A text without the hexadecimal marks that it starts with.
pub open spec fn unmarked(s: Seq<u8>) -> Seq<u8>
    decreases s.len(),
{
    if s.len() >= 2 && s[0] == 48 && s[1] == 120 {
        unmarked(s.skip(2))
    } else {
        s
    }
}

/// What a value is: a number in hexadecimal where it can be read as one, else a
/// decimal number, else a text.
#[derive(Debug, Clone, Copy, PartialEq, Eq, Structural)]
pub enum Constant {
    /// A hexadecimal number.
    Hex(u64),
    /// A decimal number.
    Dec(u64),
    /// A text.
    Text,
}

/// What a value is.
pub open spec fn constant(value: Seq<u8>) -> Constant {
    match number(unmarked(value), 16) {
        Some(n) => Constant::Hex(n),
        None => match number(value, 10) {
            Some(n) => Constant::Dec(n),
            None => Constant::Text,
        },
    }
}

/// An upper-case letter in place of a lower-case one.
pub open spec fn upper(b: u8) -> u8 {
    if 97 <= b <= 122 {
        (b - 32) as u8
    } else {
        b
    }
}

/// The hexadecimal digits of a number.
pub open spec fn hex(n: nat) -> Seq<u8>
    decreases n,
{
    let d = n % 16;
    let last = if d < 10 {
        (48 + d) as u8
    } else {
        (87 + d) as u8
    };
    if n < 16 {
        seq![last]
    } else {
        hex(n / 16).push(last)
    }
}

/// The line of a constant.
pub open spec fn constant_of(name: Seq<u8>, value: Seq<u8>) -> Seq<u8> {
    let head = "pub const ".spec_bytes() + name.map_values(|b: u8| upper(b));
    match constant(value) {
        Constant::Hex(n) => head + ": usize = 0x".spec_bytes() + hex(n as nat) + ";\n".spec_bytes(),
        Constant::Dec(n) => head + ": usize = ".spec_bytes() + crate::text::digits(n as nat)
            + ";\n".spec_bytes(),
        Constant::Text => head + ": &str = \"".spec_bytes() + value + "\";\n".spec_bytes(),
    }
}

proof fn lemma_radix_grows(s: Seq<u8>, radix: int, n: int)
    requires
        all_digits(s, radix),
        radix >= 1,
        0 <= n <= s.len(),
    ensures
        0 <= radix_value(s.take(n), radix) <= radix_value(s, radix),
    decreases s.len() - n,
{
    lemma_radix_positive(s, radix, n);
    if n < s.len() {
        lemma_radix_grows(s, radix, n + 1);
        assert(s.take(n + 1).drop_last() =~= s.take(n));
        let v = radix_value(s.take(n), radix);
        assert(v <= v * radix) by (nonlinear_arith)
            requires
                v >= 0,
                radix >= 1,
        ;
        assert(0 <= digit_value(s[n]));
    } else {
        assert(s.take(n) =~= s);
    }
}

proof fn lemma_radix_positive(s: Seq<u8>, radix: int, n: int)
    requires
        all_digits(s, radix),
        radix >= 1,
        0 <= n <= s.len(),
    ensures
        0 <= radix_value(s.take(n), radix),
    decreases n,
{
    if n > 0 {
        lemma_radix_positive(s, radix, n - 1);
        assert(s.take(n).drop_last() =~= s.take(n - 1));
        let v = radix_value(s.take(n - 1), radix);
        assert(0 <= v * radix) by (nonlinear_arith)
            requires
                v >= 0,
                radix >= 1,
        ;
        assert(0 <= digit_value(s[n - 1]));
    }
}

/// The 64-bit number that a text stands for.
fn parse_number(s: &[u8], radix: u64) -> (r: Option<u64>)
    requires
        radix == 10 || radix == 16,
    ensures
        r == number(s@, radix as int),
{
    let start: usize = if s.len() > 0 && s[0] == 43 { 1 } else { 0 };
    let ghost d = if start == 1 {
        s@.skip(1)
    } else {
        s@
    };
    if start == s.len() {
        return None;
    }
    let mut n: u64 = 0;
    let mut i: usize = start;
    assert(d.take(0) =~= seq![]);
    while i < s.len()
        invariant
            radix == 10 || radix == 16,
            start <= 1,
            start <= i <= s@.len(),
            d == (if start == 1 {
                s@.skip(1)
            } else {
                s@
            }),
            d.len() == s@.len() - start > 0,
            n == radix_value(d.take(i - start), radix as int),
            forall|j: int| 0 <= j < i - start ==> 0 <= digit_value(#[trigger] d[j]) < radix,
            number(s@, radix as int) == (if all_digits(d, radix as int) && radix_value(
                d,
                radix as int,
            ) <= u64::MAX {
                Some(radix_value(d, radix as int) as u64)
            } else {
                None
            }),
        decreases s@.len() - i,
    {
        let b: u8 = s[i];
        assert(b == d[i - start]);
        let v: u64 = if b >= 48 && b <= 57 {
            (b - 48) as u64
        } else if b >= 97 && b <= 102 {
            (b - 87) as u64
        } else if b >= 65 && b <= 70 {
            (b - 55) as u64
        } else {
            return None;
        };
        if v >= radix {
            return None;
        }
        assert(d.take(i - start + 1).drop_last() =~= d.take(i - start));
        proof {
            if all_digits(d, radix as int) {
                lemma_radix_grows(d, radix as int, i - start + 1);
            }
            assert(radix_value(d.take(i - start + 1), radix as int) == n * radix + v);
        }
        let shifted: u64 = match n.checked_mul(radix) {
            Some(x) => x,
            None => {
                return None;
            },
        };
        n = match shifted.checked_add(v) {
            Some(x) => x,
            None => {
                return None;
            },
        };
        i = i + 1;
    }
    assert(d.take(d.len() as int) =~= d);
    Some(n)
}

/// What a value is.
pub fn classify(value: &[u8]) -> (r: Constant)
    ensures
        r == constant(value@),
{
    let mut pos: usize = 0;
    assert(value@.skip(0) =~= value@);
    while value.len() - pos >= 2 && value[pos] == 48 && value[pos + 1] == 120
        invariant
            pos <= value@.len(),
            unmarked(value@) == unmarked(value@.skip(pos as int)),
        decreases value@.len() - pos,
    {
        assert(value@.skip(pos as int).skip(2) =~= value@.skip(pos + 2));
        pos = pos + 2;
    }
    assert(value@.subrange(pos as int, value@.len() as int) =~= value@.skip(pos as int));
    match parse_number(slice_subrange(value, pos, value.len()), 16) {
        Some(n) => Constant::Hex(n),
        None => match parse_number(value, 10) {
            Some(n) => Constant::Dec(n),
            None => Constant::Text,
        },
    }
}

fn put_hex(out: &mut Vec<u8>, n: u64)
    ensures
        final(out)@ == old(out)@ + hex(n as nat),
    decreases n,
{
    if n >= 16 {
        put_hex(out, n / 16);
    }
    let d: u8 = (n % 16) as u8;
    out.push(if d < 10 { 48 + d } else { 87 + d });
    assert(out@ =~= old(out)@ + hex(n as nat));
}

/// The line of a constant.
pub fn constant_line(name: &[u8], value: &[u8]) -> (out: Vec<u8>)
    requires
        ascii(name@),
    ensures
        out@ == constant_of(name@, value@),
{
    let mut out: Vec<u8> = Vec::new();
    put_str(&mut out, "pub const ");
    let ghost head = "pub const ".spec_bytes();
    let mut i: usize = 0;
    while i < name.len()
        invariant
            i <= name@.len(),
            out@ == head + name@.map_values(|b: u8| upper(b)).take(i as int),
        decreases name@.len() - i,
    {
        let b: u8 = name[i];
        out.push(if b >= 97 && b <= 122 { b - 32 } else { b });
        i = i + 1;
        assert(out@ =~= head + name@.map_values(|b: u8| upper(b)).take(i as int));
    }
    assert(name@.map_values(|b: u8| upper(b)).take(i as int) =~= name@.map_values(
        |b: u8| upper(b),
    ));
    match classify(value) {
        Constant::Hex(n) => {
            put_str(&mut out, ": usize = 0x");
            put_hex(&mut out, n);
            put_str(&mut out, ";\n");
        },
        Constant::Dec(n) => {
            put_str(&mut out, ": usize = ");
            put_u64(&mut out, n);
            put_str(&mut out, ";\n");
        },
        Constant::Text => {
            put_str(&mut out, ": &str = \"");
            put_bytes(&mut out, value);
            put_str(&mut out, "\";\n");
        },
    }
    assert(out@ =~= constant_of(name@, value@));
    out
}

/// The hexadecimal digits of a number are read back as that number.
pub proof fn law_hex_round_trip(n: u64)
    ensures
        number(hex(n as nat), 16) == Some(n),
{
    lemma_hex(n as nat);
}

proof fn lemma_hex(n: nat)
    ensures
        all_digits(hex(n), 16),
        radix_value(hex(n), 16) == n,
    decreases n,
{
    let s = hex(n);
    if n < 16 {
        assert(s.drop_last() =~= seq![]);
        assert(radix_value(s.drop_last(), 16) == 0);
    } else {
        lemma_hex(n / 16);
        assert(s.drop_last() =~= hex(n / 16));
        assert forall|i: int| 0 <= i < s.len() implies 0 <= digit_value(#[trigger] s[i]) < 16 by {
            if i < s.len() - 1 {
                assert(s[i] == hex(n / 16)[i]);
            }
        }
    }
}

} // verus!
