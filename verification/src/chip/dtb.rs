//! The device tree that another stage has left in memory.
//!
//! The memory is searched page by page for a tree whose root says that it is
//! this program's.

use crate::bytes::from_be;
use crate::descriptor::utf8_str;
use crate::text::same;
use vstd::prelude::*;
use vstd::slice::slice_subrange;
use vstd::string::*;
use vstd::utf8::valid_utf8;

verus! {

/// Bytes between two places where a tree may start.
pub const SCAN_STEP: usize = 0x1000;

/// Places where a tree may start.
pub const SCAN_PAGES: usize = 16;

/// Bytes that are looked at first.
pub const PROBE_LEN: usize = 0x1000;

/// Largest tree.
pub const MAX_TREE: u32 = 0x10_0000;

/// Bytes that are searched: the last place, and the largest tree there.
pub const SCAN_LEN: usize = 0x10_f000;

/// First word of a tree.
pub const MAGIC: u32 = 0xd00d_feed;

/// The big-endian word at an offset.
pub open spec fn word(b: Seq<u8>, at: int) -> nat {
    from_be(b.subrange(at, at + 4))
}

/// The bytes start with the header of a tree.
pub open spec fn headed(b: Seq<u8>) -> bool {
    b.len() >= 40 && word(b, 0) == MAGIC
}

/// `fdt_parser::Fdt::from_bytes`, then `total_size`: the size that the header of
/// a tree gives, where the bytes start with one. The header is the first forty
/// bytes; it is one where its first word, big endian, is the magic number, and
/// the second word is the size. No other byte is looked at.
#[verifier::external_body]
fn fdt_total_size(b: &[u8]) -> (r: Option<usize>)
    ensures
        match r {
            Some(n) => headed(b@) && n == word(b@, 4),
            None => !headed(b@),
        },
{
    match fdt_parser::Fdt::from_bytes(b) {
        Ok(fdt) => Some(fdt.total_size()),
        Err(_) => None,
    }
}

/// What the root of a tree is compatible with.
pub uninterp spec fn root_compatible(b: Seq<u8>) -> Seq<Seq<u8>>;

/// `fdt_parser::Fdt::all_nodes`, whose first node is the root, and that node's
/// `compatibles`: the strings of its `compatible` property, none where it has no
/// such property. They are named, not stated. The parser panics on a root that
/// is not readable, which is left out.
#[verifier::external_body]
fn fdt_root_compatible(b: &[u8]) -> (r: Vec<Vec<u8>>)
    requires
        headed(b@),
        readable(b@),
    ensures
        r@.map_values(|v: Vec<u8>| v@) == root_compatible(b@),
{
    let Ok(fdt) = fdt_parser::Fdt::from_bytes(b) else {
        return Vec::new();
    };
    let root = fdt.all_nodes().next();
    match root {
        Some(node) => node.compatibles().map(|s| s.as_bytes().to_vec()).collect(),
        None => Vec::new(),
    }
}

/// The offset of the first zero byte.
pub open spec fn zero_at(s: Seq<u8>) -> Option<nat>
    decreases s.len(),
{
    if s.len() == 0 {
        None
    } else if s[0] == 0 {
        Some(0)
    } else {
        match zero_at(s.drop_first()) {
            Some(n) => Some(n + 1),
            None => None,
        }
    }
}

/// A length rounded up to a whole number of words.
pub open spec fn padded(n: int) -> int {
    (n + 3) / 4 * 4
}

/// The bytes after the first `n`; all of them where there are not as many.
pub open spec fn past(s: Seq<u8>, n: int) -> Seq<u8> {
    if n <= s.len() {
        s.skip(n)
    } else {
        s
    }
}

/// The name at an offset of the strings.
pub open spec fn string_at(strings: Seq<u8>, at: int) -> Option<Seq<u8>> {
    match zero_at(strings.skip(at)) {
        Some(n) => Some(strings.skip(at).take(n as int)),
        None => None,
    }
}

/// A property that says how many words something takes.
pub open spec fn numeric(name: Seq<u8>) -> bool {
    ||| name == "#address-cells".spec_bytes()
    ||| name == "#size-cells".spec_bytes()
    ||| name == "#clock-cells".spec_bytes()
    ||| name == "#interrupt-cells".spec_bytes()
    ||| name == "#gpio-cells".spec_bytes()
    ||| name == "#dma-cells".spec_bytes()
    ||| name == "#cooling-cells".spec_bytes()
}

/// How far the reading of the nodes has come.
#[derive(Debug, Clone, Copy, PartialEq, Eq, Structural)]
pub struct Walk {
    /// The root has begun.
    pub inside: bool,
    /// Properties still belong to the root's list, which ends at the first token
    /// that is neither a property nor a gap.
    pub listed: bool,
    /// The list has named an interrupt parent.
    pub parent: bool,
    /// The list has no address ranges, which need a node above, and the
    /// interrupt parent, where it names one, is a word.
    pub sound: bool,
}

/// Before the root.
pub open spec fn outside() -> Walk {
    Walk { inside: false, listed: false, parent: false, sound: true }
}

/// At the start of the root's list.
pub open spec fn at_root() -> Walk {
    Walk { inside: true, listed: true, parent: false, sound: true }
}

/// The walk after a property of `len` bytes with a name in the strings at `at`.
pub open spec fn noted(w: Walk, strings: Seq<u8>, at: int, len: int) -> Walk {
    match string_at(strings, at) {
        Some(name) => if !w.listed {
            w
        } else if name == "ranges".spec_bytes() {
            Walk { sound: false, ..w }
        } else if name == "interrupt-parent".spec_bytes() && !w.parent {
            Walk { parent: true, sound: w.sound && len >= 4, ..w }
        } else {
            w
        },
        None => w,
    }
}

/// A property that says how many words something takes is a word itself.
pub open spec fn allowed(strings: Seq<u8>, at: int, len: int) -> bool {
    match string_at(strings, at) {
        Some(name) => numeric(name) ==> len >= 4,
        None => true,
    }
}

/// The name of a node is a string.
pub open spec fn named(s: Seq<u8>) -> bool {
    match zero_at(s) {
        Some(n) => valid_utf8(s.take(n as int)),
        None => false,
    }
}

/// The nodes can be read up to the end of the first one: tokens follow each
/// other, nodes have names, properties stand inside of a node, their names lie
/// in the strings, each is allowed, and the list of the first node is sound where
/// its end is reached.
pub open spec fn walkable(s: Seq<u8>, strings: Option<Seq<u8>>, w: Walk) -> bool
    decreases s.len(),
{
    if s.len() < 4 {
        true
    } else {
        let token = word(s, 0);
        let rest = s.skip(4);
        if token == 1 {
            named(rest) && (if w.inside {
                w.sound
            } else {
                walkable(past(rest, padded(zero_at(rest)->0 + 1int)), strings, at_root())
            })
        } else if token == 2 {
            w.inside && w.sound
        } else if token == 3 {
            let len = word(rest, 0) as int;
            let at = word(rest, 4) as int;
            if rest.len() < 8 || rest.len() - 8 < len {
                true
            } else {
                &&& w.inside
                &&& strings is Some
                &&& at <= strings->0.len()
                &&& allowed(strings->0, at, len)
                &&& walkable(
                    past(rest.skip(8), padded(len)),
                    strings,
                    noted(w, strings->0, at, len),
                )
            }
        } else if token == 9 {
            w.inside ==> w.sound
        } else if token == 4 {
            walkable(rest, strings, w)
        } else {
            walkable(rest, strings, Walk { listed: false, ..w })
        }
    }
}

/// A part of a tree, given its offset and size, where it lies in the tree.
pub open spec fn part(b: Seq<u8>, at: int, len: int) -> Option<Seq<u8>> {
    if at + len <= b.len() {
        Some(b.subrange(at, at + len))
    } else {
        None
    }
}

/// The root of a tree can be read.
pub open spec fn readable(b: Seq<u8>) -> bool {
    match part(b, word(b, 8) as int, word(b, 36) as int) {
        Some(nodes) => walkable(nodes, part(b, word(b, 12) as int, word(b, 32) as int), outside()),
        None => false,
    }
}

proof fn lemma_word(b: Seq<u8>, at: int)
    requires
        0 <= at,
        at + 4 <= b.len(),
    ensures
        word(b, at) == b[at] * 0x100_0000 + b[at + 1] * 0x1_0000 + b[at + 2] * 0x100 + b[at + 3],
{
    reveal_with_fuel(from_be, 5);
    let s = b.subrange(at, at + 4);
    assert(s.drop_last().drop_last().drop_last().drop_last().len() == 0);
}

/// The big-endian word at an offset.
fn word_at(b: &[u8], at: usize) -> (r: u32)
    requires
        at + 4 <= b@.len(),
    ensures
        r == word(b@, at as int),
{
    proof {
        lemma_word(b@, at as int);
    }
    b[at] as u32 * 0x100_0000 + b[at + 1] as u32 * 0x1_0000 + b[at + 2] as u32 * 0x100 + b[at + 3]
        as u32
}

proof fn lemma_zero_at(s: Seq<u8>)
    ensures
        zero_at(s) is Some ==> zero_at(s)->0 < s.len(),
    decreases s.len(),
{
    if s.len() > 0 && s[0] != 0 {
        lemma_zero_at(s.drop_first());
    }
}

/// The offset of the first zero byte from `from` on, counted from there.
fn find_zero(b: &[u8], from: usize) -> (r: Option<usize>)
    requires
        from <= b@.len(),
    ensures
        match r {
            Some(n) => zero_at(b@.skip(from as int)) == Some(n as nat) && from + n < b@.len()
                <= usize::MAX,
            None => zero_at(b@.skip(from as int)) is None,
        },
{
    let mut i: usize = from;
    while i < b.len()
        invariant
            from <= i <= b@.len(),
            match zero_at(b@.skip(i as int)) {
                Some(n) => zero_at(b@.skip(from as int)) == Some((n + (i - from)) as nat),
                None => zero_at(b@.skip(from as int)) is None,
            },
        decreases b@.len() - i,
    {
        if b[i] == 0 {
            assert(zero_at(b@.skip(i as int)) == Some(0nat));
            return Some(i - from);
        }
        assert(b@.skip(i as int).drop_first() =~= b@.skip(i + 1));
        i = i + 1;
    }
    None
}

/// The walk after a property with a name at `at` and a value of `len` bytes, where
/// it is allowed.
fn check_property(w: Walk, strings: &[u8], at: usize, len: usize) -> (r: Option<Walk>)
    requires
        at <= strings@.len(),
    ensures
        r == (if allowed(strings@, at as int, len as int) {
            Some(noted(w, strings@, at as int, len as int))
        } else {
            None
        }),
{
    let n: usize = match find_zero(strings, at) {
        Some(n) => n,
        None => {
            return Some(w);
        },
    };
    let name = slice_subrange(strings, at, at + n);
    assert(name@ =~= strings@.skip(at as int).take(n as int));
    let number = same(name, "#address-cells".as_bytes()) || same(name, "#size-cells".as_bytes())
        || same(name, "#clock-cells".as_bytes()) || same(name, "#interrupt-cells".as_bytes())
        || same(name, "#gpio-cells".as_bytes()) || same(name, "#dma-cells".as_bytes()) || same(
        name,
        "#cooling-cells".as_bytes(),
    );
    if number && len < 4 {
        return None;
    }
    let mut next = w;
    if w.listed {
        if same(name, "ranges".as_bytes()) {
            next.sound = false;
        } else if same(name, "interrupt-parent".as_bytes()) && !w.parent {
            next.parent = true;
            next.sound = w.sound && len >= 4;
        }
    }
    Some(next)
}

/// The place after `n` bytes, rounded up to a word, from `pos` on; `pos` itself
/// where there are not as many.
fn pass(s: &[u8], pos: usize, n: usize) -> (r: usize)
    requires
        pos <= s@.len(),
        n <= s@.len() - pos,
    ensures
        pos <= r <= s@.len(),
        s@.skip(r as int) == past(s@.skip(pos as int), padded(n as int)),
{
    let pad: usize = (4 - n % 4) % 4;
    proof {
        assert(padded(n as int) == n + pad);
    }
    let r: usize = if pad <= s.len() - pos - n {
        pos + n + pad
    } else {
        pos
    };
    assert(s@.skip(r as int) =~= past(s@.skip(pos as int), padded(n as int)));
    r
}

/// Whether the nodes can be read up to the end of the first one.
fn check_nodes(s: &[u8], strings: Option<&[u8]>) -> (r: bool)
    ensures
        r == walkable(
            s@,
            match strings {
                Some(t) => Some(t@),
                None => None,
            },
            outside(),
        ),
{
    let ghost names: Option<Seq<u8>> = match strings {
        Some(t) => Some(t@),
        None => None,
    };
    let mut pos: usize = 0;
    let mut w = Walk { inside: false, listed: false, parent: false, sound: true };
    assert(s@.skip(0) =~= s@);
    while s.len() - pos >= 4
        invariant
            pos <= s@.len(),
            names == (match strings {
                Some(t) => Some(t@),
                None => None,
            }),
            walkable(s@, names, outside()) == walkable(s@.skip(pos as int), names, w),
        decreases s@.len() - pos,
    {
        let ghost here = s@.skip(pos as int);
        let token: u32 = word_at(s, pos);
        assert(here.subrange(0, 4) =~= s@.subrange(pos as int, pos + 4));
        assert(here.skip(4) =~= s@.skip(pos + 4));
        let next: usize = pos + 4;
        let ghost rest = here.skip(4);
        if token == 1 {
            let n: usize = match find_zero(s, next) {
                Some(n) => n,
                None => {
                    return false;
                },
            };
            assert(rest.take(n as int) =~= s@.subrange(next as int, next + n));
            if utf8_str(slice_subrange(s, next, next + n)).is_none() {
                return false;
            }
            if w.inside {
                return w.sound;
            }
            w = Walk { inside: true, listed: true, parent: false, sound: true };
            pos = pass(s, next, n + 1);
        } else if token == 2 {
            return w.inside && w.sound;
        } else if token == 3 {
            if s.len() - next < 8 {
                return true;
            }
            let len: u32 = word_at(s, next);
            let at: u32 = word_at(s, next + 4);
            assert(rest.subrange(0, 4) =~= s@.subrange(next as int, next + 4));
            assert(rest.subrange(4, 8) =~= s@.subrange(next + 4, next + 8));
            assert(rest.skip(8) =~= s@.skip(next + 8));
            if s.len() - next - 8 < len as usize {
                return true;
            }
            let t = match strings {
                Some(t) => t,
                None => {
                    return false;
                },
            };
            if !w.inside || at as usize > t.len() {
                return false;
            }
            w = match check_property(w, t, at as usize, len as usize) {
                Some(next) => next,
                None => {
                    return false;
                },
            };
            pos = pass(s, next + 8, len as usize);
        } else if token == 9 {
            return !w.inside || w.sound;
        } else {
            if token != 4 {
                w.listed = false;
            }
            pos = next;
        }
    }
    true
}

/// A part of a tree, where it lies in the tree.
fn slice_part(b: &[u8], at: usize, len: usize) -> (r: Option<&[u8]>)
    ensures
        match r {
            Some(s) => part(b@, at as int, len as int) == Some(s@),
            None => part(b@, at as int, len as int) is None,
        },
{
    if at <= b.len() && len <= b.len() - at {
        Some(slice_subrange(b, at, at + len))
    } else {
        None
    }
}

/// Whether the root of a tree can be read.
pub fn root_readable(b: &[u8]) -> (r: bool)
    requires
        headed(b@),
    ensures
        r == readable(b@),
{
    let nodes = slice_part(b, word_at(b, 8) as usize, word_at(b, 36) as usize);
    let strings = slice_part(b, word_at(b, 12) as usize, word_at(b, 32) as usize);
    match nodes {
        Some(s) => check_nodes(s, strings),
        None => false,
    }
}

/// What the root is compatible with has this program in it.
pub open spec fn ours(names: Seq<Seq<u8>>) -> bool {
    exists|i: int| 0 <= i < names.len() && #[trigger] names[i] == "ov,rt-async".spec_bytes()
}

/// Whether what the root is compatible with has this program in it.
pub fn claims(names: &Vec<Vec<u8>>) -> (r: bool)
    ensures
        r == ours(names@.map_values(|v: Vec<u8>| v@)),
{
    let ghost all = names@.map_values(|v: Vec<u8>| v@);
    let mut i: usize = 0;
    while i < names.len()
        invariant
            i <= names@.len(),
            all == names@.map_values(|v: Vec<u8>| v@),
            forall|j: int| 0 <= j < i ==> #[trigger] all[j] != "ov,rt-async".spec_bytes(),
        decreases names@.len() - i,
    {
        if same(names[i].as_slice(), "ov,rt-async".as_bytes()) {
            assert(all[i as int] == "ov,rt-async".spec_bytes());
            return true;
        }
        assert(all[i as int] == names@[i as int]@);
        i = i + 1;
    }
    false
}

/// Where the search ends.
#[derive(Debug, Clone, Copy, PartialEq, Eq, Structural)]
pub enum Located {
    /// The tree: its offset and its size.
    At(usize, usize),
    /// A tree whose root cannot be read, at this offset; the search goes no
    /// further.
    Unreadable(usize),
    /// There is none.
    Nothing,
}

/// The tree that may start at a place: the size that its header gives is not
/// 0 and not too large, and its bytes start with a header.
pub open spec fn candidate(memory: Seq<u8>, page: int) -> Option<Seq<u8>> {
    let at = page * SCAN_STEP;
    let probe = memory.subrange(at, at + PROBE_LEN);
    let total = word(probe, 4) as int;
    let tree = memory.subrange(at, at + total);
    if headed(probe) && 0 < total <= MAX_TREE && headed(tree) {
        Some(tree)
    } else {
        None
    }
}

/// Where the search ends, from a place on: at the first tree that is this
/// program's, or that cannot be read.
pub open spec fn located(memory: Seq<u8>, page: int) -> Located
    decreases SCAN_PAGES - page,
{
    if page >= SCAN_PAGES {
        Located::Nothing
    } else {
        match candidate(memory, page) {
            None => located(memory, page + 1),
            Some(tree) => if !readable(tree) {
                Located::Unreadable((page * SCAN_STEP) as usize)
            } else if ours(root_compatible(tree)) {
                Located::At((page * SCAN_STEP) as usize, tree.len() as usize)
            } else {
                located(memory, page + 1)
            },
        }
    }
}

/// Searches the memory for this program's tree.
pub fn locate_rtasync_dtb(memory: &[u8]) -> (r: Located)
    requires
        memory@.len() >= SCAN_LEN,
    ensures
        r == located(memory@, 0),
{
    let mut page: usize = 0;
    while page < SCAN_PAGES
        invariant
            page <= SCAN_PAGES,
            memory@.len() >= SCAN_LEN,
            located(memory@, 0) == located(memory@, page as int),
        decreases SCAN_PAGES - page,
    {
        let at: usize = page * SCAN_STEP;
        let probe = slice_subrange(memory, at, at + PROBE_LEN);
        if let Some(total) = fdt_total_size(probe) {
            if total != 0 && total <= MAX_TREE as usize {
                let tree = slice_subrange(memory, at, at + total);
                if fdt_total_size(tree).is_some() {
                    if !root_readable(tree) {
                        return Located::Unreadable(at);
                    }
                    if claims(&fdt_root_compatible(tree)) {
                        return Located::At(at, total);
                    }
                }
            }
        }
        page = page + 1;
    }
    Located::Nothing
}

} // verus!
