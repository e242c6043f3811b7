//! A console: a line editor and the commands that it runs.

use crate::text::{parse_i32, put_bytes, put_i32, put_str, same, split_first_word, trim};
use vstd::prelude::*;
use vstd::string::*;

verus! {

/// Size of the line, of which one byte stays free.
pub const LINE_BUF_SIZE: usize = 128;

/// What is printed when the console starts.
pub fn greeting() -> (r: &'static str)
    ensures
        r@
            == "\r\nrt-async console ready (interrupt-driven). Type 'help' for commands.\r\n"@,
{
    "\r\nrt-async console ready (interrupt-driven). Type 'help' for commands.\r\n"
}

/// What a command prints.
pub open spec fn answer(line: Seq<u8>) -> Seq<u8> {
    let t = crate::text::trim_back(crate::text::trim_front(line));
    let (cmd, rest) = crate::text::split_word(t);
    let (first, second) = crate::text::split_word(rest);
    if t.len() == 0 {
        seq![]
    } else if cmd == "echo".spec_bytes() {
        rest + "\r\n".spec_bytes()
    } else if cmd == "add".spec_bytes() {
        match (crate::text::parsed(first), crate::text::parsed(second)) {
            (None, _) => "error: invalid first operand\r\n".spec_bytes(),
            (_, None) => "error: invalid second operand\r\n".spec_bytes(),
            (Some(a), Some(b)) => crate::text::decimal(a as int) + " + ".spec_bytes()
                + crate::text::decimal(b as int) + " = ".spec_bytes() + crate::text::decimal(
                wrapped_sum(a, b),
            ) + "\r\n".spec_bytes(),
        }
    } else if cmd == "help".spec_bytes() {
        "Commands:\r\n".spec_bytes() + "  echo <text>  - echo text back\r\n".spec_bytes()
            + "  add <a> <b>  - add two integers\r\n".spec_bytes()
            + "  help         - show this help\r\n".spec_bytes()
            + "  clear        - clear screen\r\n".spec_bytes()
    } else if cmd == "clear".spec_bytes() {
        "\x1b[2J\x1b[H".spec_bytes()
    } else {
        "unknown command: ".spec_bytes() + cmd + "\r\n".spec_bytes()
    }
}

/// The sum of two numbers, wrapped to 32 bits.
pub open spec fn wrapped_sum(a: i32, b: i32) -> int {
    if a + b > i32::MAX {
        a + b - 0x1_0000_0000
    } else if a + b < i32::MIN {
        a + b + 0x1_0000_0000
    } else {
        a + b
    }
}

/// Runs a command line, which is ASCII; the result is what it prints.
pub fn execute(line: &[u8]) -> (out: Vec<u8>)
    ensures
        out@ == answer(line@),
{
    let mut out: Vec<u8> = Vec::new();
    let line_trimmed = trim(line);
    if line_trimmed.len() == 0 {
        assert(out@ =~= answer(line@));
        return out;
    }
    let (cmd, rest) = split_first_word(line_trimmed);
    if same(cmd, "echo".as_bytes()) {
        put_bytes(&mut out, rest);
        put_str(&mut out, "\r\n");
    } else if same(cmd, "add".as_bytes()) {
        let (first, second) = split_first_word(rest);
        let a: i32 = match parse_i32(first) {
            Some(v) => v,
            None => {
                put_str(&mut out, "error: invalid first operand\r\n");
                assert(out@ =~= answer(line@));
                return out;
            },
        };
        let b: i32 = match parse_i32(second) {
            Some(v) => v,
            None => {
                put_str(&mut out, "error: invalid second operand\r\n");
                assert(out@ =~= answer(line@));
                return out;
            },
        };
        put_i32(&mut out, a);
        put_str(&mut out, " + ");
        put_i32(&mut out, b);
        put_str(&mut out, " = ");
        put_i32(&mut out, a.wrapping_add(b));
        put_str(&mut out, "\r\n");
    } else if same(cmd, "help".as_bytes()) {
        put_str(&mut out, "Commands:\r\n");
        put_str(&mut out, "  echo <text>  - echo text back\r\n");
        put_str(&mut out, "  add <a> <b>  - add two integers\r\n");
        put_str(&mut out, "  help         - show this help\r\n");
        put_str(&mut out, "  clear        - clear screen\r\n");
    } else if same(cmd, "clear".as_bytes()) {
        put_str(&mut out, "\x1b[2J\x1b[H");
    } else {
        put_str(&mut out, "unknown command: ");
        put_bytes(&mut out, cmd);
        put_str(&mut out, "\r\n");
    }
    assert(out@ =~= answer(line@));
    out
}

/// The line being typed.
pub struct LineEditor {
    line: Vec<u8>,
}

/// What takes `n` characters off the screen.
pub open spec fn rubout(n: nat) -> Seq<u8>
    decreases n,
{
    if n == 0 {
        seq![]
    } else {
        rubout((n - 1) as nat) + "\x08 \x08".spec_bytes()
    }
}

/// What follows a key: the line afterwards, and what is printed.
pub open spec fn typed(line: Seq<u8>, byte: u8) -> (Seq<u8>, Seq<u8>) {
    if byte == 0x7f || byte == 0x08 {
        if line.len() > 0 {
            (line.drop_last(), rubout(1))
        } else {
            (line, seq![])
        }
    } else if byte == 13 || byte == 10 {
        let printed = if line.len() > 0 {
            answer(line)
        } else {
            seq![]
        };
        (seq![], "\r\n".spec_bytes() + printed + "> ".spec_bytes())
    } else if byte == 3 {
        (seq![], "^C\r\n".spec_bytes() + "> ".spec_bytes())
    } else if byte == 0x15 {
        (seq![], rubout(line.len()))
    } else if 0x20 <= byte < 0x7f && line.len() < 127 {
        (line.push(byte), seq![byte])
    } else {
        (line, seq![])
    }
}

impl View for LineEditor {
    type V = Seq<u8>;

    closed spec fn view(&self) -> Seq<u8> {
        self.line@
    }
}

impl LineEditor {
    /// An empty line.
    pub fn new() -> (r: Self)
        ensures
            r@.len() == 0,
    {
        LineEditor { line: Vec::new() }
    }

    /// A key was pressed; the result is printed.
    pub fn key(&mut self, byte: u8) -> (out: Vec<u8>)
        ensures
            (final(self)@, out@) == typed(old(self)@, byte),
    {
        let mut out: Vec<u8> = Vec::new();
        if byte == 0x7f || byte == 0x08 {
            if self.line.len() > 0 {
                self.line.pop();
                put_str(&mut out, "\x08 \x08");
                proof {
                    reveal_with_fuel(rubout, 2);
                }
            }
        } else if byte == 13 || byte == 10 {
            put_str(&mut out, "\r\n");
            if self.line.len() > 0 {
                let mut printed = execute(self.line.as_slice());
                out.append(&mut printed);
            }
            put_str(&mut out, "> ");
            self.line.clear();
        } else if byte == 3 {
            put_str(&mut out, "^C\r\n");
            put_str(&mut out, "> ");
            self.line.clear();
        } else if byte == 0x15 {
            let mut i: usize = 0;
            while i < self.line.len()
                invariant
                    i <= self.line@.len(),
                    self@ == old(self)@,
                    out@ == rubout(i as nat),
                decreases self.line@.len() - i,
            {
                put_str(&mut out, "\x08 \x08");
                i = i + 1;
            }
            self.line.clear();
        } else if byte >= 0x20 && byte < 0x7f && self.line.len() < LINE_BUF_SIZE - 1 {
            self.line.push(byte);
            out.push(byte);
        }
        assert(self@ =~= typed(old(self)@, byte).0);
        assert(out@ =~= typed(old(self)@, byte).1);
        out
    }
}

/// A line that can have been typed: printable characters that fit.
pub open spec fn is_line(line: Seq<u8>) -> bool {
    line.len() < LINE_BUF_SIZE && forall|i: int|
        0 <= i < line.len() ==> 0x20 <= #[trigger] line[i] < 0x7f
}

/// Whatever is typed, the line stays one that fits and is printable.
pub proof fn law_line_stays_printable(line: Seq<u8>, byte: u8)
    requires
        is_line(line),
    ensures
        is_line(typed(line, byte).0),
{
}

/// A character that was accepted is taken back by the delete key.
pub proof fn law_delete_undoes(line: Seq<u8>, byte: u8)
    requires
        0x20 <= byte < 0x7f,
        line.len() < 127,
    ensures
        typed(typed(line, byte).0, 0x7f).0 == line,
{
    assert(line.push(byte).drop_last() =~= line);
}

} // verus!
