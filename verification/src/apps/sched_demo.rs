//! The output of two tasks that take turns.

use crate::text::{put_str, put_u64};
use vstd::prelude::*;
use vstd::string::*;

verus! {

/// A task of the demonstration.
#[derive(Debug, Clone, Copy, PartialEq, Eq, Structural)]
pub enum Turn {
    /// The urgent one.
    High,
    /// The other.
    Low,
}

/// What a task prints on its turn number `n`: its letter, and every twentieth
/// time a line with the number.
pub open spec fn printed(turn: Turn, n: u32) -> Seq<u8> {
    let letter = if turn == Turn::High {
        "H".spec_bytes()
    } else {
        "L".spec_bytes()
    };
    let label = if turn == Turn::High {
        " [high tick=".spec_bytes()
    } else {
        " [low tick=".spec_bytes()
    };
    if n % 20 == 0 {
        letter + label + crate::text::digits(n as nat) + "]\n".spec_bytes()
    } else {
        letter
    }
}

/// The digits of a number.
pub fn print_dec(v: u32) -> (out: Vec<u8>)
    ensures
        out@ == crate::text::digits(v as nat),
{
    let mut out: Vec<u8> = Vec::new();
    put_u64(&mut out, v as u64);
    assert(out@ =~= crate::text::digits(v as nat));
    out
}

/// What a task prints on its turn number `n`.
pub fn tick(turn: Turn, n: u32) -> (out: Vec<u8>)
    ensures
        out@ == printed(turn, n),
{
    let mut out: Vec<u8> = Vec::new();
    match turn {
        Turn::High => put_str(&mut out, "H"),
        Turn::Low => put_str(&mut out, "L"),
    }
    if n % 20 == 0 {
        match turn {
            Turn::High => put_str(&mut out, " [high tick="),
            Turn::Low => put_str(&mut out, " [low tick="),
        }
        let mut number = print_dec(n);
        out.append(&mut number);
        put_str(&mut out, "]\n");
    }
    assert(out@ =~= printed(turn, n));
    out
}

} // verus!
