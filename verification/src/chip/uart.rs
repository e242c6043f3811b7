//! The console before the drivers are there.

use crate::chip::pxa_uart::{
    line_setup, DIVISOR, LSR_THRE, THR,
};
use crate::chip::reg::RegWrite;
use vstd::prelude::*;

verus! {

/// Base of the console.
pub const UART0_BASE: u64 = 0xc088_1000;

/// The writes that set the console up.
pub fn init() -> (writes: Vec<RegWrite>)
    ensures
        writes@ == crate::chip::pxa_uart::line_setup_of(UART0_BASE, DIVISOR),
{
    line_setup(UART0_BASE, DIVISOR)
}

/// What a poll does about a byte: it is written where the status `lsr` says that
/// the data register is empty, and waits otherwise.
pub fn putc(lsr: u32, c: u8) -> (r: Option<RegWrite>)
    ensures
        r == if lsr & LSR_THRE != 0 {
            Some(RegWrite { addr: UART0_BASE, value: c as u32 })
        } else {
            None
        },
{
    if lsr & LSR_THRE != 0 {
        Some(RegWrite { addr: UART0_BASE + THR, value: c as u32 })
    } else {
        None
    }
}

} // verus!
