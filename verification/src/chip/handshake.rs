//! The sign that the core has started.

use crate::chip::reg::RegWrite;
use vstd::prelude::*;

verus! {

/// The boot entry of the other core, which the application processor watches.
pub const RCPU_CORE0_BOOT_ENTRY_LO: u64 = 0xc088_007c;

/// The write that tells the application processor that the core is ready.
pub fn spl_handshake() -> (r: RegWrite)
    ensures
        r == (RegWrite { addr: RCPU_CORE0_BOOT_ENTRY_LO, value: 1 }),
{
    RegWrite { addr: RCPU_CORE0_BOOT_ENTRY_LO, value: 1 }
}

} // verus!
