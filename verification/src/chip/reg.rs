//! Accesses to device registers.

use vstd::prelude::*;

verus! {

/// A value that is to be written to a 32-bit register.
#[derive(Debug, Clone, Copy, PartialEq, Eq, Structural)]
pub struct RegWrite {
    /// The address of the register.
    pub addr: u64,
    /// The value.
    pub value: u32,
}

/// One step of bringing a device up.
#[derive(Debug, Clone, Copy, PartialEq, Eq, Structural)]
pub enum RegStep {
    /// Make a write.
    Write(RegWrite),
    /// Spin so many times.
    Spin(u32),
}

} // verus!
