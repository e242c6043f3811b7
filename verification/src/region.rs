//! Where the shared window is.

use vstd::prelude::*;

verus! {

/// The window, as the device tree names it.
pub struct ShmDriver {
    base: usize,
    size: usize,
}

impl ShmDriver {
    /// The window was found: its base, which may be 0, and its size.
    pub closed spec fn found(&self) -> Option<(usize, usize)> {
        if self.base == usize::MAX {
            None
        } else {
            Some((self.base, self.size))
        }
    }

    /// A window that was not found yet.
    pub fn new() -> (r: Self)
        ensures
            r.found() is None,
    {
        ShmDriver { base: usize::MAX, size: 0 }
    }

    /// The device that the driver serves.
    pub fn compatible(&self) -> (r: &'static str)
        ensures
            r@ == "ov,rt-async-amp"@,
    {
        "ov,rt-async-amp"
    }

    /// The window was found.
    pub fn probe(&mut self, base: usize, size: usize)
        requires
            base < usize::MAX,
        ensures
            final(self).found() == Some((base, size)),
    {
        self.base = base;
        self.size = size;
    }

    /// Whether the window was found.
    pub fn is_found(&self) -> (r: bool)
        ensures
            r == (self.found() is Some),
    {
        self.base != usize::MAX
    }

    /// The base of the window.
    pub fn base(&self) -> (r: usize)
        requires
            self.found() is Some,
        ensures
            r == (self.found()->0).0,
    {
        self.base
    }

    /// The size of the window.
    pub fn size(&self) -> (r: usize)
        requires
            self.found() is Some,
        ensures
            r == (self.found()->0).1,
    {
        self.size
    }
}

} // verus!
