//! The pin multiplexer: a device names the pins it needs, and they are set
//! before its driver runs.

use crate::chip::reg::RegWrite;
use vstd::prelude::*;

verus! {

/// The multiplexer; its registers start at 0 until it was found.
pub struct PinctrlK3 {
    base: u64,
}

/// What a device says of its pins.
#[derive(Debug, Clone, PartialEq, Eq)]
pub enum PinRequest {
    /// It names none.
    Unnamed,
    /// It names a set that is not in the tree.
    Dangling,
    /// The set that it names holds no pins.
    Empty,
    /// The cells of the set that it names: an offset and a value for each pin.
    Cells(Vec<u32>),
}

/// The writes for the cells of a set: one for each whole pair, in order.
pub open spec fn pairs(base: u64, cells: Seq<u32>) -> Seq<RegWrite> {
    Seq::new(
        (cells.len() / 2) as nat,
        |i: int|
            RegWrite { addr: (base + cells[2 * i]) as u64, value: cells[2 * i + 1] },
    )
}

impl PinctrlK3 {
    /// Where the registers start.
    pub closed spec fn at(&self) -> u64 {
        self.base
    }

    /// A multiplexer that was not found yet.
    pub fn new() -> (r: Self)
        ensures
            r.at() == 0,
    {
        PinctrlK3 { base: 0 }
    }

    /// The device that the driver serves.
    pub fn compatible(&self) -> (r: &'static str)
        ensures
            r@ == "pinctrl-single"@,
    {
        "pinctrl-single"
    }

    /// The multiplexer was found at `base`.
    pub fn probe(&mut self, base: u64)
        ensures
            final(self).at() == base,
    {
        self.base = base;
    }

    /// The writes for what a device says of its pins. A request without cells
    /// writes nothing, and neither does half a pair at the end.
    pub fn apply(&self, request: &PinRequest) -> (r: Vec<RegWrite>)
        requires
            self.at() + u32::MAX <= u64::MAX,
        ensures
            r@ == match *request {
                PinRequest::Cells(cells) => pairs(self.at(), cells@),
                _ => seq![],
            },
    {
        let mut r: Vec<RegWrite> = Vec::new();
        if let PinRequest::Cells(cells) = request {
            let len: usize = cells.len();
            let n: usize = len / 2;
            let mut i: usize = 0;
            while i < n
                invariant
                    i <= n,
                    n == len / 2,
                    len == cells@.len(),
                    self.at() + u32::MAX <= u64::MAX,
                    r@ == pairs(self.at(), cells@).take(i as int),
                decreases n - i,
            {
                r.push(RegWrite { addr: self.base + cells[2 * i] as u64, value: cells[2 * i + 1] });
                i = i + 1;
                assert(r@ =~= pairs(self.at(), cells@).take(i as int));
            }
            assert(pairs(self.at(), cells@).take(n as int) =~= pairs(self.at(), cells@));
        }
        r
    }
}

} // verus!
