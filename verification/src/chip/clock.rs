//! The clocks of the real-time domain's devices.

use crate::chip::reg::RegWrite;
use vstd::prelude::*;

verus! {

/// Clocks of the serial ports.
pub const RCPU_UARTCTRL: u64 = 0xc088_1f00;

/// Clocks of the two-wire buses.
pub const RCPU_I2CCTRL: u64 = 0xc088_6f00;

/// Clocks of the four-wire buses.
pub const RCPU_SPICTRL: u64 = 0xc088_5f00;

/// The divider that the serial ports share.
pub const RUART_14_CLK_CTRL: u64 = 0xc088_003c;

/// The switch of that divider.
pub const RUART_14_GATE: u32 = 0x8000_0000;

/// The clock unit.
pub struct Ccu;

/// The clock register of a device, by the number that the device tree gives the
/// clock.
pub open spec fn register_of(id: u32) -> Option<u64> {
    if id == 0 {
        Some(RCPU_UARTCTRL)
    } else if 10 <= id <= 12 {
        Some((RCPU_I2CCTRL + 4 * (id - 10)) as u64)
    } else if 20 <= id <= 21 {
        Some((RCPU_SPICTRL + 4 * (id - 20)) as u64)
    } else {
        None
    }
}

/// The value of a clock register with which its device runs: both clocks on,
/// the reset released, and the source `sel` in bits 4 and 5.
pub open spec fn running(sel: u32) -> u32 {
    (3 + 16 * (sel % 4)) as u32
}

/// The write that starts a device whose clock register is at `addr`.
pub fn enable_periph(addr: u64, sel: u32) -> (r: RegWrite)
    ensures
        r == (RegWrite { addr, value: running(sel) }),
{
    RegWrite { addr, value: 3 + 16 * (sel % 4) }
}

impl Ccu {
    /// The device that the driver serves.
    pub fn compatible(&self) -> (r: &'static str)
        ensures
            r@ == "spacemit,k3-ccu"@,
    {
        "spacemit,k3-ccu"
    }

    /// The write that switches the shared divider on, given what its
    /// register holds: the ratio stays.
    pub fn probe(&self, held: u32) -> (r: RegWrite)
        ensures
            r == (RegWrite { addr: RUART_14_CLK_CTRL, value: held | RUART_14_GATE }),
            r.value % 0x8000_0000 == held % 0x8000_0000,
    {
        assert((held | 0x8000_0000u32) % 0x8000_0000u32 == held % 0x8000_0000u32) by (bit_vector);
        RegWrite { addr: RUART_14_CLK_CTRL, value: held | RUART_14_GATE }
    }

    /// The write that starts the device of clock `id`; none where the clock is
    /// not known.
    pub fn enable(&self, id: u32) -> (r: Option<RegWrite>)
        ensures
            r == match register_of(id) {
                Some(addr) => Some(RegWrite { addr, value: running(0) }),
                None => None,
            },
    {
        let addr: u64 = match id {
            0 => RCPU_UARTCTRL,
            10 => RCPU_I2CCTRL,
            11 => RCPU_I2CCTRL + 4,
            12 => RCPU_I2CCTRL + 8,
            20 => RCPU_SPICTRL,
            21 => RCPU_SPICTRL + 4,
            _ => {
                return None;
            },
        };
        Some(enable_periph(addr, 0))
    }

    /// The writes that start a device, given the clocks that it names, and the
    /// clocks among them that are not known.
    pub fn enable_for(&self, ids: &[u32]) -> (r: (Vec<RegWrite>, Vec<u32>))
        ensures
            r.0@ == ids@.filter(|id: u32| register_of(id) is Some).map_values(
                |id: u32| RegWrite { addr: register_of(id)->0, value: running(0) },
            ),
            r.1@ == ids@.filter(|id: u32| register_of(id) is None),
    {
        let ghost known = |id: u32| register_of(id) is Some;
        let ghost unknown = |id: u32| register_of(id) is None;
        let ghost started = |id: u32|
            RegWrite { addr: register_of(id)->0, value: running(0) };
        let mut writes: Vec<RegWrite> = Vec::new();
        let mut strange: Vec<u32> = Vec::new();
        let mut i: usize = 0;
        while i < ids.len()
            invariant
                i <= ids@.len(),
                known == (|id: u32| register_of(id) is Some),
                unknown == (|id: u32| register_of(id) is None),
                started == (|id: u32|
                    RegWrite { addr: register_of(id)->0, value: running(0) }),
                writes@ == ids@.take(i as int).filter(known).map_values(started),
                strange@ == ids@.take(i as int).filter(unknown),
            decreases ids@.len() - i,
        {
            let ghost before = ids@.take(i as int);
            let ghost now = ids@.take(i + 1);
            proof {
                assert(now.drop_last() =~= before);
                reveal(Seq::filter);
            }
            match self.enable(ids[i]) {
                Some(w) => {
                    writes.push(w);
                    assert(now.filter(known) == before.filter(known).push(ids@[i as int]));
                    assert(now.filter(known).map_values(started) =~= writes@);
                    assert(now.filter(unknown) == before.filter(unknown));
                },
                None => {
                    strange.push(ids[i]);
                    assert(now.filter(known) == before.filter(known));
                    assert(now.filter(unknown) == before.filter(unknown).push(ids@[i as int]));
                },
            }
            i = i + 1;
        }
        assert(ids@.take(ids@.len() as int) =~= ids@);
        (writes, strange)
    }
}

} // verus!
