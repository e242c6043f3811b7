//! Where things are in the shared window.
//!
//! The window starts with a header that holds the busy flag. Channels follow,
//! each a header of its own, the two indices of its ring, and the slots.

use vstd::prelude::*;

verus! {

/// Bytes of a cache line.
pub const CACHE_LINE: usize = 64;

/// Bytes of a slot.
pub const SLOT_SIZE: usize = 256;

/// The ring, in a channel.
pub const RB_OFF: usize = 0x100;

/// The slots, in a ring.
pub const RB_SLOTS_OFF: usize = 0x100;

/// The slots, in a channel.
pub const SLOTS_OFF: usize = 0x200;

/// Bytes of a channel.
pub const CHANNEL_SIZE: usize = 0x8200;

/// The channels, in the window.
pub const CHANNELS_OFF: usize = 0x100;

/// Where a channel starts.
pub open spec fn channel_at(ch: int) -> int {
    CHANNELS_OFF + ch * CHANNEL_SIZE
}

/// Where a slot starts.
pub open spec fn slot_at(ch: int, slot: int) -> int {
    channel_at(ch) + SLOTS_OFF + slot * SLOT_SIZE
}

/// Bytes of a window with `n` channels.
pub open spec fn window_size(n: int) -> int {
    channel_at(n)
}

/// Where a channel starts, in the window.
pub fn channel_offset(ch: u8) -> (r: usize)
    ensures
        r == channel_at(ch as int),
{
    CHANNELS_OFF + ch as usize * CHANNEL_SIZE
}

/// Where a slot starts, in the window.
pub fn slot_offset(ch: u8, slot: usize) -> (r: usize)
    requires
        slot < crate::channel::CHANNEL_CAPACITY,
    ensures
        r == slot_at(ch as int, slot as int),
{
    channel_offset(ch) + SLOTS_OFF + slot * SLOT_SIZE
}

/// Where the read and the write index of a channel's ring are, in the window.
pub fn ring_indices(ch: u8) -> (r: (usize, usize))
    ensures
        r.0 == channel_at(ch as int) + RB_OFF,
        r.1 == channel_at(ch as int) + RB_OFF + 8,
{
    let at: usize = channel_offset(ch) + RB_OFF;
    (at, at + 8)
}

/// The parts of a window add up: a slot is a message, a ring is its indices and
/// its slots in whole blocks of 256 bytes, and a channel is a block and a ring.
pub proof fn law_parts_add_up()
    ensures
        SLOT_SIZE == crate::message::PAYLOAD_SIZE + 1,
        SLOT_SIZE == crate::message::MESSAGE_ALIGN,
        SLOTS_OFF == RB_OFF + RB_SLOTS_OFF,
        CHANNEL_SIZE == RB_OFF + (RB_SLOTS_OFF + crate::channel::CHANNEL_CAPACITY * SLOT_SIZE + 0xff)
            / 256 * 256,
        CHANNEL_SIZE % 256 == 0,
{
}

/// A slot lies in its channel behind the indices, starts at a multiple of 256,
/// and shares no byte with any other slot of the window.
pub proof fn law_slots_are_apart(n: int, ch: int, slot: int, other_ch: int, other: int)
    requires
        0 <= ch < n,
        0 <= other_ch < n,
        0 <= slot < crate::channel::CHANNEL_CAPACITY,
        0 <= other < crate::channel::CHANNEL_CAPACITY,
    ensures
        channel_at(ch) + RB_OFF + 16 <= slot_at(ch, slot),
        slot_at(ch, slot) + SLOT_SIZE <= channel_at(ch + 1) <= window_size(n),
        slot_at(ch, slot) % 256 == 0,
        (ch, slot) == (other_ch, other) || slot_at(ch, slot) + SLOT_SIZE <= slot_at(
            other_ch,
            other,
        ) || slot_at(other_ch, other) + SLOT_SIZE <= slot_at(ch, slot),
{
}

} // verus!
