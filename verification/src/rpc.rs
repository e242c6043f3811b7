//! Conventions of remote calls: channels, method numbers and their flags.

use vstd::prelude::*;

verus! {

/// Number of a method.
pub type MethodId = u64;

/// Number of a request.
pub type RequestId = u64;

/// Method number of service discovery. Services number their methods from 1.
pub const METHOD_INIT: MethodId = 0;

/// Set in a method number when the caller wants a doorbell with the response.
pub const NOTIFY_FLAG: u64 = 0x8000_0000_0000_0000;

/// Set in a method number when the caller wants no response.
pub const ONE_WAY_FLAG: u64 = 0x4000_0000_0000_0000;

/// Channel of ordinary requests.
pub const CHANNEL_REQ: u8 = 0;

/// Channel of responses.
pub const CHANNEL_RESP: u8 = 1;

/// Channel of urgent requests.
pub const CHANNEL_URGENT: u8 = 2;

/// The method number without its flags.
pub open spec fn stripped(method_id: u64) -> u64 {
    method_id & !(NOTIFY_FLAG | ONE_WAY_FLAG)
}

/// The caller wants a doorbell with the response.
pub open spec fn notifies(method_id: u64) -> bool {
    method_id & NOTIFY_FLAG != 0
}

/// The caller wants no response.
pub open spec fn one_way(method_id: u64) -> bool {
    method_id & ONE_WAY_FLAG != 0
}

/// The method number without its flags.
pub fn strip_flags(method_id: u64) -> (r: u64)
    ensures
        r == stripped(method_id),
{
    method_id & !(NOTIFY_FLAG | ONE_WAY_FLAG)
}

/// Whether the caller wants a doorbell with the response.
pub fn wants_notify(method_id: u64) -> (r: bool)
    ensures
        r == notifies(method_id),
{
    method_id & NOTIFY_FLAG != 0
}

/// Whether the caller wants no response.
pub fn is_one_way(method_id: u64) -> (r: bool)
    ensures
        r == one_way(method_id),
{
    method_id & ONE_WAY_FLAG != 0
}

/// The flags and the method number do not disturb each other: a method number
/// below the flags has none, setting a flag sets that flag only, and stripping
/// the flags gives the number back.
pub proof fn law_flags(method: u64)
    requires
        method < ONE_WAY_FLAG,
    ensures
        stripped(method) == method && !notifies(method) && !one_way(method),
        stripped(method | NOTIFY_FLAG) == method,
        notifies(method | NOTIFY_FLAG) && !one_way(method | NOTIFY_FLAG),
        stripped(method | ONE_WAY_FLAG) == method,
        !notifies(method | ONE_WAY_FLAG) && one_way(method | ONE_WAY_FLAG),
{
    assert(method < 0x4000_0000_0000_0000u64 ==> ({
        let n = 0x8000_0000_0000_0000u64;
        let o = 0x4000_0000_0000_0000u64;
        let m = method;
        &&& m & !(n | o) == m && m & n == 0 && m & o == 0
        &&& (m | n) & !(n | o) == m && (m | n) & n != 0 && (m | n) & o == 0
        &&& (m | o) & !(n | o) == m && (m | o) & n == 0 && (m | o) & o != 0
    })) by (bit_vector);
}

/// Stripping leaves the 62 low bits; stripping again changes nothing.
pub proof fn law_strip(method_id: u64)
    ensures
        stripped(method_id) == method_id % ONE_WAY_FLAG,
        stripped(stripped(method_id)) == stripped(method_id),
{
    assert(method_id & !(0x8000_0000_0000_0000u64 | 0x4000_0000_0000_0000u64) == method_id
        % 0x4000_0000_0000_0000u64) by (bit_vector);
    let s = stripped(method_id);
    assert(s < 0x4000_0000_0000_0000u64 ==> s & !(0x8000_0000_0000_0000u64
        | 0x4000_0000_0000_0000u64) == s) by (bit_vector);
}

} // verus!
