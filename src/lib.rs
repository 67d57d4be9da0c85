use vstd::prelude::*;

pub mod cli;
pub mod disks;
pub mod engine;
pub mod guard;
pub mod memory;
pub mod progress;
pub mod text;
pub mod wipe;

verus! {

/// Bit layout of a device control code: device type in bits 16 and up,
/// access in bits 14-15, function in bits 2-13, method in bits 0-1. Bits that
/// a field shifts past bit 31 are dropped, and the fields are or-ed; when each
/// field fits its slot the code is their weighted sum.
pub fn ctl_code(device_type: u32, function: u32, method: u32, access: u32) -> (r: u32)
    ensures
        r == (device_type << 16u32) | (access << 14u32) | (function << 2u32) | method,
        device_type < 0x10000 && function < 0x1000 && method < 4 && access < 4
            ==> r == device_type * 0x10000 + access * 0x4000 + function * 4 + method,
{
    let r = (device_type << 16u32) | (access << 14u32) | (function << 2u32) | method;
    if device_type < 0x10000 && function < 0x1000 && method < 4 && access < 4 {
        assert(r == device_type * 0x10000 + access * 0x4000 + function * 4 + method) by (bit_vector)
            requires
                device_type < 0x10000,
                function < 0x1000,
                method < 4,
                access < 4,
                r == (device_type << 16u32) | (access << 14u32) | (function << 2u32) | method;
    }
    r
}

} // verus!
