//! Little-endian integer reads from byte buffers.

use vstd::prelude::*;

verus! {

/// The 16-bit little-endian value stored at `offset`.
pub open spec fn spec_read_u16_le(data: Seq<u8>, offset: int) -> int {
    data[offset] + 0x100 * data[offset + 1]
}

/// The 32-bit little-endian value stored at `offset`.
pub open spec fn spec_read_u32_le(data: Seq<u8>, offset: int) -> int {
    data[offset] + 0x100 * data[offset + 1] + 0x1_0000 * data[offset + 2] + 0x100_0000 * data[
        offset + 3
    ]
}

/// Read the 16-bit little-endian value stored at `offset`.
pub fn read_u16_le(data: &[u8], offset: usize) -> (r: u16)
    requires
        offset + 1 < data@.len(),
    ensures
        r == spec_read_u16_le(data@, offset as int),
{
    (data[offset] as u16) + 0x100 * (data[offset + 1] as u16)
}

/// Read the 32-bit little-endian value stored at `offset`.
pub fn read_u32_le(data: &[u8], offset: usize) -> (r: u32)
    requires
        offset + 3 < data@.len(),
    ensures
        r == spec_read_u32_le(data@, offset as int),
{
    (data[offset] as u32) + 0x100 * (data[offset + 1] as u32) + 0x1_0000 * (data[offset + 2]
        as u32) + 0x100_0000 * (data[offset + 3] as u32)
}

} // verus!
