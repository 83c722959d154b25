//! The system block device reached through the disk-read system call.

use vstd::prelude::*;

use crate::device::BlockError;
use crate::device::Device;
use crate::userlib::sys_read_disk;

verus! {

/// The disk the surrounding system exposes through the reserved disk-read
/// call. That call is a stub, so no content model holds of this device.
pub struct SysDevice;

impl Device for SysDevice {
    open spec fn wf(&self) -> bool {
        false
    }

    open spec fn spec_block_size(&self) -> int {
        512
    }

    open spec fn contents(&self) -> Seq<u8> {
        Seq::empty()
    }

    fn block_size(&self) -> (r: Result<usize, BlockError>) {
        Ok(512)
    }

    fn read_block(&self, offset: usize, size: usize, buf: &mut Vec<u8>) -> (r: Result<
        (),
        BlockError,
    >) {
        sys_read_disk(offset as u64, 0);
        Ok(())
    }
}

} // verus!
