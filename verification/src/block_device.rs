//! The hardware-abstraction view of a block device: one block read at a time,
//! through a handle that may carry driver state.

use vstd::prelude::*;

use crate::device::BlockError;
use crate::device::Device;
use crate::ramdisk::RamDisk;

verus! {

/// A driver-level block device. Unlike [`crate::device::Device`], reading
/// takes the device mutably, as a controller with seek state would; a read
/// never changes what the device holds.
pub trait BlockDevice: Sized {
    /// Whether the device is modeled by `contents`.
    spec fn wf(&self) -> bool;

    /// Bytes per block.
    spec fn spec_block_size(&self) -> int;

    /// The device's whole content, block after block.
    spec fn contents(&self) -> Seq<u8>;

    /// The device's block size in bytes.
    fn block_size(&self) -> (r: Result<usize, BlockError>)
        ensures
            self.wf() ==> (r matches Ok(s) && s as int == self.spec_block_size()),
    ;

    /// Read block `offset` into `buf`, which must hold exactly one block. On
    /// a modeled device a read inside the contents succeeds, fills the buffer
    /// from them, and leaves the device holding the same bytes.
    fn read_block(&mut self, offset: usize, buf: &mut Vec<u8>) -> (r: Result<(), BlockError>)
        requires
            old(buf)@.len() == old(self).spec_block_size(),
        ensures
            final(buf)@.len() == old(buf)@.len(),
            final(self).wf() == old(self).wf(),
            final(self).spec_block_size() == old(self).spec_block_size(),
            final(self).contents() == old(self).contents(),
            old(self).wf() && (offset + 1) * old(self).spec_block_size() <= old(
                self,
            ).contents().len() ==> (r matches Ok(v) && final(buf)@ == old(self).contents().subrange(
                offset * old(self).spec_block_size(),
                (offset + 1) * old(self).spec_block_size(),
            )),
    ;
}

impl BlockDevice for RamDisk {
    open spec fn wf(&self) -> bool {
        Device::wf(self)
    }

    open spec fn spec_block_size(&self) -> int {
        Device::spec_block_size(self)
    }

    open spec fn contents(&self) -> Seq<u8> {
        Device::contents(self)
    }

    fn block_size(&self) -> (r: Result<usize, BlockError>) {
        Device::block_size(self)
    }

    fn read_block(&mut self, offset: usize, buf: &mut Vec<u8>) -> (r: Result<(), BlockError>) {
        Device::read_block(self, offset, 1, buf)
    }
}

} // verus!
