//! An in-memory block device: the whole disk image held as bytes.

use vstd::prelude::*;

use crate::device::BlockError;
use crate::device::Device;

verus! {

/// A disk image in memory, read in 512-byte blocks.
pub struct RamDisk {
    data: Vec<u8>,
}

impl RamDisk {
    /// Wrap a disk image.
    pub fn new(data: Vec<u8>) -> (r: Self)
        ensures
            r.wf(),
            r.contents() == data@,
    {
        Self { data }
    }
}

impl Device for RamDisk {
    open spec fn wf(&self) -> bool {
        true
    }

    open spec fn spec_block_size(&self) -> int {
        512
    }

    closed spec fn contents(&self) -> Seq<u8> {
        self.data@
    }

    fn block_size(&self) -> (r: Result<usize, BlockError>) {
        Ok(512)
    }

    fn read_block(&self, offset: usize, size: usize, buf: &mut Vec<u8>) -> (r: Result<
        (),
        BlockError,
    >) {
        let data_len = self.data.len();
        let buf_len = buf.len();
        proof {
            assert(buf_len == size * 512);
        }
        let start = match offset.checked_mul(512) {
            Some(s) => s,
            None => {
                return Err(BlockError::Unknown);
            },
        };
        let end = match start.checked_add(buf_len) {
            Some(e) => e,
            None => {
                return Err(BlockError::Unknown);
            },
        };
        if end > data_len {
            return Err(BlockError::Unknown);
        }
        let mut out: Vec<u8> = Vec::new();
        let mut i: usize = 0;
        while i < buf_len
            invariant
                i <= buf_len,
                data_len == self.data@.len(),
                start + buf_len <= data_len,
                out@.len() == i,
                out@ =~= self.data@.subrange(start as int, start + i),
            decreases buf_len - i,
        {
            out.push(self.data[start + i]);
            proof {
                assert(out@ =~= self.data@.subrange(start as int, start + i + 1));
            }
            i = i + 1;
        }
        proof {
            assert((offset + size) * 512 == offset * 512 + size * 512) by (nonlinear_arith);
        }
        *buf = out;
        Ok(())
    }
}

} // verus!
