//! A whole disk: its master boot record names up to four partitions.

use vstd::prelude::*;

use crate::device::BlockError;
use crate::device::Device;
use crate::directory::vec_filled;
use crate::partition::Partition;
use crate::partition_table::MBRPartitionTable;
use crate::partition_table::spec_partition_meta_parses_to;

verus! {

/// A disk over an underlying block device.
pub struct Disk<'a, T> {
    inner: &'a T,
}

impl<'a, T> Disk<'a, T> {
    /// The underlying device.
    pub closed spec fn spec_inner(self) -> &'a T {
        self.inner
    }
}

impl<'a, T> Disk<'a, T> where T: Device {
    /// View a device as a partitioned disk.
    pub fn new(inner: &'a T) -> (r: Self)
        ensures
            r.spec_inner() == inner,
    {
        Self { inner }
    }

    /// The four partitions the master boot record names, each a window onto
    /// this disk starting at its first sector.
    pub fn partitions(&self) -> (r: [Partition<'a, T>; 4])
        requires
            self.spec_inner().wf(),
            self.spec_inner().spec_block_size() == 512,
            self.spec_inner().contents().len() >= 512,
        ensures
            ({
                let c = self.spec_inner().contents();
                &&& forall|k: int| 0 <= k < 4 ==> (#[trigger] r@[k]).spec_inner()
                    == self.spec_inner()
                &&& spec_partition_meta_parses_to(c.subrange(0x1be, 0x1ce), r@[0].spec_meta())
                &&& spec_partition_meta_parses_to(c.subrange(0x1ce, 0x1de), r@[1].spec_meta())
                &&& spec_partition_meta_parses_to(c.subrange(0x1de, 0x1ee), r@[2].spec_meta())
                &&& spec_partition_meta_parses_to(c.subrange(0x1ee, 0x1fe), r@[3].spec_meta())
            }),
    {
        let mut sector = vec_filled(512);
        self.inner.read_block(0, 1, &mut sector).unwrap();
        proof {
            let c = self.spec_inner().contents();
            assert(sector@ == c.subrange(0, 512));
            assert(c.subrange(0, 512).subrange(0x1be, 0x1ce) =~= c.subrange(0x1be, 0x1ce));
            assert(c.subrange(0, 512).subrange(0x1ce, 0x1de) =~= c.subrange(0x1ce, 0x1de));
            assert(c.subrange(0, 512).subrange(0x1de, 0x1ee) =~= c.subrange(0x1de, 0x1ee));
            assert(c.subrange(0, 512).subrange(0x1ee, 0x1fe) =~= c.subrange(0x1ee, 0x1fe));
        }
        let parts = MBRPartitionTable::parse_sector(sector.as_slice()).unwrap();
        [
            Partition::new(self.inner, parts.partition0),
            Partition::new(self.inner, parts.partition1),
            Partition::new(self.inner, parts.partition2),
            Partition::new(self.inner, parts.partition3),
        ]
    }
}

impl<'a, T> Device for Disk<'a, T> where T: Device {
    open spec fn wf(&self) -> bool {
        self.spec_inner().wf()
    }

    open spec fn spec_block_size(&self) -> int {
        self.spec_inner().spec_block_size()
    }

    open spec fn contents(&self) -> Seq<u8> {
        self.spec_inner().contents()
    }

    fn block_size(&self) -> (r: Result<usize, BlockError>) {
        self.inner.block_size()
    }

    fn read_block(&self, offset: usize, size: usize, buf: &mut Vec<u8>) -> (r: Result<
        (),
        BlockError,
    >) {
        self.inner.read_block(offset, size, buf)
    }
}

} // verus!
