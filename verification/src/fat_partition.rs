//! A FAT16 volume on a partition: its parameter block parsed from the boot
//! sector and its file-allocation table held in memory.

use vstd::prelude::*;

use crate::bpb::FAT16BPB;
use crate::bpb::spec_bpb_parses_to;
use crate::bytes::spec_read_u16_le;
use crate::bytes::spec_read_u32_le;
use crate::device::BlockError;
use crate::device::Device;
use crate::device::FatDevice;
use crate::dir_entry::DirEntry;
use crate::directory::Directory;
use crate::directory::vec_filled;
use crate::fat_table::FAT16Table;
use crate::partition::Partition;

verus! {

/// A FAT16 volume: the partition it lives on, the parameter block of its
/// boot sector, and the raw first copy of its file-allocation table.
pub struct FATPartition<'a, T> {
    partition: Partition<'a, T>,
    fat_meta: FAT16BPB,
    fat_raw: Vec<u8>,
}

impl<'a, T> FATPartition<'a, T> {
    /// The raw table always spans at least the size the parameter block
    /// announces, so a table view can always be built over it.
    #[verifier::type_invariant]
    closed spec fn inv(self) -> bool {
        self.fat_raw@.len() >= self.fat_meta.sector_per_fat * self.fat_meta.bytes_per_sector
    }

    /// The partition the volume lives on.
    pub closed spec fn spec_partition(self) -> Partition<'a, T> {
        self.partition
    }
}

impl<'a, T> FATPartition<'a, T> where T: Device {
    /// Open a FAT16 volume: parse the parameter block out of the partition's
    /// first sector and pull the file-allocation table into memory. The
    /// volume must use 512-byte sectors and hold its announced table.
    pub fn new(partition: Partition<'a, T>) -> (r: Self)
        requires
            partition.wf(),
            partition.spec_block_size() == 512,
            partition.contents().len() >= 512,
            spec_read_u16_le(partition.contents(), 0x0b) == 512,
            (spec_read_u32_le(partition.contents(), 0x1c) + spec_read_u16_le(
                partition.contents(),
                0x16,
            )) * 512 <= partition.contents().len(),
        ensures
            r.spec_partition() == partition,
            r.wf(),
            r.contents() == partition.contents(),
            r.spec_block_size() == 512,
            spec_bpb_parses_to(partition.contents().subrange(0, 512), r.spec_fat_meta()),
            r.spec_fat_contents() == partition.contents().subrange(
                spec_read_u32_le(partition.contents(), 0x1c) * 512,
                (spec_read_u32_le(partition.contents(), 0x1c) + spec_read_u16_le(
                    partition.contents(),
                    0x16,
                )) * 512,
            ),
    {
        let ghost c = partition.contents();
        let mut sector = vec_filled(512);
        partition.read_block(0, 1, &mut sector).unwrap();
        proof {
            assert(sector@ == c.subrange(0, 512));
        }

        let fat_meta = FAT16BPB::parse(sector.as_slice()).unwrap();
        proof {
            assert(fat_meta.bytes_per_sector == spec_read_u16_le(c.subrange(0, 512), 0x0b));
            assert(spec_read_u16_le(c.subrange(0, 512), 0x0b) == spec_read_u16_le(c, 0x0b));
            assert(fat_meta.sector_per_fat == spec_read_u16_le(c, 0x16));
            assert(fat_meta.hidden_sectors == spec_read_u32_le(c, 0x1c));
            assert(fat_meta.bytes_per_sector * fat_meta.sector_per_fat == 512
                * fat_meta.sector_per_fat);
        }
        let fat_bytes = (fat_meta.bytes_per_sector as usize) * (fat_meta.sector_per_fat as usize);
        let mut fat_raw = vec_filled(fat_bytes);
        proof {
            assert(fat_bytes == fat_meta.sector_per_fat as int * 512) by (nonlinear_arith)
                requires
                    fat_bytes == fat_meta.bytes_per_sector as int * fat_meta.sector_per_fat as int,
                    fat_meta.bytes_per_sector == 512,
            ;
            assert((fat_meta.hidden_sectors + fat_meta.sector_per_fat) * 512
                == fat_meta.hidden_sectors * 512 + fat_meta.sector_per_fat * 512)
                by (nonlinear_arith);
        }
        partition.read_block(
            fat_meta.hidden_sectors as usize,
            fat_meta.sector_per_fat as usize,
            &mut fat_raw,
        ).unwrap();

        Self { partition, fat_meta, fat_raw }
    }

    /// The volume's root directory, listed under a synthetic entry at
    /// cluster zero.
    pub fn root_directory(&'a self) -> (r: Directory<'a, FATPartition<'a, T>>)
        ensures
            r.spec_device() == self,
            r.spec_entry()@.first_cluster == 0,
            r.spec_entry()@.is_directory(),
    {
        let root = DirEntry::new_root();
        proof {
            let bits = root.attribute.bits;
            assert(bits & 0x10u8 == 0x10u8) by (bit_vector)
                requires
                    bits == 0x10u8,
            ;
        }
        Directory::new(self, root)
    }
}

impl<'a, T> Device for FATPartition<'a, T> where T: Device {
    open spec fn wf(&self) -> bool {
        self.spec_partition().wf()
    }

    open spec fn spec_block_size(&self) -> int {
        self.spec_partition().spec_block_size()
    }

    open spec fn contents(&self) -> Seq<u8> {
        self.spec_partition().contents()
    }

    fn block_size(&self) -> (r: Result<usize, BlockError>) {
        self.partition.block_size()
    }

    fn read_block(&self, offset: usize, size: usize, buf: &mut Vec<u8>) -> (r: Result<
        (),
        BlockError,
    >) {
        self.partition.read_block(offset, size, buf)
    }
}

impl<'a, T> FatDevice for FATPartition<'a, T> where T: Device {
    closed spec fn spec_fat_meta(&self) -> FAT16BPB {
        self.fat_meta
    }

    closed spec fn spec_fat_contents(&self) -> Seq<u8> {
        self.fat_raw@
    }

    fn fat_meta(&self) -> (r: &FAT16BPB) {
        &self.fat_meta
    }

    fn fat_table<'b>(&'b self) -> (t: FAT16Table<'b>) {
        proof {
            use_type_invariant(self);
        }
        FAT16Table::new(&self.fat_meta, self.fat_raw.as_slice()).unwrap()
    }
}

} // verus!
