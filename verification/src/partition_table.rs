//! MBR partition records.

use vstd::prelude::*;

use crate::bytes::spec_read_u32_le;

verus! {

/// One 16-byte MBR partition record.
#[derive(Debug, PartialEq, Eq, Structural)]
pub struct PartitionMeta {
    /// Whether the record carries the active flag 0x80.
    pub is_active: bool,
    pub begin_head: u8,
    pub begin_sector: u8,
    pub begin_cylinder: u16,
    /// File-system indicator byte.
    pub fs: u8,
    pub end_head: u8,
    pub end_sector: u8,
    pub end_cylinder: u16,
    /// First sector of the partition, as a logical block address.
    pub begin_lba: u32,
    /// Sector count of the partition.
    pub total_lba: u32,
}

/// Holds when `m` carries exactly the fields stored in the 16 record bytes
/// `data`. The cylinder numbers keep the source's packing: the starting
/// cylinder takes bits 6..8 of the sector byte as its high bits, the ending
/// cylinder shifts its whole sector byte.
pub open spec fn spec_partition_meta_parses_to(data: Seq<u8>, m: PartitionMeta) -> bool {
    &&& m.is_active == (data[0x0] == 0x80)
    &&& m.begin_head == data[0x1]
    &&& m.begin_sector == data[0x2] & 0x3f
    &&& m.begin_cylinder == (((data[0x2] as u16) & 0xc0) << 2) | (data[0x3] as u16)
    &&& m.fs == data[0x4]
    &&& m.end_head == data[0x5]
    &&& m.end_sector == data[0x6] & 0x3f
    &&& m.end_cylinder == ((data[0x6] as u16) << 2) | (data[0x7] as u16)
    &&& m.begin_lba == spec_read_u32_le(data, 0x8)
    &&& m.total_lba == spec_read_u32_le(data, 0xc)
}

impl PartitionMeta {
    /// Parse one partition record. Rejects buffers whose length is not
    /// exactly 16, reporting the buffer length.
    pub fn parse(data: &[u8]) -> (r: Result<Self, usize>)
        ensures
            match r {
                Ok(m) => data@.len() == 16 && spec_partition_meta_parses_to(data@, m),
                Err(n) => data@.len() != 16 && n == data@.len(),
            },
    {
        if data.len() != 16 {
            return Err(data.len());
        }

        // 00  1  partition status: 0x80 marks the active partition.
        let is_active = data[0x0] == 0x80;
        // 01  1  starting head, all eight bits.
        let begin_head = data[0x1];
        // 02  2  starting sector in bits 0..6 of the first byte; the starting
        //        cylinder takes bits 6..8 and the whole following byte.
        let begin_sector = data[0x2] & 0x3F;
        let begin_cylinder = (((data[0x2] as u16) & 0xC0) << 2) | (data[0x3] as u16);
        // 04  1  file-system indicator.
        let fs = data[0x4];
        // 05  1  ending head, all eight bits.
        let end_head = data[0x5];
        // 06  2  ending sector and cylinder, packed as at offset 02.
        let end_sector = data[0x6] & 0x3F;
        let end_cylinder = ((data[0x6] as u16) << 2) | (data[0x7] as u16);
        // 08  4  first sector of the partition.
        let begin_lba = (data[0x8] as u32) + 0x100 * (data[0x9] as u32) + 0x1_0000 * (data[0xA]
            as u32) + 0x100_0000 * (data[0xB] as u32);
        // 0C  4  total sectors of the partition.
        let total_lba = (data[0xC] as u32) + 0x100 * (data[0xD] as u32) + 0x1_0000 * (data[0xE]
            as u32) + 0x100_0000 * (data[0xF] as u32);

        Ok(
            Self {
                is_active,
                begin_head,
                begin_sector,
                begin_cylinder,
                fs,
                end_head,
                end_sector,
                end_cylinder,
                begin_lba,
                total_lba,
            },
        )
    }

    /// The all-zero record of an unused partition slot.
    pub fn from_zero() -> (r: Self)
        ensures
            r == (PartitionMeta {
                is_active: false,
                begin_head: 0,
                begin_sector: 0,
                begin_cylinder: 0,
                fs: 0,
                end_head: 0,
                end_sector: 0,
                end_cylinder: 0,
                begin_lba: 0,
                total_lba: 0,
            }),
    {
        Self {
            is_active: false,
            begin_head: 0,
            begin_sector: 0,
            begin_cylinder: 0,
            fs: 0,
            end_head: 0,
            end_sector: 0,
            end_cylinder: 0,
            begin_lba: 0,
            total_lba: 0,
        }
    }
}

/// The four partition records of a master boot record.
#[derive(Debug, PartialEq, Eq, Structural)]
pub struct MBRPartitionTable {
    pub partition0: PartitionMeta,
    pub partition1: PartitionMeta,
    pub partition2: PartitionMeta,
    pub partition3: PartitionMeta,
}

impl MBRPartitionTable {
    /// Parse the 64 bytes holding the four partition records. Rejects buffers
    /// of any other length, reporting the buffer length.
    pub fn parse(data: &[u8]) -> (r: Result<Self, usize>)
        ensures
            match r {
                Ok(t) => data@.len() == 64 && spec_partition_meta_parses_to(
                    data@.subrange(0, 16),
                    t.partition0,
                ) && spec_partition_meta_parses_to(data@.subrange(16, 32), t.partition1)
                    && spec_partition_meta_parses_to(data@.subrange(32, 48), t.partition2)
                    && spec_partition_meta_parses_to(data@.subrange(48, 64), t.partition3),
                Err(n) => data@.len() != 64 && n == data@.len(),
            },
    {
        if data.len() != 16 * 4 {
            return Err(data.len());
        }

        let partition0 = PartitionMeta::parse(&data[0..16])?;
        let partition1 = PartitionMeta::parse(&data[16..32])?;
        let partition2 = PartitionMeta::parse(&data[32..48])?;
        let partition3 = PartitionMeta::parse(&data[48..64])?;

        Ok(Self { partition0, partition1, partition2, partition3 })
    }

    /// Parse a full 512-byte boot sector, whose partition records sit at
    /// offset 0x1BE. Rejects buffers of any other length, reporting the
    /// buffer length.
    pub fn parse_sector(data: &[u8]) -> (r: Result<Self, usize>)
        ensures
            match r {
                Ok(t) => data@.len() == 512 && spec_partition_meta_parses_to(
                    data@.subrange(0x1be, 0x1ce),
                    t.partition0,
                ) && spec_partition_meta_parses_to(data@.subrange(0x1ce, 0x1de), t.partition1)
                    && spec_partition_meta_parses_to(data@.subrange(0x1de, 0x1ee), t.partition2)
                    && spec_partition_meta_parses_to(data@.subrange(0x1ee, 0x1fe), t.partition3),
                Err(n) => data@.len() != 512 && n == data@.len(),
            },
    {
        if data.len() != 512 {
            return Err(data.len());
        }

        let table = Self::parse(&data[0x1BE..0x1FE])?;
        proof {
            let whole = data@;
            let window = whole.subrange(0x1be, 0x1fe);
            assert(window.subrange(0, 16) =~= whole.subrange(0x1be, 0x1ce));
            assert(window.subrange(16, 32) =~= whole.subrange(0x1ce, 0x1de));
            assert(window.subrange(32, 48) =~= whole.subrange(0x1de, 0x1ee));
            assert(window.subrange(48, 64) =~= whole.subrange(0x1ee, 0x1fe));
        }
        Ok(table)
    }
}

} // verus!
