//! The FAT16 BIOS parameter block, parsed from a boot sector.

use vstd::prelude::*;

use crate::bytes::read_u16_le;
use crate::bytes::read_u32_le;
use crate::bytes::spec_read_u16_le;
use crate::bytes::spec_read_u32_le;
use crate::strutil::ascii_bytes;
use crate::strutil::ascii_to_str;
use crate::strutil::chars_of_bytes;

verus! {

/// The BIOS parameter block of a FAT16 volume.
#[derive(Debug, PartialEq, Eq)]
pub struct FAT16BPB {
    /// OEM name, padded with spaces.
    pub oem_name_raw: [u8; 8],
    /// Bytes per sector.
    pub bytes_per_sector: u16,
    /// Sectors per cluster.
    pub sector_per_cluster: u8,
    /// Reserved sectors, the boot sector included.
    pub perserved_sectors: u16,
    /// Number of file-allocation tables.
    pub fat_count: u8,
    /// Maximum number of root-directory entries.
    pub max_root_dir_items: u16,
    /// Total sector count.
    pub total_sectors: u32,
    /// Media descriptor.
    pub media_type: u8,
    /// Sectors per file-allocation table.
    pub sector_per_fat: u16,
    /// Sectors per track.
    pub sector_per_track: u16,
    /// Head count.
    pub tracks: u16,
    /// Hidden sectors before the volume.
    pub hidden_sectors: u32,
    /// Physical drive number.
    pub drive_number: u8,
    /// Current head.
    pub current_head: u8,
    /// Extended boot signature.
    pub signature: u8,
    /// Volume serial number.
    pub id: u32,
    /// Volume label.
    pub volume_name_raw: [u8; 11],
    /// File-system type label, such as `FAT16`.
    pub fs_type_raw: [u8; 8],
}

/// Holds when `b` carries exactly the fields stored in boot-sector bytes `data`.
pub open spec fn spec_bpb_parses_to(data: Seq<u8>, b: FAT16BPB) -> bool {
    &&& b.oem_name_raw@ == data.subrange(0x03, 0x0b)
    &&& b.bytes_per_sector == spec_read_u16_le(data, 0x0b)
    &&& b.sector_per_cluster == data[0x0d]
    &&& b.perserved_sectors == spec_read_u16_le(data, 0x0e)
    &&& b.fat_count == data[0x10]
    &&& b.max_root_dir_items == spec_read_u16_le(data, 0x11)
    &&& b.total_sectors == if spec_read_u16_le(data, 0x13) != 0 {
        spec_read_u16_le(data, 0x13)
    } else {
        spec_read_u32_le(data, 0x20)
    }
    &&& b.media_type == data[0x15]
    &&& b.sector_per_fat == spec_read_u16_le(data, 0x16)
    &&& b.sector_per_track == spec_read_u16_le(data, 0x18)
    &&& b.tracks == spec_read_u16_le(data, 0x1a)
    &&& b.hidden_sectors == spec_read_u32_le(data, 0x1c)
    &&& b.drive_number == data[0x24]
    &&& b.current_head == data[0x25]
    &&& b.signature == data[0x26]
    &&& b.id == spec_read_u32_le(data, 0x27)
    &&& b.volume_name_raw@ == data.subrange(0x2b, 0x36)
    &&& b.fs_type_raw@ == data.subrange(0x36, 0x3e)
}

impl FAT16BPB {
    /// Parse a boot sector. Rejects buffers shorter than the 0x3E bytes the
    /// block occupies, reporting the buffer length.
    pub fn parse(data: &[u8]) -> (r: Result<Self, usize>)
        ensures
            match r {
                Ok(b) => data@.len() >= 0x3e && spec_bpb_parses_to(data@, b),
                Err(n) => data@.len() < 0x3e && n == data@.len(),
            },
    {
        if data.len() < 0x3E {
            return Err(data.len());
        }

        // 0x03  8  OEM name, padded with spaces.
        let oem_name_raw: [u8; 8] = [
            data[0x03],
            data[0x04],
            data[0x05],
            data[0x06],
            data[0x07],
            data[0x08],
            data[0x09],
            data[0x0a],
        ];
        // 0x0b  2  bytes per sector; the parameter block proper starts here.
        let bytes_per_sector = read_u16_le(data, 0x0b);
        // 0x0d  1  sectors per cluster.
        let sector_per_cluster = data[0x0D];
        // 0x0e  2  reserved sectors, the boot sector included.
        let perserved_sectors = read_u16_le(data, 0x0e);
        // 0x10  1  number of file-allocation tables.
        let fat_count = data[0x10];
        // 0x11  2  maximum number of root-directory entries.
        let max_root_dir_items = read_u16_le(data, 0x11);
        // 0x13  2  total sectors (when zero, the 4-byte count at 0x20 holds).
        let total_sectors_a = read_u16_le(data, 0x13);
        // 0x15  1  media descriptor.
        let media_type = data[0x15];
        // 0x16  2  sectors per file-allocation table.
        let sector_per_fat = read_u16_le(data, 0x16);
        // 0x18  2  sectors per track.
        let sector_per_track = read_u16_le(data, 0x18);
        // 0x1a  2  head count.
        let tracks = read_u16_le(data, 0x1a);
        // 0x1c  4  hidden sectors.
        let hidden_sectors = read_u32_le(data, 0x1c);
        // 0x20  4  total sectors (see offset 0x13).
        let total_sectors_b = read_u32_le(data, 0x20);
        // 0x24  1  physical drive number.
        let drive_number = data[0x24];
        // 0x25  1  current head.
        let current_head = data[0x25];
        // 0x26  1  extended boot signature.
        let signature = data[0x26];
        // 0x27  4  volume serial number.
        let id = read_u32_le(data, 0x27);
        // 0x2b  11  volume label.
        let volume_name_raw: [u8; 11] = [
            data[0x2b],
            data[0x2c],
            data[0x2d],
            data[0x2e],
            data[0x2f],
            data[0x30],
            data[0x31],
            data[0x32],
            data[0x33],
            data[0x34],
            data[0x35],
        ];
        // 0x36  8  file-system type label.
        let fs_type_raw: [u8; 8] = [
            data[0x36],
            data[0x37],
            data[0x38],
            data[0x39],
            data[0x3a],
            data[0x3b],
            data[0x3c],
            data[0x3d],
        ];

        let total_sectors = if total_sectors_a != 0 {
            total_sectors_a as u32
        } else {
            total_sectors_b
        };

        proof {
            assert(oem_name_raw@ =~= data@.subrange(0x03, 0x0b));
            assert(volume_name_raw@ =~= data@.subrange(0x2b, 0x36));
            assert(fs_type_raw@ =~= data@.subrange(0x36, 0x3e));
        }

        Ok(
            Self {
                oem_name_raw,
                bytes_per_sector,
                sector_per_cluster,
                perserved_sectors,
                fat_count,
                max_root_dir_items,
                total_sectors,
                media_type,
                sector_per_fat,
                sector_per_track,
                tracks,
                hidden_sectors,
                drive_number,
                current_head,
                signature,
                id,
                volume_name_raw,
                fs_type_raw,
            },
        )
    }

    /// The OEM name as a string slice.
    pub fn oem_name(&self) -> (r: &str)
        requires
            ascii_bytes(self.oem_name_raw@),
        ensures
            r@ == chars_of_bytes(self.oem_name_raw@),
    {
        ascii_to_str(self.oem_name_raw.as_slice())
    }

    /// The volume label as a string slice.
    pub fn volume_name(&self) -> (r: &str)
        requires
            ascii_bytes(self.volume_name_raw@),
        ensures
            r@ == chars_of_bytes(self.volume_name_raw@),
    {
        ascii_to_str(self.volume_name_raw.as_slice())
    }

    /// The file-system type label as a string slice.
    pub fn fs_type(&self) -> (r: &str)
        requires
            ascii_bytes(self.fs_type_raw@),
        ensures
            r@ == chars_of_bytes(self.fs_type_raw@),
    {
        ascii_to_str(self.fs_type_raw.as_slice())
    }
}

} // verus!
