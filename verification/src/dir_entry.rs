//! FAT16 directory entries and their attribute flags.

use vstd::prelude::*;

use crate::bytes::read_u16_le;
use crate::bytes::read_u32_le;
use crate::bytes::spec_read_u16_le;
use crate::bytes::spec_read_u32_le;
use crate::datetime::FatDate;
use crate::datetime::FatTime;
use crate::strutil::ascii_bytes;
use crate::strutil::ascii_to_str;
use crate::strutil::chars_of_bytes;

verus! {

/// The attribute bits of a directory entry. Only the six defined bits are
/// ever stored; the two high bits are dropped on parsing.
#[derive(Debug, PartialEq, Eq, Clone, Copy, Structural)]
pub struct FileAttribute {
    pub bits: u8,
}

impl FileAttribute {
    /// Keep the defined attribute bits of `bits` and drop the rest.
    pub fn from_bits_truncate(bits: u8) -> (r: Self)
        ensures
            r.bits == bits & 0x3f,
    {
        Self { bits: bits & 0x3f }
    }

    /// Holds when every bit of `flag` is set in `self`.
    pub open spec fn spec_contains(self, flag: u8) -> bool {
        self.bits & flag == flag
    }

    /// Test whether every bit of `flag` is set.
    pub fn contains(&self, flag: u8) -> (r: bool)
        ensures
            r == self.spec_contains(flag),
    {
        self.bits & flag == flag
    }
}

/// Attribute bit: the file is read-only.
pub const ATTR_READ_ONLY: u8 = 0x01;

/// Attribute bit: the entry is hidden from listings.
pub const ATTR_HIDDEN: u8 = 0x02;

/// Attribute bit: the file belongs to the operating system.
pub const ATTR_SYSTEM: u8 = 0x04;

/// Attribute bit: the entry holds the volume label.
pub const ATTR_VOLUME_ID: u8 = 0x08;

/// Attribute bit: the entry names a directory.
pub const ATTR_DIRECTORY: u8 = 0x10;

/// Attribute bit: the file awaits archiving.
pub const ATTR_ARCHIVE: u8 = 0x20;

/// One 32-byte directory entry.
#[derive(Debug, PartialEq, Eq)]
pub struct DirEntry {
    /// File name, padded with spaces.
    pub stem_raw: [u8; 8],
    /// Extension, padded with spaces.
    pub ext_raw: [u8; 3],
    pub attribute: FileAttribute,
    pub create_ms: u8,
    pub create_time: FatTime,
    pub create_date: FatDate,
    pub last_access_date: FatDate,
    pub first_cluster: u32,
    pub last_modified_time: FatTime,
    pub last_modified_date: FatDate,
    pub size: u32,
}

/// The mathematical image of a directory entry, with the fixed-size name
/// fields as sequences.
pub ghost struct SpecDirEntry {
    pub stem_raw: Seq<u8>,
    pub ext_raw: Seq<u8>,
    pub attribute: FileAttribute,
    pub create_ms: u8,
    pub create_time: FatTime,
    pub create_date: FatDate,
    pub last_access_date: FatDate,
    pub first_cluster: u32,
    pub last_modified_time: FatTime,
    pub last_modified_date: FatDate,
    pub size: u32,
}

impl View for DirEntry {
    type V = SpecDirEntry;

    open spec fn view(&self) -> SpecDirEntry {
        SpecDirEntry {
            stem_raw: self.stem_raw@,
            ext_raw: self.ext_raw@,
            attribute: self.attribute,
            create_ms: self.create_ms,
            create_time: self.create_time,
            create_date: self.create_date,
            last_access_date: self.last_access_date,
            first_cluster: self.first_cluster,
            last_modified_time: self.last_modified_time,
            last_modified_date: self.last_modified_date,
            size: self.size,
        }
    }
}

/// The entry stored in the first 32 of the bytes `data`.
pub open spec fn spec_parse_dir_entry(data: Seq<u8>) -> SpecDirEntry {
    SpecDirEntry {
        stem_raw: data.subrange(0x00, 0x08),
        ext_raw: data.subrange(0x08, 0x0b),
        attribute: FileAttribute { bits: data[11] & 0x3f },
        create_ms: data[13],
        create_time: FatTime::spec_parse_u16(spec_read_u16_le(data, 14) as u16),
        create_date: FatDate::spec_parse_u16(spec_read_u16_le(data, 16) as u16),
        last_access_date: FatDate::spec_parse_u16(spec_read_u16_le(data, 18) as u16),
        first_cluster: (0x1_0000 * spec_read_u16_le(data, 20) + spec_read_u16_le(data, 26)) as u32,
        last_modified_time: FatTime::spec_parse_u16(spec_read_u16_le(data, 22) as u16),
        last_modified_date: FatDate::spec_parse_u16(spec_read_u16_le(data, 24) as u16),
        size: spec_read_u32_le(data, 28) as u32,
    }
}

impl DirEntry {
    /// Parse one 32-byte entry. Rejects buffers shorter than 32 bytes,
    /// reporting the buffer length.
    pub fn parse(data: &[u8]) -> (r: Result<Self, usize>)
        ensures
            match r {
                Ok(e) => data@.len() >= 0x20 && e@ == spec_parse_dir_entry(data@),
                Err(n) => data@.len() < 0x20 && n == data@.len(),
            },
    {
        if data.len() < 0x20 {
            return Err(data.len());
        }

        let stem_raw: [u8; 8] = [
            data[0x00],
            data[0x01],
            data[0x02],
            data[0x03],
            data[0x04],
            data[0x05],
            data[0x06],
            data[0x07],
        ];
        let ext_raw: [u8; 3] = [data[0x08], data[0x09], data[0x0a]];
        let attribute = FileAttribute::from_bits_truncate(data[11]);
        let create_ms = data[13];
        let create_time = FatTime::parse_u16(read_u16_le(data, 14));
        let create_date = FatDate::parse_u16(read_u16_le(data, 16));
        let last_access_date = FatDate::parse_u16(read_u16_le(data, 18));
        let first_cluster = 0x1_0000u32 * (read_u16_le(data, 20) as u32) + (read_u16_le(data, 26)
            as u32);
        let last_modified_time = FatTime::parse_u16(read_u16_le(data, 22));
        let last_modified_date = FatDate::parse_u16(read_u16_le(data, 24));
        let size = read_u32_le(data, 28);

        proof {
            assert(stem_raw@ =~= data@.subrange(0x00, 0x08));
            assert(ext_raw@ =~= data@.subrange(0x08, 0x0b));
        }

        Ok(
            Self {
                stem_raw,
                ext_raw,
                attribute,
                create_ms,
                create_time,
                create_date,
                last_access_date,
                first_cluster,
                last_modified_time,
                last_modified_date,
                size,
            },
        )
    }

    /// The entry under which the root directory is listed: an unnamed
    /// directory starting at cluster zero.
    pub fn new_root() -> (r: Self)
        ensures
            r@.stem_raw == (Seq::new(8, |i: int| 0u8)),
            r@.ext_raw == (Seq::new(3, |i: int| 0u8)),
            r.attribute.bits == ATTR_DIRECTORY,
            r.create_ms == 0,
            r.create_time == (FatTime { hour: 0, minute: 0, second: 0 }),
            r.create_date == (FatDate { year: 0, month: 0, day: 0 }),
            r.last_access_date == (FatDate { year: 0, month: 0, day: 0 }),
            r.first_cluster == 0,
            r.last_modified_time == (FatTime { hour: 0, minute: 0, second: 0 }),
            r.last_modified_date == (FatDate { year: 0, month: 0, day: 0 }),
            r.size == 0,
    {
        let stem_raw: [u8; 8] = [0, 0, 0, 0, 0, 0, 0, 0];
        let ext_raw: [u8; 3] = [0, 0, 0];
        proof {
            assert(stem_raw@ =~= Seq::new(8, |i: int| 0u8));
            assert(ext_raw@ =~= Seq::new(3, |i: int| 0u8));
        }
        Self {
            stem_raw,
            ext_raw,
            attribute: FileAttribute { bits: ATTR_DIRECTORY },
            create_ms: 0,
            create_time: FatTime::new(0, 0, 0),
            create_date: FatDate::new(0, 0, 0),
            last_access_date: FatDate::new(0, 0, 0),
            first_cluster: 0,
            last_modified_time: FatTime::new(0, 0, 0),
            last_modified_date: FatDate::new(0, 0, 0),
            size: 0,
        }
    }

    /// The file name as a string slice.
    pub fn stem(&self) -> (r: &str)
        requires
            ascii_bytes(self.stem_raw@),
        ensures
            r@ == chars_of_bytes(self.stem_raw@),
    {
        ascii_to_str(self.stem_raw.as_slice())
    }

    /// The extension as a string slice; directories show three spaces.
    pub fn ext(&self) -> (r: &str)
        requires
            ascii_bytes(self.ext_raw@),
        ensures
            self@.is_directory() ==> r@ == seq![' ', ' ', ' '],
            !self@.is_directory() ==> r@ == chars_of_bytes(self.ext_raw@),
    {
        if self.is_directory() {
            let blank = "   ";
            proof {
                reveal_strlit("   ");
                assert(blank@ =~= seq![' ', ' ', ' ']);
            }
            return blank;
        }
        ascii_to_str(self.ext_raw.as_slice())
    }

    pub fn is_read_only(&self) -> (r: bool)
        ensures
            r == self@.is_read_only(),
    {
        self.attribute.contains(ATTR_READ_ONLY)
    }

    pub fn is_hidden(&self) -> (r: bool)
        ensures
            r == self@.is_hidden(),
    {
        self.attribute.contains(ATTR_HIDDEN)
    }

    pub fn is_system(&self) -> (r: bool)
        ensures
            r == self@.is_system(),
    {
        self.attribute.contains(ATTR_SYSTEM)
    }

    pub fn is_volume_id(&self) -> (r: bool)
        ensures
            r == self@.is_volume_id(),
    {
        self.attribute.contains(ATTR_VOLUME_ID)
    }

    pub fn is_directory(&self) -> (r: bool)
        ensures
            r == self@.is_directory(),
    {
        self.attribute.contains(ATTR_DIRECTORY)
    }

    pub fn is_archive(&self) -> (r: bool)
        ensures
            r == self@.is_archive(),
    {
        self.attribute.contains(ATTR_ARCHIVE)
    }

    /// Long-file-name entries carry all four low attribute bits at once.
    pub fn is_lfn_entry(&self) -> (r: bool)
        ensures
            r == self@.is_lfn_entry(),
    {
        self.is_read_only() && self.is_hidden() && self.is_system() && self.is_volume_id()
    }

    /// An all-zero first name byte ends the directory.
    pub fn is_eod(&self) -> (r: bool)
        ensures
            r == self@.is_eod(),
    {
        self.stem_raw[0] == 0x00
    }

    /// A first name byte of 0xE5 marks a deleted entry.
    pub fn is_unused(&self) -> (r: bool)
        ensures
            r == self@.is_unused(),
    {
        self.stem_raw[0] == 0xE5
    }
}

impl SpecDirEntry {
    pub open spec fn is_read_only(self) -> bool {
        self.attribute.spec_contains(ATTR_READ_ONLY)
    }

    pub open spec fn is_hidden(self) -> bool {
        self.attribute.spec_contains(ATTR_HIDDEN)
    }

    pub open spec fn is_system(self) -> bool {
        self.attribute.spec_contains(ATTR_SYSTEM)
    }

    pub open spec fn is_volume_id(self) -> bool {
        self.attribute.spec_contains(ATTR_VOLUME_ID)
    }

    pub open spec fn is_directory(self) -> bool {
        self.attribute.spec_contains(ATTR_DIRECTORY)
    }

    pub open spec fn is_archive(self) -> bool {
        self.attribute.spec_contains(ATTR_ARCHIVE)
    }

    pub open spec fn is_lfn_entry(self) -> bool {
        self.is_read_only() && self.is_hidden() && self.is_system() && self.is_volume_id()
    }

    pub open spec fn is_eod(self) -> bool {
        self.stem_raw[0] == 0x00
    }

    pub open spec fn is_unused(self) -> bool {
        self.stem_raw[0] == 0xE5
    }
}

} // verus!
