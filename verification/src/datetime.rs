//! FAT16 packed date and time stamps.

use vstd::prelude::*;

verus! {

/// A date as stored in a directory entry: years since 1980, month, day.
#[derive(Debug, PartialEq, Eq, Clone, Copy, Structural)]
pub struct FatDate {
    pub year: u8,
    pub month: u8,
    pub day: u8,
}

/// A time of day as stored in a directory entry, at two-second resolution.
#[derive(Debug, PartialEq, Eq, Clone, Copy, Structural)]
pub struct FatTime {
    pub hour: u8,
    pub minute: u8,
    pub second: u8,
}

impl FatDate {
    /// The date packed in `value`: year in bits 10..16, month in bits 5..10,
    /// day in bits 0..5.
    pub open spec fn spec_parse_u16(value: u16) -> FatDate {
        FatDate { year: (value >> 10) as u8, month: ((value >> 5) & 0x1f) as u8, day: (value
            & 0x1f) as u8 }
    }

    pub fn new(year: u8, month: u8, day: u8) -> (r: Self)
        ensures
            r == (FatDate { year, month, day }),
    {
        Self { year, month, day }
    }

    /// Unpack a date stamp.
    pub fn parse_u16(value: u16) -> (r: Self)
        ensures
            r == Self::spec_parse_u16(value),
    {
        let year = value >> 10;
        let month = (value >> 5) & 0x1f;
        let day = value & 0x1f;
        Self::new(year as u8, month as u8, day as u8)
    }
}

impl FatTime {
    /// The time packed in `value`: hour in bits 11..16, minute in bits 5..11,
    /// and half the seconds in bits 0..5.
    pub open spec fn spec_parse_u16(value: u16) -> FatTime {
        FatTime { hour: (value >> 11) as u8, minute: ((value >> 5) & 0x3f) as u8, second: (2 * ((
        value & 0x1f) as u8)) as u8 }
    }

    pub fn new(hour: u8, minute: u8, second: u8) -> (r: Self)
        ensures
            r == (FatTime { hour, minute, second }),
    {
        Self { hour, minute, second }
    }

    /// Unpack a time stamp. The stored field counts two-second units.
    pub fn parse_u16(value: u16) -> (r: Self)
        ensures
            r == Self::spec_parse_u16(value),
    {
        let hour = value >> 11;
        let minute = (value >> 5) & 0x3f;
        let half_seconds = value & 0x1f;
        assert(half_seconds < 32) by (bit_vector)
            requires
                half_seconds == value & 0x1f,
        ;
        let second = half_seconds as u8 * 2u8;
        assert(second == 2 * ((value & 0x1f) as u8));
        Self::new(hour as u8, minute as u8, second)
    }
}

} // verus!
