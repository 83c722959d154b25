//! The FAT16 decoding layer, exercised on raw bytes and on an in-memory disk
//! image.

use xkernel::DirEntry;
use xkernel::Device;
use xkernel::Entry;
use xkernel::FAT16BPB;
use xkernel::FAT16Table;
use xkernel::FATPartition;
use xkernel::FatDate;
use xkernel::FatDevice;
use xkernel::FatTime;
use xkernel::FileAttribute;
use xkernel::MBRPartitionTable;
use xkernel::PartitionMeta;
use xkernel::Partition;
use xkernel::RamDisk;
use xkernel::read_u16_le;
use xkernel::read_u32_le;

#[test]
fn test_read_un_le() {
    let data: &[u8] = &[0x53, 0x57, 0x49, 0x4E, 0x34];
    assert_eq!(read_u16_le(data, 0), 22355);
    assert_eq!(read_u16_le(data, 2), 20041);
    assert_eq!(read_u32_le(data, 0), 1313429331);
    assert_eq!(read_u32_le(data, 1), 877545815);
}

#[test]
fn test_bpb_parse() {
    let data = &[
        0xEB, 0x3E, 0x90, 0x4D, 0x53, 0x57, 0x49, 0x4E, 0x34, 0x2E, 0x31, 0x00, 0x02, 0x10, 0x01,
        0x00, 0x02, 0x00, 0x02, 0x00, 0x00, 0xF8, 0xFC, 0x00, 0x3F, 0x00, 0x10, 0x00, 0x3F, 0x00,
        0x00, 0x00, 0xC1, 0xBF, 0x0F, 0x00, 0x80, 0x00, 0x29, 0xFD, 0x1A, 0xBE, 0xFA, 0x51, 0x45,
        0x4D, 0x55, 0x20, 0x56, 0x56, 0x46, 0x41, 0x54, 0x20, 0x46, 0x41, 0x54, 0x31, 0x36, 0x20,
        0x20, 0x20,
    ];

    let parsed = FAT16BPB::parse(data).unwrap();
    assert_eq!(parsed.oem_name(), "MSWIN4.1");
    assert_eq!(parsed.bytes_per_sector, 512);
    assert_eq!(parsed.sector_per_cluster, 16);
    assert_eq!(parsed.perserved_sectors, 1);
    assert_eq!(parsed.fat_count, 2);
    assert_eq!(parsed.max_root_dir_items, 512);
    assert_eq!(parsed.total_sectors, 1032129);
    assert_eq!(parsed.media_type, 248);
    assert_eq!(parsed.sector_per_fat, 252);
    assert_eq!(parsed.sector_per_track, 63);
    assert_eq!(parsed.tracks, 16);
    assert_eq!(parsed.hidden_sectors, 63);
    assert_eq!(parsed.drive_number, 0x80);
    assert_eq!(parsed.current_head, 0);
    assert_eq!(parsed.signature, 41);
    assert_eq!(parsed.id, 4206762749);
    assert_eq!(parsed.volume_name(), "QEMU VVFAT ");
    assert_eq!(parsed.fs_type(), "FAT16   ");
}

#[test]
fn test_dir_entry() {
    let data = b"\x4B\x45\x52\x4E\x45\x4C\x20\x20\x45\x4C\x46\x20\x00\x00\x0F\xBE\xD0\x50\xD0\x50\x00\x00\x0F\xBE\xD0\x50\x02\x00\xF0\xE4\x0E\x00";

    let parsed = DirEntry::parse(data).unwrap();
    assert_eq!(parsed.stem(), "KERNEL  ");
    assert_eq!(parsed.ext(), "ELF");
    assert_eq!(parsed.attribute, FileAttribute::from_bits_truncate(0x20));
    assert_eq!(parsed.create_ms, 0);
    assert_eq!(parsed.create_time, FatTime::new(23, 48, 30));
    assert_eq!(parsed.create_date, FatDate::new(20, 6, 16));
    assert_eq!(parsed.last_access_date, FatDate::new(20, 6, 16));
    assert_eq!(parsed.first_cluster, 2);
    assert_eq!(parsed.last_modified_time, FatTime::new(23, 48, 30));
    assert_eq!(parsed.last_modified_date, FatDate::new(20, 6, 16));
    assert_eq!(parsed.size, 976112);
}

#[test]
fn parse_meta() {
    let meta0 = PartitionMeta::parse(&[
        0x80, 0x01, 0x01, 0x00, 0x0B, 0xFE, 0xBF, 0xFC, 0x3F, 0x00, 0x00, 0x00, 0x7E, 0x86, 0xBB,
        0x00,
    ])
    .unwrap();

    assert_eq!(
        meta0,
        PartitionMeta {
            is_active: true,
            begin_head: 1,
            begin_sector: 1,
            begin_cylinder: 0,
            fs: 0x0B,
            end_head: 254,
            end_sector: 63,
            end_cylinder: 764,
            begin_lba: 63,
            total_lba: 12289662,
        }
    );
}

#[test]
fn mbr_part() {
    let mut part = vec![
        0x80, 0x01, 0x01, 0x00, 0x0B, 0xFE, 0xBF, 0xFC, 0x3F, 0x00, 0x00, 0x00, 0x7E, 0x86, 0xBB,
        0x00,
    ];
    part.resize(64, 0);
    let meta0 = MBRPartitionTable::parse(&part).unwrap();

    assert_eq!(
        meta0,
        MBRPartitionTable {
            partition0: PartitionMeta {
                is_active: true,
                begin_head: 1,
                begin_sector: 1,
                begin_cylinder: 0,
                fs: 0x0B,
                end_head: 254,
                end_sector: 63,
                end_cylinder: 764,
                begin_lba: 63,
                total_lba: 12289662,
            },
            partition1: PartitionMeta::from_zero(),
            partition2: PartitionMeta::from_zero(),
            partition3: PartitionMeta::from_zero(),
        }
    );
}

#[test]
fn mbr_sector() {
    let mut part = [0u8; 512];
    part[0x1BE] = 0x80;
    part[0x1BF] = 0x01;
    part[0x1C0] = 0x01;
    part[0x1C1] = 0x00;
    part[0x1C2] = 0x0B;
    part[0x1C3] = 0xFE;
    part[0x1C4] = 0xBF;
    part[0x1C5] = 0xFC;
    part[0x1C6] = 0x3F;
    part[0x1C7] = 0x00;
    part[0x1C8] = 0x00;
    part[0x1C9] = 0x00;
    part[0x1CA] = 0x7E;
    part[0x1CB] = 0x86;
    part[0x1CC] = 0xBB;
    part[0x1CD] = 0x00;
    let meta0 = MBRPartitionTable::parse_sector(&part).unwrap();

    assert_eq!(
        meta0,
        MBRPartitionTable {
            partition0: PartitionMeta {
                is_active: true,
                begin_head: 1,
                begin_sector: 1,
                begin_cylinder: 0,
                fs: 0x0B,
                end_head: 254,
                end_sector: 63,
                end_cylinder: 764,
                begin_lba: 63,
                total_lba: 12289662,
            },
            partition1: PartitionMeta::from_zero(),
            partition2: PartitionMeta::from_zero(),
            partition3: PartitionMeta::from_zero(),
        }
    );
}

#[test]
fn bpb_parse_rejects_short_buffers() {
    let short = [0u8; 0x3D];
    assert_eq!(FAT16BPB::parse(&short), Err(0x3D));
    assert_eq!(DirEntry::parse(&short[..5]), Err(5));
    assert_eq!(PartitionMeta::parse(&short[..9]), Err(9));
    assert_eq!(MBRPartitionTable::parse(&short), Err(0x3D));
    assert_eq!(MBRPartitionTable::parse_sector(&short), Err(0x3D));
}

#[test]
fn dir_entry_attribute_flags() {
    let mut raw = [0u8; 32];
    raw[0] = b'A';
    raw[11] = 0x0F;
    let lfn = DirEntry::parse(&raw).unwrap();
    assert!(lfn.is_read_only());
    assert!(lfn.is_hidden());
    assert!(lfn.is_system());
    assert!(lfn.is_volume_id());
    assert!(lfn.is_lfn_entry());
    assert!(!lfn.is_directory());
    assert!(!lfn.is_archive());
    assert!(!lfn.is_eod());
    assert!(!lfn.is_unused());

    raw[0] = 0x00;
    assert!(DirEntry::parse(&raw).unwrap().is_eod());
    raw[0] = 0xE5;
    assert!(DirEntry::parse(&raw).unwrap().is_unused());

    let root = DirEntry::new_root();
    assert!(root.is_directory());
    assert_eq!(root.first_cluster, 0);
    assert_eq!(root.ext(), "   ");
}

#[test]
fn fat_table_geometry() {
    let data = &[
        0xEB, 0x3E, 0x90, 0x4D, 0x53, 0x57, 0x49, 0x4E, 0x34, 0x2E, 0x31, 0x00, 0x02, 0x10, 0x01,
        0x00, 0x02, 0x00, 0x02, 0x00, 0x00, 0xF8, 0xFC, 0x00, 0x3F, 0x00, 0x10, 0x00, 0x3F, 0x00,
        0x00, 0x00, 0xC1, 0xBF, 0x0F, 0x00, 0x80, 0x00, 0x29, 0xFD, 0x1A, 0xBE, 0xFA, 0x51, 0x45,
        0x4D, 0x55, 0x20, 0x56, 0x56, 0x46, 0x41, 0x54, 0x20, 0x46, 0x41, 0x54, 0x31, 0x36, 0x20,
        0x20, 0x20,
    ];
    let bpb = FAT16BPB::parse(data).unwrap();
    // The announced table takes 252 sectors of 512 bytes.
    let short = vec![0u8; 100];
    assert_eq!(FAT16Table::new(&bpb, &short).err(), Some(100));

    let mut fat = vec![0u8; 252 * 512];
    // Entry 2 chains to 3; entry 3 carries an end mark.
    fat[4] = 0x03;
    fat[5] = 0x00;
    fat[6] = 0xFF;
    fat[7] = 0xFF;
    let table = FAT16Table::new(&bpb, &fat).unwrap();
    assert_eq!(table.next_cluster(2), Some(3));
    assert_eq!(table.next_cluster(3), None);
    assert_eq!(table.next_cluster(0), None);
    // Data sectors: reserved + two table copies, then 16 sectors per cluster.
    let range = table.cluster_sector(2);
    assert_eq!(range.start, 1 + 2 * 252 + 16 * 2);
    assert_eq!(range.end, range.start + 16);
}

/// A six-sector FAT16 volume: boot sector, one table sector, one root
/// directory sector holding one file at cluster 2, and data sectors for the
/// chain 2 -> 3.
fn tiny_volume() -> Vec<u8> {
    let mut image = vec![0u8; 6 * 512];
    // Boot sector: 512-byte sectors, 1 per cluster, 1 reserved, 1 table of 1
    // sector, table located 1 sector in.
    image[0x0b] = 0x00;
    image[0x0c] = 0x02;
    image[0x0d] = 1;
    image[0x0e] = 1;
    image[0x10] = 1;
    image[0x16] = 1;
    image[0x1c] = 1;
    // Table sector: entries 0 and 1 reserved, 2 -> 3, 3 ends.
    let fat = 512;
    image[fat] = 0xF8;
    image[fat + 1] = 0xFF;
    image[fat + 2] = 0xFF;
    image[fat + 3] = 0xFF;
    image[fat + 4] = 0x03;
    image[fat + 5] = 0x00;
    image[fat + 6] = 0xFF;
    image[fat + 7] = 0xFF;
    // Root directory: cluster 0 starts at sector 1 + 1 + 0 = 2.
    let root = 2 * 512;
    image[root..root + 8].copy_from_slice(b"KERNEL  ");
    image[root + 8..root + 11].copy_from_slice(b"ELF");
    image[root + 11] = 0x20;
    image[root + 26] = 2;
    // Data: cluster 2 is sector 4, cluster 3 is sector 5.
    for i in 0..512 {
        image[4 * 512 + i] = 0xAA;
        image[5 * 512 + i] = 0xBB;
    }
    image
}

#[test]
fn tiny_volume_listing_and_load() {
    let disk = RamDisk::new(tiny_volume());
    let partition = Partition::new(&disk, PartitionMeta::from_zero());
    let volume = FATPartition::new(partition);
    assert_eq!(volume.fat_meta().bytes_per_sector, 512);
    assert_eq!(volume.fat_meta().sector_per_cluster, 1);

    let mut root = volume.root_directory();
    let childs = root.load_childs().unwrap();
    assert_eq!(childs.len(), 1);
    let file = match &childs[0] {
        Entry::File(f) => f,
        Entry::Dir(_) => panic!("the root holds a file, not a directory"),
    };
    assert_eq!(file.entry.stem(), "KERNEL  ");
    assert_eq!(file.entry.first_cluster, 2);

    // The chain 2 -> 3 maps to sectors 4 and 5.
    assert_eq!(file.sectors(), vec![4, 5]);
    let by_cluster = file.cluster_sectors();
    assert_eq!(by_cluster.len(), 2);
    assert_eq!(by_cluster[0].0, 2);
    assert_eq!(by_cluster[0].1, vec![4]);
    assert_eq!(by_cluster[1].0, 3);
    assert_eq!(by_cluster[1].1, vec![5]);

    let mut buf = vec![0u8; 1024];
    file.load_to(&mut buf).unwrap();
    assert!(buf[..512].iter().all(|&b| b == 0xAA));
    assert!(buf[512..].iter().all(|&b| b == 0xBB));
}

/// Reads past the end of an in-memory disk are reported.
#[test]
fn ramdisk_rejects_out_of_range_reads() {
    let disk = RamDisk::new(vec![0u8; 1024]);
    let mut buf = vec![0u8; 512];
    assert_eq!(disk.read_block(1, 1, &mut buf), Ok(()));
    assert_eq!(disk.read_block(2, 1, &mut buf), Err(xkernel::BlockError::Unknown));
    assert_eq!(disk.read_block(0, 3, &mut vec![0u8; 3 * 512]), Err(xkernel::BlockError::Unknown));
}

#[test]
fn disk_partitions_window() {
    // An image whose master boot record names one partition 2 sectors in.
    let mut image = vec![0u8; 4 * 512];
    image[0x1BE] = 0x80;
    image[0x1C6] = 2;
    image[0x1CA] = 2;
    for i in 0..512 {
        image[2 * 512 + i] = 0x5A;
    }
    let inner = RamDisk::new(image);
    let disk = xkernel::Disk::new(&inner);
    let parts = disk.partitions();
    assert_eq!(parts[0].block_size(), Ok(512));
    // Block 0 of the partition is block 2 of the disk.
    let mut buf = vec![0u8; 512];
    parts[0].read_block(0, 1, &mut buf).unwrap();
    assert!(buf.iter().all(|&b| b == 0x5A));
}
