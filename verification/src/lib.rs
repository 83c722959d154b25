//! A verified kernel-core and FAT16 on-disk-format library.
//!
//! The crate has two halves. One models the memory and process subsystem of a
//! small x86-64 kernel: a boot-map frame allocator, a four-level page-table
//! arena, a preemptive round-robin scheduler with trap-frame save/restore, and
//! the syscall dispatch boundary. The other decodes the FAT16 on-disk format:
//! the BIOS parameter block, directory entries, the file-allocation table, and
//! MBR partition records, together with a block-device abstraction that walks
//! directories and loads files by following cluster chains.

pub mod block_device;
pub mod bpb;
pub mod bytes;
pub mod datetime;
pub mod device;
pub mod dir_entry;
pub mod disk;
pub mod directory;
pub mod display;
pub mod entry;
pub mod fat_partition;
pub mod fat_table;
pub mod file;
pub mod mem;
pub mod paging;
pub mod process;
pub mod partition;
pub mod partition_table;
pub mod ramdisk;
pub mod strutil;
pub mod sys_device;
pub mod syscall;
pub mod userlib;

pub use block_device::BlockDevice;
pub use bpb::FAT16BPB;
pub use bytes::read_u16_le;
pub use bytes::read_u32_le;
pub use datetime::FatDate;
pub use datetime::FatTime;
pub use device::BlockError;
pub use device::Device;
pub use device::FatDevice;
pub use directory::Directory;
pub use entry::Entry;
pub use file::File;
pub use dir_entry::DirEntry;
pub use dir_entry::FileAttribute;
pub use disk::Disk;
pub use display::DisplayError;
pub use display::GOPDisplay;
pub use fat_partition::FATPartition;
pub use fat_table::FAT16Table;
pub use mem::BootInfoFrameAllocator;
pub use mem::MemoryDescriptor;
pub use mem::MemoryKind;
pub use mem::MemoryMap;
pub use mem::PhysFrame;
pub use mem::physical_to_virtual;
pub use paging::MapError;
pub use paging::PageTables;
pub use paging::TableFrame;
pub use process::Process;
pub use process::ProcessState;
pub use process::Registers;
pub use process::TrapFrame;
pub use process::init;
pub use process::kill_current_process;
pub use process::spawn_process;
pub use syscall::Syscall;
pub use syscall::SyscallAction;
pub use syscall::display_resolution;
pub use syscall::exit_process;
pub use syscall::plot_pixel;
pub use syscall::read_disk;
pub use syscall::syscall_handler;
pub use userlib::SyscallRequest;
pub use userlib::read_str;
pub use userlib::read_u64;
pub use userlib::sys_allocate;
pub use userlib::sys_deallocate;
pub use userlib::sys_display_resolution;
pub use userlib::sys_plot_pixel;
pub use userlib::sys_print_str;
pub use userlib::sys_read_disk;
pub use userlib::sys_read_key;
pub use userlib::sys_sleep;
pub use partition::Partition;
pub use partition_table::MBRPartitionTable;
pub use partition_table::PartitionMeta;
pub use ramdisk::RamDisk;
pub use sys_device::SysDevice;
