//! Directory listings: walking a directory's cluster chain and parsing the
//! 32-byte entries of each sector.

use vstd::prelude::*;

use crate::bpb::FAT16BPB;
use crate::device::BlockError;
use crate::device::FatDevice;
use crate::device::spec_cluster_safe;
use crate::device::spec_fat_device_wf;
use crate::dir_entry::DirEntry;
use crate::dir_entry::SpecDirEntry;
use crate::dir_entry::spec_parse_dir_entry;
use crate::entry::Entry;
use crate::entry::spec_children_wf;
use crate::entry::spec_dirents;
use crate::fat_table::spec_chain_ends;
use crate::fat_table::spec_chain_fuel;
use crate::fat_table::spec_cluster_start;
use crate::fat_table::spec_next_cluster;
use crate::file::File;

verus! {

/// The 512 bytes of sector `sector` on a device with content `contents`.
pub open spec fn spec_sector_bytes(contents: Seq<u8>, sector: int) -> Seq<u8> {
    contents.subrange(512 * sector, 512 * sector + 512)
}

/// The live entries of one directory sector from slot `slot` on: sixteen
/// 32-byte slots, ended early by an end-of-directory mark, skipping deleted
/// and long-file-name entries.
pub open spec fn spec_sector_entries_from(block: Seq<u8>, slot: int) -> Seq<SpecDirEntry>
    decreases 16 - slot,
{
    if slot < 0 || slot >= 16 {
        Seq::empty()
    } else {
        let e = spec_parse_dir_entry(block.subrange(32 * slot, block.len() as int));
        if e.is_eod() {
            Seq::empty()
        } else if e.is_unused() || e.is_lfn_entry() {
            spec_sector_entries_from(block, slot + 1)
        } else {
            seq![e] + spec_sector_entries_from(block, slot + 1)
        }
    }
}

/// The live entries of one directory sector.
pub open spec fn spec_sector_entries(block: Seq<u8>) -> Seq<SpecDirEntry> {
    spec_sector_entries_from(block, 0)
}

/// The live entries of sectors `lo` up to `hi`, in order.
pub open spec fn spec_sectors_entries(contents: Seq<u8>, lo: int, hi: int) -> Seq<SpecDirEntry>
    decreases hi - lo,
{
    if lo >= hi {
        Seq::empty()
    } else {
        spec_sector_entries(spec_sector_bytes(contents, lo)) + spec_sectors_entries(
            contents,
            lo + 1,
            hi,
        )
    }
}

/// The live entries of every sector of cluster `id`.
pub open spec fn spec_cluster_entries(contents: Seq<u8>, bpb: FAT16BPB, id: int) -> Seq<
    SpecDirEntry,
> {
    spec_sectors_entries(contents, spec_cluster_start(bpb, id), spec_cluster_start(bpb, id + 1))
}

/// The live entries of the whole cluster chain starting at `id`, within
/// `fuel` steps.
pub open spec fn spec_chain_entries(
    contents: Seq<u8>,
    bpb: FAT16BPB,
    fat: Seq<u8>,
    id: int,
    fuel: nat,
) -> Seq<SpecDirEntry>
    decreases fuel,
{
    if fuel == 0 {
        Seq::empty()
    } else {
        match spec_next_cluster(fat, id) {
            Some(v) => spec_cluster_entries(contents, bpb, id) + spec_chain_entries(
                contents,
                bpb,
                fat,
                v as int,
                (fuel - 1) as nat,
            ),
            None => spec_cluster_entries(contents, bpb, id),
        }
    }
}

/// A directory on a FAT device.
pub struct Directory<'a, T> {
    device: &'a T,
    entry: DirEntry,
}

impl<'a, T> Directory<'a, T> {
    /// The device the directory lives on.
    pub closed spec fn spec_device(self) -> &'a T {
        self.device
    }

    /// The on-disk entry naming this directory.
    pub closed spec fn spec_entry(self) -> DirEntry {
        self.entry
    }
}

impl<'a, T> Directory<'a, T> where T: FatDevice {
    /// A directory under the given on-disk entry.
    pub fn new(device: &'a T, entry: DirEntry) -> (r: Self)
        ensures
            r.spec_device() == device,
            r.spec_entry()@ == entry@,
    {
        Self { device, entry }
    }

    /// The live children stored in one directory sector.
    fn childs_from_sector(&mut self, sector: usize) -> (r: Result<Vec<Entry<'a, T>>, BlockError>)
        requires
            spec_fat_device_wf(old(self).spec_device()),
            (sector + 1) * 512 <= old(self).spec_device().contents().len(),
        ensures
            *final(self) == *old(self),
            r matches Ok(v) && spec_dirents(v@) == spec_sector_entries(
                spec_sector_bytes(old(self).spec_device().contents(), sector as int),
            ) && spec_children_wf(v@, old(self).spec_device()),
    {
        let mut buf: Vec<u8> = vec_filled(self.device.block_size()?);
        self.device.read_block(sector, 1, &mut buf)?;
        let ghost block = buf@;
        proof {
            assert(block == spec_sector_bytes(self.spec_device().contents(), sector as int));
        }

        let mut childs: Vec<Entry<'a, T>> = Vec::new();
        let mut slot: usize = 0;
        while slot < 16
            invariant
                slot <= 16,
                buf@ == block,
                block.len() == 512,
                block == spec_sector_bytes(old(self).spec_device().contents(), sector as int),
                *self == *old(self),
                spec_fat_device_wf(old(self).spec_device()),
                spec_sector_entries(block) == spec_dirents(childs@) + spec_sector_entries_from(
                    block,
                    slot as int,
                ),
                spec_children_wf(childs@, old(self).spec_device()),
            decreases 16 - slot,
        {
            let off = 32 * slot;
            let file = match DirEntry::parse(&buf.as_slice()[off..512]) {
                Ok(f) => f,
                Err(n) => {
                    return Err(BlockError::WithStatus(n));
                },
            };
            let ghost e = spec_parse_dir_entry(block.subrange(32 * slot, block.len() as int));
            proof {
                assert(block.subrange(off as int, 512) =~= block.subrange(
                    32 * slot,
                    block.len() as int,
                ));
            }
            if file.is_eod() {
                proof {
                    assert(spec_dirents(childs@) + spec_sector_entries_from(block, slot as int)
                        =~= spec_dirents(childs@));
                }
                return Ok(childs);
            }
            if !file.is_unused() && !file.is_lfn_entry() {
                let ghost before = childs@;
                let child = if file.is_directory() {
                    Entry::Dir(Directory::new(self.device, file))
                } else {
                    Entry::File(File::new(self.device, file))
                };
                childs.push(child);
                proof {
                    assert(spec_dirents(childs@) =~= spec_dirents(before) + seq![e]);
                    assert(spec_dirents(before) + (seq![e] + spec_sector_entries_from(
                        block,
                        slot + 1,
                    )) =~= (spec_dirents(before) + seq![e]) + spec_sector_entries_from(
                        block,
                        slot + 1,
                    ));
                }
            }
            slot = slot + 1;
        }
        proof {
            assert(spec_dirents(childs@) + spec_sector_entries_from(block, 16) =~= spec_dirents(
                childs@,
            ));
        }
        Ok(childs)
    }

    /// The live children stored in every sector of one cluster.
    fn childs_from_cluster(&mut self, cluster: usize) -> (r: Result<Vec<Entry<'a, T>>, BlockError>)
        requires
            spec_fat_device_wf(old(self).spec_device()),
            cluster <= u16::MAX,
            spec_cluster_safe(old(self).spec_device(), cluster as int),
        ensures
            *final(self) == *old(self),
            r matches Ok(v) && spec_dirents(v@) == spec_cluster_entries(
                old(self).spec_device().contents(),
                old(self).spec_device().spec_fat_meta(),
                cluster as int,
            ) && spec_children_wf(v@, old(self).spec_device()),
    {
        let ghost contents = self.spec_device().contents();
        let ghost bpb = self.spec_device().spec_fat_meta();
        let range = self.device.fat_table().cluster_sector(cluster as u16);
        let start = range.start;
        let end = range.end;
        proof {
            assert(bpb.sector_per_cluster * (cluster + 1) == bpb.sector_per_cluster * cluster
                + bpb.sector_per_cluster) by (nonlinear_arith);
            assert(end == spec_cluster_start(bpb, cluster as int + 1));
        }
        let mut childs: Vec<Entry<'a, T>> = Vec::new();
        let mut sector = start;
        while sector < end
            invariant
                start <= sector <= end,
                *self == *old(self),
                spec_fat_device_wf(old(self).spec_device()),
                contents == old(self).spec_device().contents(),
                bpb == old(self).spec_device().spec_fat_meta(),
                end as int == spec_cluster_start(bpb, cluster as int + 1),
                start as int == spec_cluster_start(bpb, cluster as int),
                end * 512 <= contents.len(),
                spec_cluster_entries(contents, bpb, cluster as int) == spec_dirents(childs@)
                    + spec_sectors_entries(contents, sector as int, end as int),
                spec_children_wf(childs@, old(self).spec_device()),
            decreases end - sector,
        {
            let ghost before = childs@;
            let mut sub = self.childs_from_sector(sector as usize)?;
            let ghost here = sub@;
            childs.append(&mut sub);
            proof {
                assert(spec_dirents(childs@) =~= spec_dirents(before) + spec_dirents(here));
                assert(spec_dirents(before) + (spec_dirents(here) + spec_sectors_entries(
                    contents,
                    sector + 1,
                    end as int,
                )) =~= (spec_dirents(before) + spec_dirents(here)) + spec_sectors_entries(
                    contents,
                    sector + 1,
                    end as int,
                ));
            }
            sector = sector + 1;
        }
        Ok(childs)
    }

    /// List the directory: every live entry of its whole cluster chain, in
    /// chain and slot order, each child carried on the same device.
    pub fn load_childs(&mut self) -> (r: Result<Vec<Entry<'a, T>>, BlockError>)
        requires
            spec_fat_device_wf(old(self).spec_device()),
            spec_cluster_safe(
                old(self).spec_device(),
                old(self).spec_entry().first_cluster as u16 as int,
            ),
            spec_chain_ends(
                old(self).spec_device().spec_fat_contents(),
                old(self).spec_entry().first_cluster as u16 as int,
                spec_chain_fuel(old(self).spec_device().spec_fat_contents()),
            ),
        ensures
            *final(self) == *old(self),
            r matches Ok(v) && spec_dirents(v@) == spec_chain_entries(
                old(self).spec_device().contents(),
                old(self).spec_device().spec_fat_meta(),
                old(self).spec_device().spec_fat_contents(),
                old(self).spec_entry().first_cluster as u16 as int,
                spec_chain_fuel(old(self).spec_device().spec_fat_contents()),
            ) && spec_children_wf(v@, old(self).spec_device()),
    {
        let ghost contents = self.spec_device().contents();
        let ghost bpb = self.spec_device().spec_fat_meta();
        let ghost fat = self.spec_device().spec_fat_contents();
        let first = self.entry.first_cluster as u16;
        let ghost fuel0 = spec_chain_fuel(fat);
        let mut childs: Vec<Entry<'a, T>> = Vec::new();
        let mut cluster: Option<u16> = Some(first);
        let ghost mut fuel = fuel0;
        proof {
            assert(spec_chain_entries(contents, bpb, fat, first as int, fuel0) =~= spec_dirents(
                childs@,
            ) + spec_chain_entries(contents, bpb, fat, first as int, fuel0));
        }
        loop
            invariant
                *self == *old(self),
                spec_fat_device_wf(old(self).spec_device()),
                contents == old(self).spec_device().contents(),
                bpb == old(self).spec_device().spec_fat_meta(),
                fat == old(self).spec_device().spec_fat_contents(),
                first == old(self).spec_entry().first_cluster as u16,
                fuel0 == spec_chain_fuel(fat),
                fuel <= fuel0,
                spec_children_wf(childs@, old(self).spec_device()),
                match cluster {
                    Some(c) => spec_chain_ends(fat, c as int, fuel) && spec_cluster_safe(
                        old(self).spec_device(),
                        c as int,
                    ) && spec_chain_entries(contents, bpb, fat, first as int, fuel0)
                        == spec_dirents(childs@) + spec_chain_entries(
                        contents,
                        bpb,
                        fat,
                        c as int,
                        fuel,
                    ),
                    None => spec_chain_entries(contents, bpb, fat, first as int, fuel0)
                        == spec_dirents(childs@),
                },
            decreases fuel,
        {
            let cid = match cluster {
                Some(c) => c,
                None => {
                    return Ok(childs);
                },
            };
            let ghost before = childs@;
            let mut sub = self.childs_from_cluster(cid as usize)?;
            let ghost here = sub@;
            childs.append(&mut sub);
            cluster = self.device.fat_table().next_cluster(cid);
            proof {
                assert(spec_dirents(childs@) =~= spec_dirents(before) + spec_dirents(here));
                if let Some(v) = spec_next_cluster(fat, cid as int) {
                    assert(spec_dirents(before) + (spec_dirents(here) + spec_chain_entries(
                        contents,
                        bpb,
                        fat,
                        v as int,
                        (fuel - 1) as nat,
                    )) =~= (spec_dirents(before) + spec_dirents(here)) + spec_chain_entries(
                        contents,
                        bpb,
                        fat,
                        v as int,
                        (fuel - 1) as nat,
                    ));
                }
                fuel = (fuel - 1) as nat;
            }
        }
    }
}

/// A zeroed buffer of `n` bytes.
pub(crate) fn vec_filled(n: usize) -> (r: Vec<u8>)
    ensures
        r@.len() == n,
{
    let mut v: Vec<u8> = Vec::new();
    let mut i: usize = 0;
    while i < n
        invariant
            i <= n,
            v@.len() == i,
        decreases n - i,
    {
        v.push(0);
        i = i + 1;
    }
    v
}

} // verus!
