//! Files: the sectors of a file's cluster chain, and loading the chain's
//! bytes into a buffer.

use vstd::prelude::*;

use crate::device::BlockError;
use crate::device::FatDevice;
use crate::device::spec_cluster_safe;
use crate::device::spec_fat_device_wf;
use crate::dir_entry::DirEntry;
use crate::directory::spec_sector_bytes;
use crate::fat_table::spec_chain_clusters;
use crate::fat_table::spec_chain_ends;
use crate::fat_table::spec_chain_fuel;
use crate::fat_table::spec_chain_sectors;
use crate::fat_table::spec_cluster_sectors;
use crate::fat_table::spec_cluster_start;
use crate::fat_table::spec_next_cluster;

verus! {

/// A file on a FAT device.
pub struct File<'a, T> {
    pub device: &'a T,
    pub entry: DirEntry,
}

impl<'a, T> File<'a, T> {
    /// The device the file lives on.
    pub open spec fn spec_device(self) -> &'a T {
        self.device
    }

    /// The on-disk entry naming this file.
    pub open spec fn spec_entry(self) -> DirEntry {
        self.entry
    }
}

impl<'a, T> File<'a, T> where T: FatDevice {
    /// A file under the given on-disk entry.
    pub fn new(device: &'a T, entry: DirEntry) -> (r: Self)
        ensures
            r.spec_device() == device,
            r.spec_entry()@ == entry@,
    {
        Self { device, entry }
    }

    /// Every data sector of the file, following its cluster chain in order.
    pub fn sectors(&self) -> (r: Vec<u16>)
        requires
            spec_fat_device_wf(self.spec_device()),
            spec_cluster_safe(self.spec_device(), self.spec_entry().first_cluster as u16 as int),
            spec_chain_ends(
                self.spec_device().spec_fat_contents(),
                self.spec_entry().first_cluster as u16 as int,
                spec_chain_fuel(self.spec_device().spec_fat_contents()),
            ),
        ensures
            r@ == spec_chain_sectors(
                self.spec_device().spec_fat_meta(),
                self.spec_device().spec_fat_contents(),
                self.spec_entry().first_cluster as u16 as int,
                spec_chain_fuel(self.spec_device().spec_fat_contents()),
            ),
    {
        let ghost bpb = self.spec_device().spec_fat_meta();
        let ghost fat = self.spec_device().spec_fat_contents();
        let first = self.entry.first_cluster as u16;
        let ghost fuel0 = spec_chain_fuel(fat);
        let mut sectors: Vec<u16> = Vec::new();
        let mut cluster: Option<u16> = Some(first);
        let ghost mut fuel = fuel0;
        proof {
            assert(spec_chain_sectors(bpb, fat, first as int, fuel0) =~= sectors@
                + spec_chain_sectors(bpb, fat, first as int, fuel0));
        }
        loop
            invariant
                spec_fat_device_wf(self.spec_device()),
                bpb == self.spec_device().spec_fat_meta(),
                fat == self.spec_device().spec_fat_contents(),
                first == self.spec_entry().first_cluster as u16,
                fuel0 == spec_chain_fuel(fat),
                match cluster {
                    Some(c) => spec_chain_ends(fat, c as int, fuel) && spec_cluster_safe(
                        self.spec_device(),
                        c as int,
                    ) && spec_chain_sectors(bpb, fat, first as int, fuel0) == sectors@
                        + spec_chain_sectors(bpb, fat, c as int, fuel),
                    None => spec_chain_sectors(bpb, fat, first as int, fuel0) == sectors@,
                },
            decreases fuel,
        {
            let cid = match cluster {
                Some(c) => c,
                None => {
                    return sectors;
                },
            };
            let ghost before = sectors@;
            self.push_cluster_sectors(cid, &mut sectors);
            cluster = self.device.fat_table().next_cluster(cid);
            proof {
                if let Some(v) = spec_next_cluster(fat, cid as int) {
                    assert(before + (spec_cluster_sectors(bpb, cid as int) + spec_chain_sectors(
                        bpb,
                        fat,
                        v as int,
                        (fuel - 1) as nat,
                    )) =~= (before + spec_cluster_sectors(bpb, cid as int)) + spec_chain_sectors(
                        bpb,
                        fat,
                        v as int,
                        (fuel - 1) as nat,
                    ));
                }
                fuel = (fuel - 1) as nat;
            }
        }
    }

    /// Append the data sectors of one cluster.
    fn push_cluster_sectors(&self, cid: u16, sectors: &mut Vec<u16>)
        requires
            spec_fat_device_wf(self.spec_device()),
            spec_cluster_safe(self.spec_device(), cid as int),
        ensures
            final(sectors)@ == old(sectors)@ + spec_cluster_sectors(
                self.spec_device().spec_fat_meta(),
                cid as int,
            ),
    {
        let ghost bpb = self.spec_device().spec_fat_meta();
        let range = self.device.fat_table().cluster_sector(cid);
        let start = range.start;
        let end = range.end;
        let mut s = start;
        while s < end
            invariant
                start <= s <= end,
                start as int == spec_cluster_start(bpb, cid as int),
                end == start + bpb.sector_per_cluster,
                sectors@ == old(sectors)@ + Seq::new((s - start) as nat, |k: int| (start + k) as u16),
            decreases end - s,
        {
            sectors.push(s);
            proof {
                assert(sectors@ =~= old(sectors)@ + Seq::new(
                    (s + 1 - start) as nat,
                    |k: int| (start + k) as u16,
                ));
            }
            s = s + 1;
        }
        proof {
            assert(sectors@ =~= old(sectors)@ + spec_cluster_sectors(bpb, cid as int));
        }
    }

    /// The file's clusters, each paired with its data sectors, in chain
    /// order.
    pub fn cluster_sectors(&self) -> (r: Vec<(u16, Vec<u16>)>)
        requires
            spec_fat_device_wf(self.spec_device()),
            spec_cluster_safe(self.spec_device(), self.spec_entry().first_cluster as u16 as int),
            spec_chain_ends(
                self.spec_device().spec_fat_contents(),
                self.spec_entry().first_cluster as u16 as int,
                spec_chain_fuel(self.spec_device().spec_fat_contents()),
            ),
        ensures
            ({
                let clusters = spec_chain_clusters(
                    self.spec_device().spec_fat_contents(),
                    self.spec_entry().first_cluster as u16 as int,
                    spec_chain_fuel(self.spec_device().spec_fat_contents()),
                );
                &&& r@.len() == clusters.len()
                &&& forall|i: int|
                    0 <= i < clusters.len() ==> (#[trigger] r@[i]).0 == clusters[i] && r@[i].1@
                        == spec_cluster_sectors(
                        self.spec_device().spec_fat_meta(),
                        clusters[i] as int,
                    )
            }),
    {
        let ghost bpb = self.spec_device().spec_fat_meta();
        let ghost fat = self.spec_device().spec_fat_contents();
        let first = self.entry.first_cluster as u16;
        let ghost fuel0 = spec_chain_fuel(fat);
        let ghost clusters = spec_chain_clusters(fat, first as int, fuel0);
        let mut ret: Vec<(u16, Vec<u16>)> = Vec::new();
        let mut cluster: Option<u16> = Some(first);
        let ghost mut fuel = fuel0;
        proof {
            assert(clusters =~= ret@.map_values(|p: (u16, Vec<u16>)| p.0) + spec_chain_clusters(
                fat,
                first as int,
                fuel0,
            ));
        }
        loop
            invariant
                spec_fat_device_wf(self.spec_device()),
                bpb == self.spec_device().spec_fat_meta(),
                fat == self.spec_device().spec_fat_contents(),
                first == self.spec_entry().first_cluster as u16,
                fuel0 == spec_chain_fuel(fat),
                clusters == spec_chain_clusters(fat, first as int, fuel0),
                forall|i: int|
                    0 <= i < ret@.len() ==> (#[trigger] ret@[i]).0 == clusters[i] && ret@[i].1@
                        == spec_cluster_sectors(bpb, clusters[i] as int),
                match cluster {
                    Some(c) => spec_chain_ends(fat, c as int, fuel) && spec_cluster_safe(
                        self.spec_device(),
                        c as int,
                    ) && clusters == ret@.map_values(|p: (u16, Vec<u16>)| p.0)
                        + spec_chain_clusters(fat, c as int, fuel),
                    None => clusters == ret@.map_values(|p: (u16, Vec<u16>)| p.0),
                },
            decreases fuel,
        {
            let cid = match cluster {
                Some(c) => c,
                None => {
                    proof {
                        assert(ret@.map_values(|p: (u16, Vec<u16>)| p.0).len() == ret@.len());
                    }
                    return ret;
                },
            };
            let ghost before = ret@;
            let mut sub: Vec<u16> = Vec::new();
            self.push_cluster_sectors(cid, &mut sub);
            ret.push((cid, sub));
            cluster = self.device.fat_table().next_cluster(cid);
            proof {
                let mapped = ret@.map_values(|p: (u16, Vec<u16>)| p.0);
                assert(mapped =~= before.map_values(|p: (u16, Vec<u16>)| p.0) + seq![cid]);
                if let Some(v) = spec_next_cluster(fat, cid as int) {
                    let rest = spec_chain_clusters(fat, v as int, (fuel - 1) as nat);
                    assert(before.map_values(|p: (u16, Vec<u16>)| p.0) + (seq![cid] + rest) =~= (
                    before.map_values(|p: (u16, Vec<u16>)| p.0) + seq![cid]) + rest);
                }
                fuel = (fuel - 1) as nat;
            }
        }
    }

    /// Load the file's raw sectors into `dst`, chain order, 512 bytes per
    /// sector; bytes of `dst` past the chain's data stay as they were.
    pub fn load_to(&self, dst: &mut Vec<u8>) -> (r: Result<(), BlockError>)
        requires
            spec_fat_device_wf(self.spec_device()),
            spec_cluster_safe(self.spec_device(), self.spec_entry().first_cluster as u16 as int),
            spec_chain_ends(
                self.spec_device().spec_fat_contents(),
                self.spec_entry().first_cluster as u16 as int,
                spec_chain_fuel(self.spec_device().spec_fat_contents()),
            ),
            old(dst)@.len() >= 512 * spec_chain_sectors(
                self.spec_device().spec_fat_meta(),
                self.spec_device().spec_fat_contents(),
                self.spec_entry().first_cluster as u16 as int,
                spec_chain_fuel(self.spec_device().spec_fat_contents()),
            ).len(),
        ensures
            r is Ok,
            final(dst)@.len() == old(dst)@.len(),
            ({
                let sects = spec_chain_sectors(
                    self.spec_device().spec_fat_meta(),
                    self.spec_device().spec_fat_contents(),
                    self.spec_entry().first_cluster as u16 as int,
                    spec_chain_fuel(self.spec_device().spec_fat_contents()),
                );
                &&& forall|k: int|
                    0 <= k < sects.len() ==> final(dst)@.subrange(512 * k, 512 * k + 512)
                        == spec_sector_bytes(
                        self.spec_device().contents(),
                        (#[trigger] sects[k]) as int,
                    )
                &&& forall|j: int|
                    512 * sects.len() <= j < final(dst)@.len() ==> final(dst)@[j] == old(dst)@[j]
            }),
    {
        let ghost bpb = self.spec_device().spec_fat_meta();
        let ghost fat = self.spec_device().spec_fat_contents();
        let ghost contents = self.spec_device().contents();
        let first = self.entry.first_cluster as u16;
        let ghost fuel0 = spec_chain_fuel(fat);
        let ghost sects = spec_chain_sectors(bpb, fat, first as int, fuel0);
        let mut offset: usize = 0;
        let dcap = dst.len();
        let ghost mut done: Seq<u16> = Seq::empty();
        let mut cluster: Option<u16> = Some(first);
        let ghost mut fuel = fuel0;
        proof {
            assert(sects =~= done + sects);
        }
        loop
            invariant
                spec_fat_device_wf(self.spec_device()),
                bpb == self.spec_device().spec_fat_meta(),
                fat == self.spec_device().spec_fat_contents(),
                contents == self.spec_device().contents(),
                first == self.spec_entry().first_cluster as u16,
                fuel0 == spec_chain_fuel(fat),
                sects == spec_chain_sectors(bpb, fat, first as int, fuel0),
                dcap == dst@.len(),
                dst@.len() == old(dst)@.len(),
                old(dst)@.len() >= 512 * sects.len(),
                offset == 512 * done.len(),
                forall|k: int|
                    0 <= k < done.len() ==> dst@.subrange(512 * k, 512 * k + 512)
                        == spec_sector_bytes(contents, (#[trigger] done[k]) as int),
                forall|j: int| offset <= j < dst@.len() ==> dst@[j] == old(dst)@[j],
                match cluster {
                    Some(c) => spec_chain_ends(fat, c as int, fuel) && spec_cluster_safe(
                        self.spec_device(),
                        c as int,
                    ) && sects == done + spec_chain_sectors(bpb, fat, c as int, fuel),
                    None => sects == done,
                },
            decreases fuel,
        {
            let cid = match cluster {
                Some(c) => c,
                None => {
                    return Ok(());
                },
            };
            let range = self.device.fat_table().cluster_sector(cid);
            let start = range.start;
            let end = range.end;
            let ghost before_cluster = done;
            proof {
                assert(bpb.sector_per_cluster * (cid + 1) == bpb.sector_per_cluster * cid
                    + bpb.sector_per_cluster) by (nonlinear_arith);
                assert(end as int == spec_cluster_start(bpb, cid as int + 1));
                assert(spec_chain_sectors(bpb, fat, cid as int, fuel).len()
                    >= spec_cluster_sectors(bpb, cid as int).len());
                assert(done =~= before_cluster + Seq::new(
                    (start - start) as nat,
                    |k: int| (start + k) as u16,
                ));
            }
            let mut s = start;
            while s < end
                invariant
                    start <= s <= end,
                    spec_fat_device_wf(self.spec_device()),
                    bpb == self.spec_device().spec_fat_meta(),
                    fat == self.spec_device().spec_fat_contents(),
                    contents == self.spec_device().contents(),
                    start as int == spec_cluster_start(bpb, cid as int),
                    end == start + bpb.sector_per_cluster,
                    end * 512 <= contents.len(),
                    dcap == dst@.len(),
                    dst@.len() == old(dst)@.len(),
                    old(dst)@.len() >= 512 * sects.len(),
                    offset == 512 * done.len(),
                    offset + 512 * (end - s) <= 512 * sects.len(),
                    done == before_cluster + (Seq::new(
                        (s - start) as nat,
                        |k: int| (start + k) as u16,
                    )),
                    done.len() + (end - s) <= sects.len(),
                    forall|k: int|
                        0 <= k < done.len() ==> dst@.subrange(512 * k, 512 * k + 512)
                            == spec_sector_bytes(contents, (#[trigger] done[k]) as int),
                    forall|j: int| offset <= j < dst@.len() ==> dst@[j] == old(dst)@[j],
                decreases end - s,
            {
                let mut tmp: Vec<u8> = crate::directory::vec_filled(512);
                let rr = self.device.read_block(s as usize, 1, &mut tmp);
                let sector_bytes_ok: bool;
                proof {
                    assert((s as usize + 1) * 512 <= contents.len());
                }
                match rr {
                    Ok(_) => (),
                    Err(e) => {
                        return Err(e);
                    },
                }
                let ghost dpre = dst@;
                let ghost prev = done;
                write_block(dst, offset, &tmp);
                proof {
                    done = done.push(s);
                    assert(done =~= before_cluster + Seq::new(
                        (s + 1 - start) as nat,
                        |k: int| (start + k) as u16,
                    ));
                    assert forall|k: int|
                        0 <= k < done.len() implies dst@.subrange(512 * k, 512 * k + 512)
                        == spec_sector_bytes(contents, (#[trigger] done[k]) as int) by {
                        if k < prev.len() {
                            assert(dst@.subrange(512 * k, 512 * k + 512) =~= dpre.subrange(
                                512 * k,
                                512 * k + 512,
                            ));
                        } else {
                            assert(dst@.subrange(512 * k, 512 * k + 512) =~= tmp@);
                        }
                    }
                }
                offset = offset + 512;
                s = s + 1;
            }
            cluster = self.device.fat_table().next_cluster(cid);
            proof {
                assert(done =~= before_cluster + spec_cluster_sectors(bpb, cid as int));
                if let Some(v) = spec_next_cluster(fat, cid as int) {
                    let rest = spec_chain_sectors(bpb, fat, v as int, (fuel - 1) as nat);
                    assert(before_cluster + (spec_cluster_sectors(bpb, cid as int) + rest) =~= (
                    before_cluster + spec_cluster_sectors(bpb, cid as int)) + rest);
                }
                fuel = (fuel - 1) as nat;
            }
        }
    }
}

/// Copy `src` into `dst` at `offset`: the window takes `src`'s bytes, every
/// other byte stays.
fn write_block(dst: &mut Vec<u8>, offset: usize, src: &Vec<u8>)
    requires
        offset + src@.len() <= old(dst)@.len(),
    ensures
        final(dst)@.len() == old(dst)@.len(),
        final(dst)@.subrange(offset as int, offset + src@.len()) == src@,
        forall|j: int| 0 <= j < offset ==> final(dst)@[j] == old(dst)@[j],
        forall|j: int| offset + src@.len() <= j < old(dst)@.len() ==> final(dst)@[j] == old(dst)@[j],
{
    let n = src.len();
    let dlen = dst.len();
    let mut j: usize = 0;
    while j < n
        invariant
            j <= n,
            n == src@.len(),
            dlen == dst@.len(),
            offset + n <= dlen,
            dst@.len() == old(dst)@.len(),
            forall|m: int| 0 <= m < j ==> dst@[offset + m] == src@[m],
            forall|m: int| 0 <= m < offset ==> dst@[m] == old(dst)@[m],
            forall|m: int| offset + j <= m < dst@.len() ==> dst@[m] == old(dst)@[m],
        decreases n - j,
    {
        dst[offset + j] = src[j];
        j = j + 1;
    }
    proof {
        assert(final(dst)@.subrange(offset as int, offset + src@.len()) =~= src@);
    }
}

} // verus!
