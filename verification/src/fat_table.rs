//! The FAT16 file-allocation table: cluster chains and their sector ranges.

use vstd::prelude::*;

use crate::bpb::FAT16BPB;
use crate::bytes::read_u16_le;
use crate::bytes::spec_read_u16_le;

verus! {

/// A view over the raw file-allocation table of a volume, together with the
/// parameter block that fixes the volume's geometry.
pub struct FAT16Table<'a> {
    data: &'a [u8],
    bpb: &'a FAT16BPB,
}

/// The first data sector of cluster `id`: the reserved sectors, then every
/// copy of the allocation table, then `id` clusters of data.
pub open spec fn spec_cluster_start(bpb: FAT16BPB, id: int) -> int {
    bpb.perserved_sectors + bpb.fat_count * bpb.sector_per_fat + bpb.sector_per_cluster * id
}

/// Holds when the sector numbers of cluster `id` fit a 16-bit sector index.
pub open spec fn spec_cluster_fits(bpb: FAT16BPB, id: int) -> bool {
    spec_cluster_start(bpb, id + 1) <= 0xFFFF
}

/// The successor of cluster `id` in the chain: the table entry, when it names
/// a cluster rather than a free, reserved or end-of-chain mark.
pub open spec fn spec_next_cluster(fat: Seq<u8>, id: int) -> Option<u16> {
    let raw = spec_read_u16_le(fat, 2 * id);
    if 1 < raw < 0xFFF0 {
        Some(raw as u16)
    } else {
        None
    }
}

/// Fuel that outlasts every terminating cluster chain of a table: a chain
/// without repeats cannot be longer than the table has bytes.
pub open spec fn spec_chain_fuel(fat: Seq<u8>) -> nat {
    fat.len() + 1
}

/// The chain starting at cluster `id` reaches its end mark within `fuel`
/// steps. A chain that revisits a cluster never ends.
pub open spec fn spec_chain_ends(fat: Seq<u8>, id: int, fuel: nat) -> bool
    decreases fuel,
{
    if fuel == 0 {
        false
    } else {
        match spec_next_cluster(fat, id) {
            Some(v) => spec_chain_ends(fat, v as int, (fuel - 1) as nat),
            None => true,
        }
    }
}

/// The data sectors of cluster `id`, in ascending order.
pub open spec fn spec_cluster_sectors(bpb: FAT16BPB, id: int) -> Seq<u16> {
    Seq::new(bpb.sector_per_cluster as nat, |k: int| (spec_cluster_start(bpb, id) + k) as u16)
}

/// Every data sector of the chain starting at cluster `id`, cluster after
/// cluster, within `fuel` steps.
pub open spec fn spec_chain_sectors(bpb: FAT16BPB, fat: Seq<u8>, id: int, fuel: nat) -> Seq<u16>
    decreases fuel,
{
    if fuel == 0 {
        Seq::empty()
    } else {
        match spec_next_cluster(fat, id) {
            Some(v) => spec_cluster_sectors(bpb, id) + spec_chain_sectors(
                bpb,
                fat,
                v as int,
                (fuel - 1) as nat,
            ),
            None => spec_cluster_sectors(bpb, id),
        }
    }
}

/// The clusters of the chain starting at `id`, in chain order, within `fuel`
/// steps.
pub open spec fn spec_chain_clusters(fat: Seq<u8>, id: int, fuel: nat) -> Seq<u16>
    decreases fuel,
{
    if fuel == 0 {
        Seq::empty()
    } else {
        match spec_next_cluster(fat, id) {
            Some(v) => seq![id as u16] + spec_chain_clusters(fat, v as int, (fuel - 1) as nat),
            None => seq![id as u16],
        }
    }
}

impl<'a> FAT16Table<'a> {
    /// The raw table bytes.
    pub closed spec fn spec_data(&self) -> Seq<u8> {
        self.data@
    }

    /// The parameter block the table was built over.
    pub closed spec fn spec_bpb(&self) -> FAT16BPB {
        *self.bpb
    }

    /// Build a table view. Rejects a buffer shorter than the table size the
    /// parameter block announces, reporting the buffer length.
    pub fn new(bpb: &'a FAT16BPB, data: &'a [u8]) -> (r: Result<Self, usize>)
        ensures
            match r {
                Ok(t) => {
                    &&& data@.len() >= bpb.sector_per_fat * bpb.bytes_per_sector
                    &&& t.spec_data() == data@
                    &&& t.spec_bpb() == *bpb
                },
                Err(n) => {
                    &&& data@.len() < bpb.sector_per_fat * bpb.bytes_per_sector
                    &&& n == data@.len()
                },
            },
    {
        proof {
            assert(bpb.sector_per_fat * bpb.bytes_per_sector <= 0xFFFF * 0xFFFF)
                by (nonlinear_arith)
                requires
                    bpb.sector_per_fat <= 0xFFFF,
                    bpb.bytes_per_sector <= 0xFFFF,
            ;
        }
        if data.len() < (bpb.sector_per_fat as usize) * (bpb.bytes_per_sector as usize) {
            return Err(data.len());
        }

        Ok(Self { data, bpb })
    }

    /// The range of data sectors belonging to cluster `id`.
    pub fn cluster_sector(&self, id: u16) -> (r: core::ops::Range<u16>)
        requires
            spec_cluster_fits(self.spec_bpb(), id as int),
        ensures
            r.start == spec_cluster_start(self.spec_bpb(), id as int),
            r.end == spec_cluster_start(self.spec_bpb(), id as int)
                + self.spec_bpb().sector_per_cluster,
    {
        proof {
            let bpb = self.spec_bpb();
            assert(bpb.sector_per_cluster * (id + 1) == bpb.sector_per_cluster * id
                + bpb.sector_per_cluster) by (nonlinear_arith);
            assert(bpb.sector_per_cluster * id >= 0) by (nonlinear_arith);
        }
        let start = self.bpb.perserved_sectors + (self.bpb.fat_count as u16)
            * self.bpb.sector_per_fat + (self.bpb.sector_per_cluster as u16) * id;
        let end = start + self.bpb.sector_per_cluster as u16;
        start..end
    }

    /// The successor of cluster `id` in its chain, or `None` at the end of
    /// the chain.
    pub fn next_cluster(&self, id: u16) -> (r: Option<u16>)
        requires
            2 * id + 1 < self.spec_data().len(),
        ensures
            r == spec_next_cluster(self.spec_data(), id as int),
    {
        let raw = read_u16_le(self.data, 2 * (id as usize));
        if raw > 0x0001 && raw < 0xFFF0 {
            Some(raw)
        } else {
            None
        }
    }
}

} // verus!
