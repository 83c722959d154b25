//! Block devices: the read interface the FAT16 layer walks, and the
//! FAT-bearing device it hangs directory and file logic on.

use vstd::prelude::*;

use crate::bpb::FAT16BPB;
use crate::fat_table::FAT16Table;
use crate::fat_table::spec_cluster_fits;
use crate::fat_table::spec_cluster_start;
use crate::fat_table::spec_next_cluster;

verus! {

/// Why a block operation failed.
#[derive(Debug, PartialEq, Eq, Clone, Copy, Structural)]
pub enum BlockError {
    Busy,
    UnknownDevice,
    Unknown,
    WithStatus(usize),
}

/// A device read block by block. A modeled device — one whose `wf` holds —
/// has a block size and serves reads out of `contents`; a device that cannot
/// promise that (a stub, a flaky bus) leaves `wf` false and only keeps the
/// buffer length intact.
pub trait Device: Sized {
    /// Whether the device is modeled by `contents`.
    spec fn wf(&self) -> bool;

    /// Bytes per block.
    spec fn spec_block_size(&self) -> int;

    /// The device's whole content, block after block.
    spec fn contents(&self) -> Seq<u8>;

    /// The device's block size in bytes.
    fn block_size(&self) -> (r: Result<usize, BlockError>)
        ensures
            self.wf() ==> (r matches Ok(s) && s as int == self.spec_block_size()),
    ;

    /// Read `size` blocks starting at block `offset` into `buf`, which must
    /// hold exactly the bytes read. On a modeled device a read inside the
    /// contents succeeds and fills the buffer from them.
    fn read_block(&self, offset: usize, size: usize, buf: &mut Vec<u8>) -> (r: Result<
        (),
        BlockError,
    >)
        requires
            old(buf)@.len() == size * self.spec_block_size(),
        ensures
            final(buf)@.len() == old(buf)@.len(),
            self.wf() && (offset + size) * self.spec_block_size() <= self.contents().len() ==> (r
                matches Ok(v) && final(buf)@ == self.contents().subrange(
                offset * self.spec_block_size(),
                (offset + size) * self.spec_block_size(),
            )),
    ;
}

/// A device carrying a FAT16 volume: it knows its parameter block and holds
/// the raw file-allocation table.
pub trait FatDevice: Device {
    /// The volume's parameter block.
    spec fn spec_fat_meta(&self) -> FAT16BPB;

    /// The raw bytes of the file-allocation table.
    spec fn spec_fat_contents(&self) -> Seq<u8>;

    /// The volume's parameter block.
    fn fat_meta(&self) -> (r: &FAT16BPB)
        ensures
            *r == self.spec_fat_meta(),
    ;

    /// A table view over the raw file-allocation table.
    fn fat_table<'a>(&'a self) -> (t: FAT16Table<'a>)
        ensures
            t.spec_bpb() == self.spec_fat_meta(),
            t.spec_data() == self.spec_fat_contents(),
    ;
}

/// Cluster `id` can be walked on device `d`: its sector numbers fit 16 bits,
/// its table entry lies inside the raw table, and its data sectors lie inside
/// the device.
pub open spec fn spec_cluster_safe<T: FatDevice>(d: &T, id: int) -> bool {
    &&& spec_cluster_fits(d.spec_fat_meta(), id)
    &&& 2 * id + 1 < d.spec_fat_contents().len()
    &&& spec_cluster_start(d.spec_fat_meta(), id + 1) * 512 <= d.contents().len()
}

/// A FAT device the directory and file walkers can trust: modeled, with
/// 512-byte blocks, contents that fit machine indexing, and a table whose
/// every chain link lands on a walkable cluster.
pub open spec fn spec_fat_device_wf<T: FatDevice>(d: &T) -> bool {
    &&& d.wf()
    &&& d.spec_block_size() == 512
    &&& d.contents().len() <= usize::MAX
    &&& forall|id: int|
        0 <= id && 2 * id + 1 < d.spec_fat_contents().len() ==> match #[trigger] spec_next_cluster(
            d.spec_fat_contents(),
            id,
        ) {
            Some(v) => spec_cluster_safe(d, v as int),
            None => true,
        }
}

} // verus!
