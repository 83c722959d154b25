//! A partition: a window onto an underlying device, shifted by the
//! partition's first sector.

use vstd::prelude::*;

use crate::device::BlockError;
use crate::device::Device;
use crate::partition_table::PartitionMeta;

verus! {

/// One partition of a disk, addressed from its own sector zero.
pub struct Partition<'a, T> {
    inner: &'a T,
    meta: PartitionMeta,
}

impl<'a, T> Partition<'a, T> {
    /// The device the partition sits on.
    pub closed spec fn spec_inner(self) -> &'a T {
        self.inner
    }

    /// The partition record locating it.
    pub closed spec fn spec_meta(self) -> PartitionMeta {
        self.meta
    }
}

impl<'a, T> Partition<'a, T> where T: Device {
    /// View a partition of `inner` under its partition record.
    pub fn new(inner: &'a T, meta: PartitionMeta) -> (r: Self)
        ensures
            r.spec_inner() == inner,
            r.spec_meta() == meta,
    {
        Self { inner, meta }
    }
}

impl<'a, T> Device for Partition<'a, T> where T: Device {
    /// The window is sound when the underlying device is modeled, its blocks
    /// are non-empty, its contents fit machine indexing, and the partition
    /// start lies inside it.
    open spec fn wf(&self) -> bool {
        &&& self.spec_inner().wf()
        &&& self.spec_inner().spec_block_size() >= 1
        &&& self.spec_inner().contents().len() <= usize::MAX
        &&& self.spec_meta().begin_lba * self.spec_inner().spec_block_size()
            <= self.spec_inner().contents().len()
    }

    open spec fn spec_block_size(&self) -> int {
        self.spec_inner().spec_block_size()
    }

    open spec fn contents(&self) -> Seq<u8> {
        self.spec_inner().contents().skip(
            self.spec_meta().begin_lba * self.spec_inner().spec_block_size(),
        )
    }

    fn block_size(&self) -> (r: Result<usize, BlockError>) {
        self.inner.block_size()
    }

    fn read_block(&self, offset: usize, size: usize, buf: &mut Vec<u8>) -> (r: Result<
        (),
        BlockError,
    >) {
        let lba = self.meta.begin_lba as usize;
        let shifted = match offset.checked_add(lba) {
            Some(o) => o,
            None => {
                proof {
                    if self.wf() && (offset + size) * self.spec_block_size()
                        <= self.contents().len() {
                        lemma_window_read(
                            self.spec_inner().contents().len() as int,
                            self.spec_block_size(),
                            self.spec_meta().begin_lba as int,
                            offset as int,
                            size as int,
                        );
                    }
                }
                return Err(BlockError::Unknown);
            },
        };
        let r = self.inner.read_block(shifted, size, buf);
        proof {
            if self.wf() && (offset + size) * self.spec_block_size() <= self.contents().len() {
                let bs = self.spec_block_size();
                let lba_i = self.spec_meta().begin_lba as int;
                let inner_c = self.spec_inner().contents();
                lemma_window_read(inner_c.len() as int, bs, lba_i, offset as int, size as int);
                let win = inner_c.subrange((offset + lba_i) * bs, (offset + lba_i + size) * bs);
                let want = self.contents().subrange(offset * bs, (offset + size) * bs);
                assert forall|i: int| 0 <= i < win.len() implies win[i] == want[i] by {
                    assert(win[i] == inner_c[(offset + lba_i) * bs + i]);
                    assert(want[i] == self.contents()[offset * bs + i]);
                    assert(self.contents()[offset * bs + i] == inner_c[lba_i * bs + (offset * bs
                        + i)]);
                }
                assert(win =~= want);
            }
        }
        r
    }
}

/// Shifting a read inside the window stays inside the device, and the shifted
/// range is the window's range.
proof fn lemma_window_read(inner_len: int, bs: int, lba: int, offset: int, size: int)
    requires
        bs >= 1,
        lba >= 0,
        offset >= 0,
        size >= 0,
        lba * bs <= inner_len,
        (offset + size) * bs <= inner_len - lba * bs,
    ensures
        (offset + lba) * bs == offset * bs + lba * bs,
        (offset + lba + size) * bs == (offset + size) * bs + lba * bs,
        (offset + lba + size) * bs <= inner_len,
        offset + lba + size <= inner_len,
        0 <= offset * bs,
        offset * bs <= (offset + size) * bs,
        0 <= (offset + lba) * bs,
        (offset + lba) * bs <= (offset + lba + size) * bs,
        0 <= lba * bs,
{
    assert((offset + lba) * bs == offset * bs + lba * bs) by (nonlinear_arith);
    assert((offset + lba + size) * bs == (offset + size) * bs + lba * bs) by (nonlinear_arith);
    assert(offset + lba + size <= (offset + lba + size) * bs) by (nonlinear_arith)
        requires
            bs >= 1,
            offset >= 0,
            lba >= 0,
            size >= 0,
    ;
    assert(0 <= offset * bs && offset * bs <= (offset + size) * bs && 0 <= (offset + lba) * bs && (
    offset + lba) * bs <= (offset + lba + size) * bs && 0 <= lba * bs) by (nonlinear_arith)
        requires
            bs >= 1,
            offset >= 0,
            lba >= 0,
            size >= 0,
    ;
}

} // verus!
