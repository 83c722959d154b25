//! Physical memory: the boot-time memory map and the frame allocator drawn
//! from its usable regions.

use vstd::prelude::*;

verus! {

/// All physical memory is also mapped at this virtual offset.
pub const PHYSICAL_OFFSET: u64 = 0xFFFF_8000_0000_0000;

/// The virtual address through which physical address `addr` is reachable in
/// the kernel's physical-memory window.
pub fn physical_to_virtual(addr: usize) -> (r: usize)
    requires
        addr + PHYSICAL_OFFSET <= usize::MAX,
    ensures
        r == addr + PHYSICAL_OFFSET,
{
    addr + PHYSICAL_OFFSET as usize
}

/// The class of a memory-map region, as the firmware reports it.
#[derive(Debug, PartialEq, Eq, Clone, Copy, Structural)]
pub enum MemoryKind {
    /// Conventional memory, free for the kernel to allocate.
    Conventional,
    /// Memory the firmware keeps: code, data, device ranges.
    Reserved,
}

/// One region of the firmware memory map.
#[derive(Debug, PartialEq, Eq, Clone, Copy, Structural)]
pub struct MemoryDescriptor {
    /// Physical address where the region starts.
    pub phys_start: u64,
    /// Length of the region in 4096-byte pages.
    pub page_count: u64,
    /// Region class.
    pub ty: MemoryKind,
}

/// The memory map the bootloader hands over, immutable afterwards.
pub struct MemoryMap {
    pub descriptors: Vec<MemoryDescriptor>,
}

/// A page-aligned physical page frame.
#[derive(Debug, PartialEq, Eq, Clone, Copy, Structural)]
pub struct PhysFrame {
    /// Physical address of the frame's first byte, a multiple of 4096.
    pub base: u64,
}

/// The frame containing the `index`-th page of region `d`: page addresses are
/// aligned down to their 4096-byte frame.
pub open spec fn spec_frame_at(d: MemoryDescriptor, index: int) -> int {
    d.phys_start - (d.phys_start % 4096) + 4096 * index
}

/// Every frame the allocator may still hand out of region `d`, starting at
/// page `page`: nothing of a reserved region, the pages from `page` on of a
/// conventional one.
pub open spec fn spec_region_frames_from(d: MemoryDescriptor, page: int) -> Seq<int> {
    if d.ty is Conventional && 0 <= page <= d.page_count {
        Seq::new((d.page_count - page) as nat, |i: int| spec_frame_at(d, page + i))
    } else {
        Seq::empty()
    }
}

/// Every frame the allocator may still hand out, from page `page` of region
/// `region` through the end of the map, in map order.
pub open spec fn spec_frames_from(descs: Seq<MemoryDescriptor>, region: int, page: int) -> Seq<int>
    decreases descs.len() - region,
{
    if region < 0 || region >= descs.len() {
        Seq::empty()
    } else {
        spec_region_frames_from(descs[region], page) + spec_frames_from(descs, region + 1, 0)
    }
}

/// Machine bounds on a memory map: every region lies below 2^52, so frame
/// addresses fit the page-table address field.
pub open spec fn spec_map_wf(descs: Seq<MemoryDescriptor>) -> bool {
    forall|i: int|
        0 <= i < descs.len() ==> #[trigger] spec_frame_at(descs[i], descs[i].page_count as int)
            <= 0x10_0000_0000_0000
}

/// Regions of the map appear in ascending physical order and do not overlap.
pub open spec fn spec_map_sorted(descs: Seq<MemoryDescriptor>) -> bool {
    forall|i: int|
        0 <= i < descs.len() - 1 ==> #[trigger] spec_frame_at(descs[i], descs[i].page_count as int)
            <= spec_frame_at(descs[i + 1], 0)
}

/// Holds of a sequence whose elements strictly increase.
pub open spec fn spec_increasing(s: Seq<int>) -> bool {
    forall|i: int, j: int| 0 <= i < j < s.len() ==> s[i] < s[j]
}

/// Hands out unused physical frames from the usable regions of the boot-time
/// memory map, in map order. Frames are never taken back.
pub struct BootInfoFrameAllocator {
    map: MemoryMap,
    region: usize,
    page: u64,
}

impl BootInfoFrameAllocator {
    /// The map regions the allocator draws from.
    pub closed spec fn spec_descriptors(&self) -> Seq<MemoryDescriptor> {
        self.map.descriptors@
    }

    /// The frames not yet handed out, in the order they will be returned.
    pub closed spec fn spec_remaining(&self) -> Seq<int> {
        spec_frames_from(self.map.descriptors@, self.region as int, self.page as int)
    }

    /// The allocator's cursor stands inside the map.
    pub closed spec fn wf(&self) -> bool {
        &&& spec_map_wf(self.map.descriptors@)
        &&& self.region <= self.map.descriptors@.len()
    }

    /// Create an allocator over the given memory map, with every usable frame
    /// still available.
    pub fn init(map: MemoryMap) -> (r: Self)
        requires
            spec_map_wf(map.descriptors@),
        ensures
            r.wf(),
            r.spec_descriptors() == map.descriptors@,
            r.spec_remaining() == spec_frames_from(map.descriptors@, 0, 0),
    {
        Self { map, region: 0, page: 0 }
    }

    /// Hand out the next usable frame, or report exhaustion. Each frame is
    /// returned at most once and never returns to the pool.
    pub fn allocate_frame(&mut self) -> (r: Option<PhysFrame>)
        requires
            old(self).wf(),
        ensures
            final(self).wf(),
            final(self).spec_descriptors() == old(self).spec_descriptors(),
            old(self).spec_remaining().len() == 0 ==> r is None && final(self).spec_remaining()
                == old(self).spec_remaining(),
            old(self).spec_remaining().len() > 0 ==> r == Some(
                PhysFrame { base: old(self).spec_remaining()[0] as u64 },
            ) && final(self).spec_remaining() == old(self).spec_remaining().drop_first(),
    {
        let ghost orig = *self;
        loop
            invariant
                self.wf(),
                self.map.descriptors@ == orig.spec_descriptors(),
                spec_frames_from(self.map.descriptors@, self.region as int, self.page as int)
                    == orig.spec_remaining(),
                orig == *old(self),
            decreases self.map.descriptors@.len() - self.region,
        {
            if self.region >= self.map.descriptors.len() {
                return None;
            }
            let d = self.map.descriptors[self.region];
            let usable = matches!(d.ty, MemoryKind::Conventional);
            if usable && self.page < d.page_count {
                let ghost descs = self.map.descriptors@;
                let ghost region = self.region as int;
                let ghost page = self.page as int;
                proof {
                    assert(spec_frame_at(d, page) >= 0) by {
                        assert(4096 * page >= 0) by (nonlinear_arith)
                            requires
                                page >= 0,
                        ;
                    }
                    assert(spec_frame_at(d, page) <= spec_frame_at(d, d.page_count as int)) by {
                        assert(4096 * page <= 4096 * d.page_count) by (nonlinear_arith)
                            requires
                                page <= d.page_count,
                        ;
                    }
                    assert(spec_region_frames_from(d, page) =~= seq![spec_frame_at(d, page)]
                        + spec_region_frames_from(d, page + 1));
                    assert(spec_frames_from(descs, region, page) =~= seq![spec_frame_at(d, page)]
                        + spec_frames_from(descs, region, page + 1));
                }
                proof {
                    assert((seq![spec_frame_at(d, page)] + spec_frames_from(
                        descs,
                        region,
                        page + 1,
                    )).drop_first() =~= spec_frames_from(descs, region, page + 1));
                    assert(d.phys_start % 4096 <= d.phys_start) by (nonlinear_arith);
                }
                let aligned = d.phys_start - d.phys_start % 4096;
                let frame = aligned + 4096 * self.page;
                self.page = self.page + 1;
                return Some(PhysFrame { base: frame });
            }
            proof {
                assert(spec_region_frames_from(d, self.page as int) =~= Seq::<int>::empty());
                assert(spec_frames_from(
                    self.map.descriptors@,
                    self.region as int,
                    self.page as int,
                ) =~= spec_frames_from(self.map.descriptors@, self.region as int + 1, 0));
            }
            self.region = self.region + 1;
            self.page = 0;
        }
    }
}

/// Frame uniqueness: over a well-formed, sorted memory map the allocator's
/// frame sequence strictly increases, so any run of `allocate_frame` calls
/// returns pairwise distinct frames in ascending address order.
pub proof fn lemma_frame_uniqueness(descs: Seq<MemoryDescriptor>)
    requires
        spec_map_wf(descs),
        spec_map_sorted(descs),
    ensures
        spec_increasing(spec_frames_from(descs, 0, 0)),
{
    lemma_frames_from_increasing(descs, 0);
}

/// From any region on, the pending frame sequence strictly increases and
/// stays at or above the region's aligned start.
proof fn lemma_frames_from_increasing(descs: Seq<MemoryDescriptor>, region: int)
    requires
        spec_map_wf(descs),
        spec_map_sorted(descs),
        0 <= region <= descs.len(),
    ensures
        spec_increasing(spec_frames_from(descs, region, 0)),
        region < descs.len() ==> forall|k: int|
            0 <= k < spec_frames_from(descs, region, 0).len() ==> spec_frames_from(
                descs,
                region,
                0,
            )[k] >= spec_frame_at(descs[region], 0),
    decreases descs.len() - region,
{
    if region >= descs.len() {
        return ;
    }
    let d = descs[region];
    let here = spec_region_frames_from(d, 0);
    let rest = spec_frames_from(descs, region + 1, 0);
    lemma_frames_from_increasing(descs, region + 1);
    assert forall|i: int, j: int| 0 <= i < j < here.len() implies here[i] < here[j] by {
        assert(4096 * i < 4096 * j) by (nonlinear_arith)
            requires
                i < j,
        ;
    }
    assert forall|k: int| 0 <= k < here.len() implies here[k] >= spec_frame_at(d, 0) by {
        assert(4096 * k >= 0) by (nonlinear_arith)
            requires
                k >= 0,
        ;
    }
    assert forall|k: int| 0 <= k < here.len() implies here[k] < spec_frame_at(
        d,
        d.page_count as int,
    ) by {
        assert(4096 * k < 4096 * d.page_count) by (nonlinear_arith)
            requires
                k < d.page_count,
        ;
    }
    if region + 1 < descs.len() {
        assert(spec_frame_at(d, d.page_count as int) <= spec_frame_at(descs[region + 1], 0));
    }
}

} // verus!
