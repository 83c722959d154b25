//! The page-table arena: a model of the machine's four-level translation
//! tables, addressed by physical frame, plus the active-root register.

use vstd::prelude::*;

use crate::mem::BootInfoFrameAllocator;
use crate::mem::PhysFrame;

verus! {

/// Entries per table at every level.
pub const PAGE_TABLE_ENTRIES: usize = 512;

/// The bits of an entry that hold the physical address of the next table or
/// of the mapped frame.
pub const ENTRY_ADDR_MASK: u64 = 0x000F_FFFF_FFFF_F000;

/// The present bit of an entry.
pub const ENTRY_PRESENT: u64 = 1;

/// Why a mapping request failed.
#[derive(Debug, PartialEq, Eq, Clone, Copy, Structural)]
pub enum MapError {
    /// The virtual page already has a live mapping; it is reported, never
    /// silently overwritten.
    AlreadyMapped,
    /// The frame allocator ran out while building intermediate tables.
    FrameExhausted,
}

/// One translation table: the 4096-byte frame it occupies, its level in the
/// radix tree (4 at the root, 1 at the leaves), and its 512 entries.
pub struct TableFrame {
    base: u64,
    level: u8,
    entries: Vec<u64>,
}

/// Whether an entry maps something.
pub open spec fn entry_present(e: u64) -> bool {
    e & ENTRY_PRESENT == ENTRY_PRESENT
}

/// The physical address an entry points at.
pub open spec fn entry_addr(e: u64) -> u64 {
    e & ENTRY_ADDR_MASK
}

impl TableFrame {
    /// Physical address of the table's frame.
    pub closed spec fn spec_base(&self) -> u64 {
        self.base
    }

    /// Level in the radix tree, 4 down to 1.
    pub closed spec fn spec_level(&self) -> u8 {
        self.level
    }

    /// The 512 entries.
    pub closed spec fn spec_entries(&self) -> Seq<u64> {
        self.entries@
    }

    /// A structurally sound table: full width, a level of the tree, and a
    /// page-aligned frame address below 2^52.
    pub open spec fn wf(&self) -> bool {
        &&& self.spec_entries().len() == 512
        &&& 1 <= self.spec_level() <= 4
        &&& self.spec_base() % 4096 == 0
        &&& self.spec_base() < 0x10_0000_0000_0000
    }
}

/// The index of the first table whose frame is `base`, searching from `i`;
/// -1 when there is none.
pub open spec fn spec_base_index_from(frames: Seq<TableFrame>, base: u64, i: int) -> int
    decreases frames.len() - i,
{
    if i < 0 || i >= frames.len() {
        -1
    } else if frames[i].spec_base() == base {
        i
    } else {
        spec_base_index_from(frames, base, i + 1)
    }
}

/// The index of the table whose frame is `base`, or -1.
pub open spec fn spec_base_index(frames: Seq<TableFrame>, base: u64) -> int {
    spec_base_index_from(frames, base, 0)
}

/// What `spec_base_index_from` finds: the first match at or after `i`.
proof fn lemma_base_index_from_props(frames: Seq<TableFrame>, base: u64, i: int)
    requires
        0 <= i <= frames.len(),
    ensures
        spec_base_index_from(frames, base, i) == -1 || spec_base_index_from(frames, base, i) >= i,
        spec_base_index_from(frames, base, i) == -1 ==> forall|j: int|
            i <= j < frames.len() ==> frames[j].spec_base() != base,
        spec_base_index_from(frames, base, i) >= 0 ==> i <= spec_base_index_from(frames, base, i)
            < frames.len(),
        spec_base_index_from(frames, base, i) >= 0 ==> frames[spec_base_index_from(
            frames,
            base,
            i,
        )].spec_base() == base,
        spec_base_index_from(frames, base, i) >= 0 ==> forall|j: int|
            i <= j < spec_base_index_from(frames, base, i) ==> frames[j].spec_base() != base,
    decreases frames.len() - i,
{
    if i < frames.len() && frames[i].spec_base() != base {
        lemma_base_index_from_props(frames, base, i + 1);
    }
}

/// In a sequence of pairwise distinct frames, each table is found under its
/// own frame address.
proof fn lemma_base_index_of(frames: Seq<TableFrame>, j: int)
    requires
        0 <= j < frames.len(),
        forall|a: int, b: int|
            0 <= a < b < frames.len() ==> frames[a].spec_base() != frames[b].spec_base(),
    ensures
        spec_base_index(frames, frames[j].spec_base()) == j,
{
    lemma_base_index_from_props(frames, frames[j].spec_base(), 0);
    let r = spec_base_index(frames, frames[j].spec_base());
    if r == -1 {
        assert(frames[j].spec_base() != frames[j].spec_base());
    } else if r < j {
        assert(frames[r].spec_base() != frames[j].spec_base());
    } else if r > j {
        assert(frames[j].spec_base() != frames[j].spec_base());
    }
}

/// Extending a frame sequence, or rewriting tables in place without touching
/// their frame addresses, moves no table's index.
proof fn lemma_base_index_extend(f1: Seq<TableFrame>, f2: Seq<TableFrame>, base: u64, i: int)
    requires
        f2.len() >= f1.len(),
        forall|j: int| 0 <= j < f1.len() ==> f2[j].spec_base() == f1[j].spec_base(),
        0 <= i <= f1.len(),
    ensures
        spec_base_index_from(f1, base, i) >= 0 ==> spec_base_index_from(f2, base, i)
            == spec_base_index_from(f1, base, i),
        spec_base_index_from(f1, base, i) == -1 && spec_base_index_from(f2, base, i) >= 0
            ==> spec_base_index_from(f2, base, i) >= f1.len(),
    decreases f1.len() - i,
{
    if i < f1.len() && f1[i].spec_base() != base {
        lemma_base_index_extend(f1, f2, base, i + 1);
    } else if i == f1.len() {
        lemma_base_index_from_props(f2, base, i);
    }
}

/// A sound collection of tables: sound tables on distinct frames, and every
/// present entry of a non-leaf table pointing at a table one level down.
pub open spec fn frames_wf(frames: Seq<TableFrame>) -> bool {
    &&& forall|i: int| 0 <= i < frames.len() ==> (#[trigger] frames[i]).wf()
    &&& forall|a: int, b: int|
        0 <= a < b < frames.len() ==> frames[a].spec_base() != frames[b].spec_base()
    &&& forall|i: int, e: int|
        0 <= i < frames.len() && frames[i].spec_level() >= 2 && 0 <= e < 512 && entry_present(
            #[trigger] frames[i].spec_entries()[e],
        ) ==> {
            let c = spec_base_index(frames, entry_addr(frames[i].spec_entries()[e]));
            &&& c >= 0
            &&& frames[c].spec_level() + 1 == frames[i].spec_level()
        }
}

/// The page-table arena and the active-root register. Every live translation
/// table of the machine is a `TableFrame` here; `active` mirrors the CPU's
/// root-table pointer.
pub struct PageTables {
    frames: Vec<TableFrame>,
    active: u64,
}

impl PageTables {
    /// The tables of the arena.
    pub closed spec fn spec_frames(&self) -> Seq<TableFrame> {
        self.frames@
    }

    /// The root-table pointer.
    pub closed spec fn spec_active(&self) -> u64 {
        self.active
    }

    /// A sound arena: sound tables on distinct frames, and every present
    /// entry of a non-leaf table pointing at a table one level down.
    pub open spec fn wf(&self) -> bool {
        frames_wf(self.spec_frames())
    }

    /// The active pointer names a root table of the arena.
    pub open spec fn active_is_root(&self) -> bool {
        let a = spec_base_index(self.spec_frames(), self.spec_active());
        &&& a >= 0
        &&& self.spec_frames()[a].spec_level() == 4
    }

    /// An arena of one empty root table, active.
    pub fn new(root_base: u64) -> (r: Self)
        requires
            root_base % 4096 == 0,
            root_base < 0x10_0000_0000_0000,
        ensures
            r.wf(),
            r.active_is_root(),
            r.spec_active() == root_base,
            r.spec_frames().len() == 1,
            r.spec_frames()[0].spec_base() == root_base,
            r.spec_frames()[0].spec_level() == 4,
            forall|e: int| 0 <= e < 512 ==> r.spec_frames()[0].spec_entries()[e] == 0,
    {
        let entries: Vec<u64> = vec_zeroes(512);
        let root = TableFrame { base: root_base, level: 4, entries };
        let r = Self { frames: vec![root], active: root_base };
        proof {
            assert(0u64 & 1u64 == 0u64) by (bit_vector);
            assert(r.spec_frames()[0].spec_base() == root_base);
        }
        r
    }

    /// The CPU's current root-table pointer.
    pub fn active_root(&self) -> (r: u64)
        ensures
            r == self.spec_active(),
    {
        self.active
    }

    /// Load a new root-table pointer, as a write to the CPU's control
    /// register would; the translation cache flush that the hardware performs
    /// has no counterpart in the model.
    pub fn switch_to(&mut self, root: u64)
        ensures
            final(self).spec_frames() == old(self).spec_frames(),
            final(self).spec_active() == root,
    {
        self.active = root;
    }

    /// Find the arena index of the table on frame `base`.
    fn find_table(&self, base: u64) -> (r: Option<usize>)
        ensures
            match r {
                Some(i) => spec_base_index(self.spec_frames(), base) == i,
                None => spec_base_index(self.spec_frames(), base) == -1,
            },
    {
        let n = self.frames.len();
        let mut i: usize = 0;
        while i < n
            invariant
                0 <= i <= n,
                n == self.spec_frames().len(),
                spec_base_index(self.spec_frames(), base) == spec_base_index_from(
                    self.spec_frames(),
                    base,
                    i as int,
                ),
            decreases n - i,
        {
            if self.frames[i].base == base {
                return Some(i);
            }
            i = i + 1;
        }
        None
    }

    /// Read entry `slot` of the table on frame `base`, if the arena holds one.
    pub fn table_entry(&self, base: u64, slot: usize) -> (r: Option<u64>)
        requires
            self.wf(),
            slot < 512,
        ensures
            match r {
                Some(e) => {
                    let i = spec_base_index(self.spec_frames(), base);
                    i >= 0 && e == self.spec_frames()[i].spec_entries()[slot as int]
                },
                None => spec_base_index(self.spec_frames(), base) == -1,
            },
    {
        match self.find_table(base) {
            Some(i) => {
                proof {
                    lemma_base_index_from_props(self.spec_frames(), base, 0);
                }
                Some(self.frames[i].entries[slot])
            },
            None => None,
        }
    }

    /// Whether the arena holds a table on frame `base`.
    pub fn has_table(&self, base: u64) -> (r: bool)
        ensures
            r == (spec_base_index(self.spec_frames(), base) >= 0),
    {
        matches!(self.find_table(base), Some(_))
    }

    /// Overwrite one entry of table `ti`.
    fn set_entry(&mut self, ti: usize, slot: usize, v: u64)
        requires
            ti < old(self).spec_frames().len(),
            slot < old(self).spec_frames()[ti as int].spec_entries().len(),
        ensures
            final(self).spec_active() == old(self).spec_active(),
            final(self).spec_frames().len() == old(self).spec_frames().len(),
            forall|j: int|
                0 <= j < old(self).spec_frames().len() && j != ti ==> final(self).spec_frames()[j]
                    == old(self).spec_frames()[j],
            final(self).spec_frames()[ti as int].spec_base() == old(self).spec_frames()[
                ti as int
            ].spec_base(),
            final(self).spec_frames()[ti as int].spec_level() == old(self).spec_frames()[
                ti as int
            ].spec_level(),
            final(self).spec_frames()[ti as int].spec_entries() == old(self).spec_frames()[
                ti as int
            ].spec_entries().update(slot as int, v),
    {
        let t = &mut self.frames[ti];
        t.entries[slot] = v;
    }
}

/// Frames an allocator may still hand out, seen against an arena: page
/// aligned, below 2^52, in strictly ascending order, and disjoint from every
/// table frame already in use.
pub open spec fn spec_fresh_frames(rem: Seq<int>, frames: Seq<TableFrame>) -> bool {
    &&& forall|k: int|
        0 <= k < rem.len() ==> (#[trigger] rem[k]) % 4096 == 0 && 0 <= rem[k]
            < 0x10_0000_0000_0000
    &&& forall|k: int, j: int|
        #![trigger rem[k], frames[j].spec_base()]
        0 <= k < rem.len() && 0 <= j < frames.len() ==> rem[k] != frames[j].spec_base() as int
    &&& forall|k1: int, k2: int| 0 <= k1 < k2 < rem.len() ==> rem[k1] < rem[k2]
}

/// The index a virtual address selects in a table of the given level.
pub open spec fn spec_table_index(virt: u64, level: int) -> int {
    ((virt >> ((12 + 9 * (level - 1)) as u64)) & 0x1ff) as int
}

/// What the arena translates `virt` to under the root table on frame `root`:
/// the leaf entry reached by the four-level walk, when every step is present.
pub open spec fn spec_translate(t: &PageTables, root: u64, virt: u64) -> Option<u64> {
    let frames = t.spec_frames();
    let i4 = spec_base_index(frames, root);
    if i4 < 0 {
        None
    } else {
        let e4 = frames[i4].spec_entries()[spec_table_index(virt, 4)];
        if !entry_present(e4) {
            None
        } else {
            let i3 = spec_base_index(frames, entry_addr(e4));
            if i3 < 0 {
                None
            } else {
                let e3 = frames[i3].spec_entries()[spec_table_index(virt, 3)];
                if !entry_present(e3) {
                    None
                } else {
                    let i2 = spec_base_index(frames, entry_addr(e3));
                    if i2 < 0 {
                        None
                    } else {
                        let e2 = frames[i2].spec_entries()[spec_table_index(virt, 2)];
                        if !entry_present(e2) {
                            None
                        } else {
                            let i1 = spec_base_index(frames, entry_addr(e2));
                            if i1 < 0 {
                                None
                            } else {
                                let e1 = frames[i1].spec_entries()[spec_table_index(virt, 1)];
                                if entry_present(e1) {
                                    Some(e1)
                                } else {
                                    None
                                }
                            }
                        }
                    }
                }
            }
        }
    }
}

/// A page-aligned address below 2^52, carrying low flag bits, yields an entry
/// that stores the address exactly and is present when bit zero of the flags
/// is set.
proof fn lemma_entry_encoding(b: u64, f: u64)
    requires
        b % 4096 == 0,
        b < 0x10_0000_0000_0000,
        f <= 0xfff,
    ensures
        entry_addr(b | f) == b,
        f & 1 == 1 ==> entry_present(b | f),
{
    vstd::bits::lemma_u64_low_bits_mask_is_mod(b, 12);
    vstd::bits::lemma_low_bits_mask_values();
    vstd::arithmetic::power2::lemma2_to64();
    assert(b & 0xfff == 0);
    assert((b | f) & 0x000F_FFFF_FFFF_F000u64 == b && (f & 1 == 1 ==> (b | f) & 1u64 == 1u64))
        by (bit_vector)
        requires
            b & 0xfff == 0,
            b < 0x10_0000_0000_0000u64,
            f <= 0xfff,
    ;
}

impl PageTables {
    /// The index a virtual address selects at the given level.
    fn table_index(virt: u64, level: u8) -> (r: usize)
        requires
            1 <= level <= 4,
        ensures
            r == spec_table_index(virt, level as int),
            r < 512,
    {
        let shift: u64 = 12 + 9 * ((level - 1) as u64);
        let idx = (virt >> shift) & 0x1ff;
        proof {
            assert((virt >> shift) & 0x1ff < 512) by (bit_vector);
        }
        idx as usize
    }

    /// Walk the four levels under the root table on frame `root` and return
    /// the leaf entry mapping `virt`, if each step is present.
    pub fn translate(&self, root: u64, virt: u64) -> (r: Option<u64>)
        requires
            self.wf(),
        ensures
            r == spec_translate(self, root, virt),
    {
        let i4 = match self.find_table(root) {
            Some(i) => i,
            None => {
                return None;
            },
        };
        proof {
            lemma_base_index_from_props(self.spec_frames(), root, 0);
        }
        let e4 = self.frames[i4].entries[Self::table_index(virt, 4)];
        if e4 & ENTRY_PRESENT != ENTRY_PRESENT {
            return None;
        }
        let i3 = match self.find_table(e4 & ENTRY_ADDR_MASK) {
            Some(i) => i,
            None => {
                return None;
            },
        };
        proof {
            lemma_base_index_from_props(self.spec_frames(), entry_addr(e4), 0);
        }
        let e3 = self.frames[i3].entries[Self::table_index(virt, 3)];
        if e3 & ENTRY_PRESENT != ENTRY_PRESENT {
            return None;
        }
        let i2 = match self.find_table(e3 & ENTRY_ADDR_MASK) {
            Some(i) => i,
            None => {
                return None;
            },
        };
        proof {
            lemma_base_index_from_props(self.spec_frames(), entry_addr(e3), 0);
        }
        let e2 = self.frames[i2].entries[Self::table_index(virt, 2)];
        if e2 & ENTRY_PRESENT != ENTRY_PRESENT {
            return None;
        }
        let i1 = match self.find_table(e2 & ENTRY_ADDR_MASK) {
            Some(i) => i,
            None => {
                return None;
            },
        };
        proof {
            lemma_base_index_from_props(self.spec_frames(), entry_addr(e2), 0);
        }
        let e1 = self.frames[i1].entries[Self::table_index(virt, 1)];
        if e1 & ENTRY_PRESENT == ENTRY_PRESENT {
            Some(e1)
        } else {
            None
        }
    }

    /// Allocate a frame and set up on it a byte-for-byte copy of the active
    /// root table, so every top-level kernel mapping is inherited; the copy
    /// becomes a root of its own, left inactive. Returns `None` exactly when
    /// the allocator is exhausted.
    pub fn new_address_space(&mut self, alloc: &mut BootInfoFrameAllocator) -> (r: Option<u64>)
        requires
            old(self).wf(),
            old(self).active_is_root(),
            old(alloc).wf(),
            spec_fresh_frames(old(alloc).spec_remaining(), old(self).spec_frames()),
        ensures
            final(self).wf(),
            final(self).active_is_root(),
            final(self).spec_active() == old(self).spec_active(),
            final(alloc).wf(),
            final(alloc).spec_descriptors() == old(alloc).spec_descriptors(),
            spec_fresh_frames(final(alloc).spec_remaining(), final(self).spec_frames()),
            forall|j: int|
                0 <= j < old(self).spec_frames().len() ==> final(self).spec_frames()[j] == old(
                    self,
                ).spec_frames()[j],
            old(alloc).spec_remaining().len() == 0 ==> r is None && final(self).spec_frames()
                == old(self).spec_frames() && final(alloc).spec_remaining() == old(
                alloc,
            ).spec_remaining(),
            old(alloc).spec_remaining().len() > 0 ==> {
                let root = old(alloc).spec_remaining()[0] as u64;
                let frames = final(self).spec_frames();
                let n = old(self).spec_frames().len() as int;
                &&& r == Some(root)
                &&& final(alloc).spec_remaining() == old(alloc).spec_remaining().drop_first()
                &&& frames.len() == n + 1
                &&& frames[n].spec_base() == root
                &&& frames[n].spec_level() == 4
                &&& frames[n].spec_entries() == old(self).spec_frames()[spec_base_index(
                    old(self).spec_frames(),
                    old(self).spec_active(),
                )].spec_entries()
            },
    {
        let ghost rem0 = old(alloc).spec_remaining();
        match alloc.allocate_frame() {
            None => None,
            Some(f) => {
                let i = self.find_table(self.active_root());
                proof {
                    lemma_base_index_from_props(self.spec_frames(), self.spec_active(), 0);
                }
                let i = i.unwrap();
                let entries = clone_entries(&self.frames[i].entries);
                let ghost f1 = self.spec_frames();
                self.frames.push(TableFrame { base: f.base, level: 4, entries });
                proof {
                    let f2 = self.spec_frames();
                    let n = f1.len() as int;
                    assert(forall|j: int| 0 <= j < n ==> f2[j] == f1[j]);
                    assert(f.base as int == rem0[0]);
                    assert(rem0[0] % 4096 == 0 && 0 <= rem0[0] < 0x10_0000_0000_0000);
                    assert(f.base % 4096 == 0 && f.base < 0x10_0000_0000_0000);
                    // The fresh frame collides with no existing table.
                    assert(forall|j: int| 0 <= j < n ==> f1[j].spec_base() != f.base);
                    assert forall|a: int, b: int| 0 <= a < b < f2.len() implies f2[a].spec_base()
                        != f2[b].spec_base() by {
                        if b == n {
                            assert(f1[a].spec_base() != f.base);
                        }
                    }
                    // Pointer discipline carries over: old tables are
                    // unchanged, and the copy points where the root pointed.
                    assert forall|ii: int, e: int|
                        0 <= ii < f2.len() && f2[ii].spec_level() >= 2 && 0 <= e < 512
                            && entry_present(#[trigger] f2[ii].spec_entries()[e]) implies {
                        let c = spec_base_index(f2, entry_addr(f2[ii].spec_entries()[e]));
                        c >= 0 && f2[c].spec_level() + 1 == f2[ii].spec_level()
                    } by {
                        let src = if ii < n {
                            ii
                        } else {
                            i as int
                        };
                        assert(f2[ii].spec_entries() == f1[src].spec_entries());
                        assert(entry_present(f1[src].spec_entries()[e]));
                        let c = spec_base_index(f1, entry_addr(f1[src].spec_entries()[e]));
                        assert(c >= 0 && f1[c].spec_level() + 1 == f1[src].spec_level());
                        lemma_base_index_from_props(f1, entry_addr(f1[src].spec_entries()[e]), 0);
                        lemma_base_index_extend(
                            f1,
                            f2,
                            entry_addr(f1[src].spec_entries()[e]),
                            0,
                        );
                    }
                    // The active root is where it was.
                    lemma_base_index_extend(f1, f2, self.spec_active(), 0);
                    // Remaining frames stay fresh for the grown arena.
                    let rem1 = alloc.spec_remaining();
                    assert forall|k: int, j: int|
                        #![trigger rem1[k], f2[j].spec_base()]
                        0 <= k < rem1.len() && 0 <= j < f2.len() implies rem1[k] != f2[
                        j
                    ].spec_base() as int by {
                        assert(rem1[k] == rem0[k + 1]);
                        if j == n {
                            assert(rem0[0] < rem0[k + 1]);
                        } else {
                            assert(rem0[k + 1] != f1[j].spec_base() as int);
                        }
                    }
                    assert(forall|k1: int, k2: int|
                        0 <= k1 < k2 < rem1.len() ==> rem1[k1] < rem1[k2]);
                    assert(forall|k: int|
                        0 <= k < rem1.len() ==> (#[trigger] rem1[k]) % 4096 == 0 && 0 <= rem1[k]
                            < 0x10_0000_0000_0000);
                }
                Some(f.base)
            },
        }
    }
}

/// In a sound collection, the last table is found under its own frame.
pub proof fn lemma_base_index_last(frames: Seq<TableFrame>)
    requires
        frames_wf(frames),
        frames.len() >= 1,
    ensures
        spec_base_index(frames, frames[frames.len() - 1].spec_base()) == frames.len() - 1,
{
    lemma_base_index_of(frames, frames.len() - 1);
}

/// Rewriting entries of a leaf-level table keeps a table collection sound: no
/// entry of a level-1 table is followed.
proof fn lemma_frames_wf_leaf_update(f1: Seq<TableFrame>, f2: Seq<TableFrame>, ti: int)
    requires
        frames_wf(f1),
        f2.len() == f1.len(),
        0 <= ti < f1.len(),
        forall|j: int| 0 <= j < f1.len() && j != ti ==> f2[j] == f1[j],
        f2[ti].spec_base() == f1[ti].spec_base(),
        f2[ti].spec_level() == f1[ti].spec_level(),
        f2[ti].spec_entries().len() == 512,
        f1[ti].spec_level() == 1,
    ensures
        frames_wf(f2),
{
    assert(forall|j: int| 0 <= j < f1.len() ==> f2[j].spec_base() == f1[j].spec_base());
    assert forall|ii: int, e: int|
        0 <= ii < f2.len() && f2[ii].spec_level() >= 2 && 0 <= e < 512 && entry_present(
            #[trigger] f2[ii].spec_entries()[e],
        ) implies {
        let c = spec_base_index(f2, entry_addr(f2[ii].spec_entries()[e]));
        c >= 0 && f2[c].spec_level() + 1 == f2[ii].spec_level()
    } by {
        assert(ii != ti);
        assert(f2[ii].spec_entries() == f1[ii].spec_entries());
        assert(entry_present(f1[ii].spec_entries()[e]));
        let c = spec_base_index(f1, entry_addr(f1[ii].spec_entries()[e]));
        assert(c >= 0 && f1[c].spec_level() + 1 == f1[ii].spec_level());
        lemma_base_index_from_props(f1, entry_addr(f1[ii].spec_entries()[e]), 0);
        lemma_base_index_extend(f1, f2, entry_addr(f1[ii].spec_entries()[e]), 0);
        assert(f2[c].spec_level() == f1[c].spec_level());
    }
}

impl PageTables {
    /// Install a 4 KiB mapping from `virt` to the frame at `phys` in the
    /// address space rooted at the table on frame `root`, creating missing
    /// intermediate tables from the frame allocator. A virtual address that is
    /// already mapped is reported, never silently overwritten.
    pub fn map_page(
        &mut self,
        root: u64,
        virt: u64,
        phys: u64,
        flags: u64,
        alloc: &mut BootInfoFrameAllocator,
    ) -> (r: Result<(), MapError>)
        requires
            old(self).wf(),
            old(alloc).wf(),
            spec_fresh_frames(old(alloc).spec_remaining(), old(self).spec_frames()),
            spec_base_index(old(self).spec_frames(), root) >= 0,
            old(self).spec_frames()[spec_base_index(old(self).spec_frames(), root)].spec_level()
                == 4,
            phys % 4096 == 0,
            phys < 0x10_0000_0000_0000,
            flags <= 0xfff,
        ensures
            final(self).wf(),
            final(alloc).wf(),
            final(alloc).spec_descriptors() == old(alloc).spec_descriptors(),
            spec_fresh_frames(final(alloc).spec_remaining(), final(self).spec_frames()),
            final(self).spec_active() == old(self).spec_active(),
            final(self).spec_frames().len() >= old(self).spec_frames().len(),
            forall|j: int|
                0 <= j < old(self).spec_frames().len() ==> final(self).spec_frames()[j].spec_base()
                    == old(self).spec_frames()[j].spec_base()
                    && final(self).spec_frames()[j].spec_level() == old(
                    self,
                ).spec_frames()[j].spec_level(),
            forall|j: int|
                0 <= j < old(self).spec_frames().len() && old(self).spec_frames()[j].spec_level()
                    == 4 && old(self).spec_frames()[j].spec_base() != root
                    ==> final(self).spec_frames()[j] == old(self).spec_frames()[j],
            r is Ok ==> spec_translate(final(self), root, virt) == Some(
                phys | flags | ENTRY_PRESENT,
            ) && spec_translate(old(self), root, virt) is None,
            r == Err::<(), MapError>(MapError::AlreadyMapped) ==> final(self).spec_frames() == old(
                self,
            ).spec_frames() && final(alloc).spec_remaining() == old(alloc).spec_remaining()
                && spec_translate(old(self), root, virt) is Some,
            spec_translate(old(self), root, virt) is None && old(alloc).spec_remaining().len() >= 3
                ==> r is Ok,
    {
        if self.translate(root, virt).is_some() {
            return Err(MapError::AlreadyMapped);
        }
        let ghost f0 = self.spec_frames();
        let ghost n0 = f0.len() as int;
        proof {
            lemma_base_index_from_props(f0, root, 0);
        }
        let i4 = self.find_table(root).unwrap();
        let s4 = Self::table_index(virt, 4);
        let i3 = self.ensure_child(i4, s4, alloc)?;
        let ghost fa = self.spec_frames();
        let s3 = Self::table_index(virt, 3);
        let i2 = self.ensure_child(i3, s3, alloc)?;
        let ghost fb = self.spec_frames();
        let s2 = Self::table_index(virt, 2);
        let i1 = self.ensure_child(i2, s2, alloc)?;
        let ghost fc = self.spec_frames();
        let s1 = Self::table_index(virt, 1);
        proof {
            assert(fa[i4 as int].spec_level() == 4 && fa[i3 as int].spec_level() == 3);
            assert(fb[i3 as int].spec_level() == 3 && fb[i2 as int].spec_level() == 2);
            assert(fc[i2 as int].spec_level() == 2 && fc[i1 as int].spec_level() == 1);
            assert((flags | 1) <= 0xfff && (flags | 1) & 1u64 == 1u64) by (bit_vector)
                requires
                    flags <= 0xfff,
            ;
            lemma_entry_encoding(phys, flags | 1);
            assert(phys | (flags | 1) == phys | flags | ENTRY_PRESENT) by (bit_vector);
        }
        self.set_entry(i1, s1, phys | (flags | 1));
        proof {
            let fd = self.spec_frames();
            lemma_frames_wf_leaf_update(fc, fd, i1 as int);
            // The walk's tables keep their indexes through every step.
            assert(forall|j: int| 0 <= j < fa.len() ==> fb[j].spec_base() == fa[j].spec_base());
            assert(forall|j: int| 0 <= j < fb.len() ==> fc[j].spec_base() == fb[j].spec_base());
            assert(forall|j: int| 0 <= j < fc.len() ==> fd[j].spec_base() == fc[j].spec_base());
            lemma_base_index_extend(f0, fa, root, 0);
            lemma_base_index_extend(fa, fb, root, 0);
            lemma_base_index_extend(fb, fc, root, 0);
            lemma_base_index_extend(fc, fd, root, 0);
            assert(spec_base_index(fd, root) == i4);
            // Levels keep the four walk tables apart, so later steps leave
            // the earlier tables' entries alone.
            assert(i3 != i4 && i2 as int != i3 as int && i2 != i4 && i1 as int != i2 as int && i1
                != i4 && i1 as int != i3 as int);
            assert(fd[i4 as int] == fa[i4 as int]);
            assert(fd[i3 as int].spec_entries() == fb[i3 as int].spec_entries());
            assert(fd[i2 as int].spec_entries() == fc[i2 as int].spec_entries());
            let e4 = fd[i4 as int].spec_entries()[s4 as int];
            assert(entry_present(e4) && entry_addr(e4) == fd[i3 as int].spec_base());
            let e3 = fd[i3 as int].spec_entries()[s3 as int];
            assert(entry_present(e3) && entry_addr(e3) == fd[i2 as int].spec_base());
            let e2 = fd[i2 as int].spec_entries()[s2 as int];
            assert(entry_present(e2) && entry_addr(e2) == fd[i1 as int].spec_base());
            let e1 = fd[i1 as int].spec_entries()[s1 as int];
            assert(e1 == phys | flags | ENTRY_PRESENT && entry_present(e1));
            lemma_base_index_of(fd, i3 as int);
            lemma_base_index_of(fd, i2 as int);
            lemma_base_index_of(fd, i1 as int);
            assert(spec_translate(self, root, virt) == Some(phys | flags | ENTRY_PRESENT));
            // Root tables of other address spaces never stand on the walk.
            assert forall|j: int|
                0 <= j < n0 && f0[j].spec_level() == 4 && f0[j].spec_base() != root implies fd[j]
                == f0[j] by {
                assert(j != i4 as int);
                assert(fa[j] == f0[j]);
                assert(j != i3 as int && fb[j] == fa[j]);
                assert(j != i2 as int && fc[j] == fb[j]);
                assert(j != i1 as int && fd[j] == fc[j]);
            }
            assert forall|j: int| 0 <= j < n0 implies fd[j].spec_base() == f0[j].spec_base() && fd[
            j
            ].spec_level() == f0[j].spec_level() by {}
        }
        Ok(())
    }

    /// Get the table that entry `slot` of table `pi` points at, creating an
    /// empty one on a fresh frame when the entry is empty. Returns the child's
    /// arena index, or reports frame exhaustion.
    fn ensure_child(&mut self, pi: usize, slot: usize, alloc: &mut BootInfoFrameAllocator) -> (r:
        Result<usize, MapError>)
        requires
            old(self).wf(),
            old(alloc).wf(),
            spec_fresh_frames(old(alloc).spec_remaining(), old(self).spec_frames()),
            pi < old(self).spec_frames().len(),
            old(self).spec_frames()[pi as int].spec_level() >= 2,
            slot < 512,
        ensures
            final(self).wf(),
            final(alloc).wf(),
            final(alloc).spec_descriptors() == old(alloc).spec_descriptors(),
            spec_fresh_frames(final(alloc).spec_remaining(), final(self).spec_frames()),
            final(self).spec_active() == old(self).spec_active(),
            final(self).spec_frames().len() >= old(self).spec_frames().len(),
            final(alloc).spec_remaining().len() >= old(alloc).spec_remaining().len() - 1,
            forall|j: int|
                0 <= j < old(self).spec_frames().len() && j != pi ==> final(self).spec_frames()[j]
                    == old(self).spec_frames()[j],
            final(self).spec_frames()[pi as int].spec_base() == old(self).spec_frames()[
                pi as int
            ].spec_base(),
            final(self).spec_frames()[pi as int].spec_level() == old(self).spec_frames()[
                pi as int
            ].spec_level(),
            forall|e: int|
                0 <= e < 512 && e != slot ==> final(self).spec_frames()[pi as int].spec_entries()[e]
                    == old(self).spec_frames()[pi as int].spec_entries()[e],
            match r {
                Ok(ci) => {
                    let frames = final(self).spec_frames();
                    &&& ci < frames.len()
                    &&& frames[ci as int].spec_level() + 1 == old(self).spec_frames()[
                        pi as int
                    ].spec_level()
                    &&& entry_present(frames[pi as int].spec_entries()[slot as int])
                    &&& entry_addr(frames[pi as int].spec_entries()[slot as int]) == frames[
                        ci as int
                    ].spec_base()
                    &&& spec_base_index(frames, frames[ci as int].spec_base()) == ci
                    &&& (entry_present(old(self).spec_frames()[pi as int].spec_entries()[
                        slot as int
                    ]) ==> frames == old(self).spec_frames() && final(alloc).spec_remaining()
                        == old(alloc).spec_remaining())
                    &&& (!entry_present(old(self).spec_frames()[pi as int].spec_entries()[
                        slot as int
                    ]) ==> frames.len() == old(self).spec_frames().len() + 1
                        && final(alloc).spec_remaining() == old(alloc).spec_remaining().drop_first()
                        && (forall|e: int|
                        0 <= e < 512 ==> !entry_present(
                            #[trigger] frames[ci as int].spec_entries()[e],
                        )))
                },
                Err(err) => {
                    &&& err == MapError::FrameExhausted
                    &&& final(self).spec_frames() == old(self).spec_frames()
                    &&& final(alloc).spec_remaining() == old(alloc).spec_remaining()
                    &&& old(alloc).spec_remaining().len() == 0
                },
            },
    {
        let e = self.frames[pi].entries[slot];
        if e & ENTRY_PRESENT == ENTRY_PRESENT {
            let addr = e & ENTRY_ADDR_MASK;
            proof {
                assert(entry_present(self.spec_frames()[pi as int].spec_entries()[slot as int]));
                lemma_base_index_from_props(self.spec_frames(), addr, 0);
            }
            let ci = self.find_table(addr).unwrap();
            Ok(ci)
        } else {
            let ghost rem0 = alloc.spec_remaining();
            match alloc.allocate_frame() {
                None => Err(MapError::FrameExhausted),
                Some(f) => {
                    let entries = vec_zeroes(512);
                    let child_level = self.frames[pi].level - 1;
                    let ghost f1 = self.spec_frames();
                    self.frames.push(TableFrame { base: f.base, level: child_level, entries });
                    let ci = self.frames.len() - 1;
                    proof {
                        assert(f.base as int == rem0[0]);
                        assert(rem0[0] % 4096 == 0 && 0 <= rem0[0] < 0x10_0000_0000_0000);
                        lemma_entry_encoding(f.base, 0x3);
                        assert(0x3u64 & 1u64 == 1u64) by (bit_vector);
                        assert(0x3u64 <= 0xfff) by (bit_vector);
                    }
                    self.set_entry(pi, slot, f.base | 0x3);
                    proof {
                        let f2 = self.spec_frames();
                        let n = f1.len() as int;
                        assert(forall|j: int| 0 <= j < n && j != pi ==> f2[j] == f1[j]);
                        assert(f2[ci as int].spec_base() == f.base);
                        assert(forall|j: int| 0 <= j < n ==> f1[j].spec_base() != f.base);
                        assert forall|a: int, b: int| 0 <= a < b < f2.len() implies f2[
                        a
                        ].spec_base() != f2[b].spec_base() by {
                            if b == n {
                                assert(f1[a].spec_base() != f.base);
                            }
                        }
                        lemma_base_index_of(f2, ci as int);
                        assert(entry_present(f2[pi as int].spec_entries()[slot as int]));
                        assert(entry_addr(f2[pi as int].spec_entries()[slot as int]) == f.base);
                        assert(forall|e2: int| 0 <= e2 < 512 ==> f2[ci as int].spec_entries()[e2] == 0);
                        assert(0u64 & 1u64 == 0u64) by (bit_vector);
                        // Pointer discipline for the grown arena.
                        assert forall|ii: int, e2: int|
                            0 <= ii < f2.len() && f2[ii].spec_level() >= 2 && 0 <= e2 < 512
                                && entry_present(#[trigger] f2[ii].spec_entries()[e2]) implies {
                            let c = spec_base_index(f2, entry_addr(f2[ii].spec_entries()[e2]));
                            c >= 0 && f2[c].spec_level() + 1 == f2[ii].spec_level()
                        } by {
                            if ii == ci as int {
                                assert(f2[ii].spec_entries()[e2] == 0);
                                assert(false);
                            } else if ii == pi as int && e2 == slot as int {
                                assert(spec_base_index(f2, f.base) == ci as int);
                                assert(f2[ci as int].spec_level() + 1 == f2[pi as int].spec_level());
                            } else {
                                assert(f2[ii].spec_entries()[e2] == f1[ii].spec_entries()[e2]);
                                assert(entry_present(f1[ii].spec_entries()[e2]));
                                let c = spec_base_index(f1, entry_addr(f1[ii].spec_entries()[e2]));
                                assert(c >= 0 && f1[c].spec_level() + 1 == f1[ii].spec_level());
                                lemma_base_index_from_props(
                                    f1,
                                    entry_addr(f1[ii].spec_entries()[e2]),
                                    0,
                                );
                                lemma_base_index_extend(
                                    f1,
                                    f2,
                                    entry_addr(f1[ii].spec_entries()[e2]),
                                    0,
                                );
                                assert(f2[c].spec_level() == f1[c].spec_level());
                            }
                        }
                        // Remaining frames stay fresh for the grown arena.
                        let rem1 = alloc.spec_remaining();
                        assert forall|k: int, j: int|
                            #![trigger rem1[k], f2[j].spec_base()]
                            0 <= k < rem1.len() && 0 <= j < f2.len() implies rem1[k] != f2[
                        j
                        ].spec_base() as int by {
                            assert(rem1[k] == rem0[k + 1]);
                            if j == n {
                                assert(rem0[0] < rem0[k + 1]);
                            } else {
                                assert(rem0[k + 1] != f1[j].spec_base() as int);
                            }
                        }
                        assert(forall|k1: int, k2: int|
                            0 <= k1 < k2 < rem1.len() ==> rem1[k1] < rem1[k2]);
                        assert(forall|k: int|
                            0 <= k < rem1.len() ==> (#[trigger] rem1[k]) % 4096 == 0 && 0 <= rem1[k]
                                < 0x10_0000_0000_0000);
                    }
                    Ok(ci)
                },
            }
        }
    }
}

/// A copy of a table's entries.
fn clone_entries(src: &Vec<u64>) -> (r: Vec<u64>)
    ensures
        r@ == src@,
{
    let mut v: Vec<u64> = Vec::new();
    let mut i: usize = 0;
    let n = src.len();
    while i < n
        invariant
            i <= n,
            n == src@.len(),
            v@ == src@.subrange(0, i as int),
        decreases n - i,
    {
        v.push(src[i]);
        proof {
            assert(v@ =~= src@.subrange(0, i + 1));
        }
        i = i + 1;
    }
    proof {
        assert(v@ =~= src@);
    }
    v
}

/// A vector of `n` zero entries.
fn vec_zeroes(n: usize) -> (r: Vec<u64>)
    ensures
        r@.len() == n,
        forall|i: int| 0 <= i < n ==> r@[i] == 0,
{
    let mut v: Vec<u64> = Vec::new();
    let mut i: usize = 0;
    while i < n
        invariant
            i <= n,
            v@.len() == i,
            forall|k: int| 0 <= k < i ==> v@[k] == 0,
        decreases n - i,
    {
        v.push(0);
        i = i + 1;
    }
    v
}

} // verus!
