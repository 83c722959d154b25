//! The process table and the preemptive scheduler: spawn, save, switch,
//! kill, under a kernel-first round-robin policy.

use vstd::prelude::*;

use crate::mem::BootInfoFrameAllocator;
use crate::mem::PhysFrame;
use crate::paging::PageTables;
use crate::paging::spec_base_index;
use crate::paging::spec_fresh_frames;

verus! {

/// The flags a spawned process starts under: interrupts enabled and both
/// I/O-privilege-level bits set.
pub const SPAWN_CPU_FLAGS: u64 = 0x3200;

/// The CPU-defined interrupt stack snapshot: what the hardware pushes when a
/// trap enters the kernel, and what an interrupt return consumes.
#[derive(Debug, PartialEq, Eq, Clone, Copy, Structural)]
pub struct TrapFrame {
    pub instruction_pointer: u64,
    pub code_segment: u64,
    pub cpu_flags: u64,
    pub stack_pointer: u64,
    pub stack_segment: u64,
}

/// The general-purpose register file, in the fixed order the trap entry stub
/// pushes it.
#[derive(Debug, PartialEq, Eq, Clone, Copy, Structural)]
pub struct Registers {
    pub r15: usize,
    pub r14: usize,
    pub r13: usize,
    pub r12: usize,
    pub r11: usize,
    pub r10: usize,
    pub r9: usize,
    pub r8: usize,
    pub rdi: usize,
    pub rsi: usize,
    pub rdx: usize,
    pub rcx: usize,
    pub rbx: usize,
    pub rax: usize,
    pub rbp: usize,
}

impl Default for Registers {
    /// An all-zero register file.
    fn default() -> (r: Self)
        ensures
            r == Registers::spec_zeroed(),
    {
        Registers {
            r15: 0,
            r14: 0,
            r13: 0,
            r12: 0,
            r11: 0,
            r10: 0,
            r9: 0,
            r8: 0,
            rdi: 0,
            rsi: 0,
            rdx: 0,
            rcx: 0,
            rbx: 0,
            rax: 0,
            rbp: 0,
        }
    }
}

impl Registers {
    /// The all-zero register file.
    pub open spec fn spec_zeroed() -> Registers {
        Registers {
            r15: 0,
            r14: 0,
            r13: 0,
            r12: 0,
            r11: 0,
            r10: 0,
            r9: 0,
            r8: 0,
            rdi: 0,
            rsi: 0,
            rdx: 0,
            rcx: 0,
            rbx: 0,
            rax: 0,
            rbp: 0,
        }
    }
}

impl TrapFrame {
    /// The all-zero trap frame a new process starts from.
    pub open spec fn spec_zeroed() -> TrapFrame {
        TrapFrame {
            instruction_pointer: 0,
            code_segment: 0,
            cpu_flags: 0,
            stack_pointer: 0,
            stack_segment: 0,
        }
    }
}

/// Whether a process may be picked to run or is running now.
#[derive(Debug, PartialEq, Eq, Clone, Copy, Structural)]
pub enum ProcessState {
    Ready,
    Running,
}

/// One process: its identity, scheduling state, saved execution state, and
/// the root of its address space. The kernel pseudo-process aliases the
/// global root table instead of owning a private copy.
#[derive(Debug, Clone, Copy, PartialEq, Eq, Structural)]
pub struct Process {
    /// Monotonically increasing identity, never reused.
    pub id: usize,
    pub state: ProcessState,
    /// The trap frame to resume from.
    pub state_isf: TrapFrame,
    /// The register file to resume from.
    pub state_reg: Registers,
    /// Root table loaded into the CPU while this process runs.
    pub page_table_addr: PhysFrame,
    /// The privately owned root frame; `None` only before it is assigned.
    pub page_table: Option<PhysFrame>,
}

/// `p` after its live execution state is captured: demoted to ready, holding
/// the given trap frame and registers.
pub open spec fn spec_saved(p: Process, sf: TrapFrame, regs: Registers) -> Process {
    Process { state: ProcessState::Ready, state_isf: sf, state_reg: regs, ..p }
}

/// `p` promoted to running.
pub open spec fn spec_resumed(p: Process) -> Process {
    Process { state: ProcessState::Running, ..p }
}

/// The live trap frame after restoring a saved one: instruction pointer,
/// stack pointer and flags come from the snapshot; the segment selectors
/// stay, since the kernel runs every process under the same selectors.
pub open spec fn spec_restored_frame(live: TrapFrame, saved: TrapFrame) -> TrapFrame {
    TrapFrame {
        instruction_pointer: saved.instruction_pointer,
        stack_pointer: saved.stack_pointer,
        cpu_flags: saved.cpu_flags,
        ..live
    }
}

/// Index of the first running process at or after `i`, or -1.
pub open spec fn spec_first_running(s: Seq<Process>, i: int) -> int
    decreases s.len() - i,
{
    if i < 0 || i >= s.len() {
        -1
    } else if s[i].state is Running {
        i
    } else {
        spec_first_running(s, i + 1)
    }
}

/// Index of the first process with identity `id` at or after `i`, or -1.
pub open spec fn spec_index_of_id(s: Seq<Process>, id: usize, i: int) -> int
    decreases s.len() - i,
{
    if i < 0 || i >= s.len() {
        -1
    } else if s[i].id == id {
        i
    } else {
        spec_index_of_id(s, id, i + 1)
    }
}

/// The scheduling policy. `prev_id` identifies the process that was saved;
/// `kernel_was_running` reports whether the kernel pseudo-process was running
/// when the switch began. The kernel runs next whenever it was already
/// running or no user process exists; otherwise scanning resumes just after
/// the previous process's position, wrapping to the first user slot.
pub open spec fn spec_select_next(s: Seq<Process>, prev_id: usize, kernel_was_running: bool) -> int {
    if kernel_was_running || s.len() <= 1 {
        0
    } else {
        let p = spec_index_of_id(s, prev_id, 0);
        if p + 1 < s.len() {
            p + 1
        } else {
            1
        }
    }
}

/// A sound process list: never empty, the kernel pseudo-process first under
/// identity zero, identities strictly increasing in creation order.
pub open spec fn spec_list_wf(s: Seq<Process>) -> bool {
    &&& s.len() >= 1
    &&& s[0].id == 0
    &&& forall|i: int, j: int| 0 <= i < j < s.len() ==> s[i].id < s[j].id
}

/// No two processes run at once.
pub open spec fn spec_at_most_one_running(s: Seq<Process>) -> bool {
    forall|i: int, j: int|
        0 <= i < s.len() && 0 <= j < s.len() && i != j ==> !((#[trigger] s[i].state) is Running
            && (#[trigger] s[j].state) is Running)
}

impl Process {
    /// Build a process: take one frame for a private root table, copy the
    /// active root into it so the kernel stays mapped, and start from a
    /// zeroed execution state, ready but not scheduled.
    pub fn new(frame_alloc: &mut BootInfoFrameAllocator, tables: &mut PageTables, id: usize) -> (r:
        Process)
        requires
            old(tables).wf(),
            old(tables).active_is_root(),
            old(frame_alloc).wf(),
            spec_fresh_frames(old(frame_alloc).spec_remaining(), old(tables).spec_frames()),
            old(frame_alloc).spec_remaining().len() > 0,
        ensures
            final(tables).wf(),
            final(tables).active_is_root(),
            final(tables).spec_active() == old(tables).spec_active(),
            final(frame_alloc).wf(),
            final(frame_alloc).spec_descriptors() == old(frame_alloc).spec_descriptors(),
            spec_fresh_frames(
                final(frame_alloc).spec_remaining(),
                final(tables).spec_frames(),
            ),
            final(frame_alloc).spec_remaining() == old(frame_alloc).spec_remaining().drop_first(),
            forall|j: int|
                0 <= j < old(tables).spec_frames().len() ==> final(tables).spec_frames()[j] == old(
                    tables,
                ).spec_frames()[j],
            final(tables).spec_frames().len() == old(tables).spec_frames().len() + 1,
            r.id == id,
            r.state is Ready,
            r.state_isf == TrapFrame::spec_zeroed(),
            r.state_reg == Registers::spec_zeroed(),
            r.page_table_addr == (PhysFrame { base: old(frame_alloc).spec_remaining()[0] as u64 }),
            r.page_table == Some(PhysFrame { base: old(frame_alloc).spec_remaining()[0] as u64 }),
            // The new root inherits every top-level entry of the active root.
            spec_base_index(final(tables).spec_frames(), r.page_table_addr.base) == old(
                tables,
            ).spec_frames().len(),
            final(tables).spec_frames()[old(tables).spec_frames().len() as int].spec_entries()
                == old(tables).spec_frames()[spec_base_index(
                old(tables).spec_frames(),
                old(tables).spec_active(),
            )].spec_entries(),
    {
        let root = tables.new_address_space(frame_alloc).unwrap();
        proof {
            crate::paging::lemma_base_index_last(tables.spec_frames());
        }
        Process {
            id,
            state: ProcessState::Ready,
            state_isf: TrapFrame {
                instruction_pointer: 0,
                code_segment: 0,
                cpu_flags: 0,
                stack_pointer: 0,
                stack_segment: 0,
            },
            state_reg: Registers::default(),
            page_table_addr: PhysFrame { base: root },
            page_table: Some(PhysFrame { base: root }),
        }
    }

    pub fn id(&self) -> (r: usize)
        ensures
            r == self.id,
    {
        self.id
    }

    pub fn state_isf_mut(&mut self) -> (r: &mut TrapFrame)
        ensures
            *r == old(self).state_isf,
            *final(self) == (Process { state_isf: *final(r), ..*old(self) }),
    {
        &mut self.state_isf
    }

    pub fn page_table_mut(&mut self) -> (r: &mut PhysFrame)
        requires
            old(self).page_table is Some,
        ensures
            *r == old(self).page_table.unwrap(),
            *final(self) == (Process { page_table: Some(*final(r)), ..*old(self) }),
    {
        self.page_table.as_mut().unwrap()
    }

    /// Demote the process to ready.
    pub fn pause(&mut self)
        ensures
            *final(self) == (Process { state: ProcessState::Ready, ..*old(self) }),
    {
        self.state = ProcessState::Ready;
    }

    /// Promote the process to running.
    pub fn resume(&mut self)
        ensures
            *final(self) == spec_resumed(*old(self)),
    {
        self.state = ProcessState::Running;
    }
}

/// Start the process system: a list holding only the kernel pseudo-process,
/// marked running. Its table handle aliases the already-active root rather
/// than the private copy it was built with.
pub fn init(frame_alloc: &mut BootInfoFrameAllocator, tables: &mut PageTables) -> (list: Vec<
    Process,
>)
    requires
        old(tables).wf(),
        old(tables).active_is_root(),
        old(frame_alloc).wf(),
        spec_fresh_frames(old(frame_alloc).spec_remaining(), old(tables).spec_frames()),
        old(frame_alloc).spec_remaining().len() > 0,
    ensures
        final(tables).wf(),
        final(tables).active_is_root(),
        final(tables).spec_active() == old(tables).spec_active(),
        final(frame_alloc).wf(),
        final(frame_alloc).spec_descriptors() == old(frame_alloc).spec_descriptors(),
        spec_fresh_frames(final(frame_alloc).spec_remaining(), final(tables).spec_frames()),
        list@.len() == 1,
        list@[0].id == 0,
        list@[0].state is Running,
        list@[0].page_table_addr.base == old(tables).spec_active(),
        spec_list_wf(list@),
        spec_at_most_one_running(list@),
{
    let mut list: Vec<Process> = Vec::new();
    let mut kproc = Process::new(frame_alloc, tables, 0);
    kproc.state = ProcessState::Running;
    // The kernel keeps using the boot page tables, not the private copy.
    kproc.page_table_addr = PhysFrame { base: tables.active_root() };
    list.push(kproc);
    list
}

/// Create a user process and append it to the list without switching to it:
/// a fresh address space inheriting the kernel mappings, the next identity,
/// the given entry point and stack top, and spawn-time flags.
pub fn spawn_process(
    list: &mut Vec<Process>,
    frame_alloc: &mut BootInfoFrameAllocator,
    tables: &mut PageTables,
    entry: u64,
    stacktop: u64,
)
    requires
        spec_list_wf(old(list)@),
        old(list)@.last().id < usize::MAX,
        old(tables).wf(),
        old(tables).active_is_root(),
        old(frame_alloc).wf(),
        spec_fresh_frames(old(frame_alloc).spec_remaining(), old(tables).spec_frames()),
        old(frame_alloc).spec_remaining().len() > 0,
    ensures
        final(tables).wf(),
        final(tables).active_is_root(),
        final(tables).spec_active() == old(tables).spec_active(),
        final(frame_alloc).wf(),
        final(frame_alloc).spec_descriptors() == old(frame_alloc).spec_descriptors(),
        spec_fresh_frames(final(frame_alloc).spec_remaining(), final(tables).spec_frames()),
        final(frame_alloc).spec_remaining() == old(frame_alloc).spec_remaining().drop_first(),
        final(list)@ == old(list)@.push(
            Process {
                id: (old(list)@.last().id + 1) as usize,
                state: ProcessState::Ready,
                state_isf: TrapFrame {
                    instruction_pointer: entry,
                    code_segment: 0,
                    cpu_flags: SPAWN_CPU_FLAGS,
                    stack_pointer: stacktop,
                    stack_segment: 0,
                },
                state_reg: Registers::spec_zeroed(),
                page_table_addr: PhysFrame {
                    base: old(frame_alloc).spec_remaining()[0] as u64,
                },
                page_table: Some(
                    PhysFrame { base: old(frame_alloc).spec_remaining()[0] as u64 },
                ),
            },
        ),
        spec_list_wf(final(list)@),
        spec_at_most_one_running(old(list)@) ==> spec_at_most_one_running(final(list)@),
{
    let id = list[list.len() - 1].id + 1;
    let mut proc = Process::new(frame_alloc, tables, id);
    proc.state = ProcessState::Ready;
    proc.state_isf.instruction_pointer = entry;
    proc.state_isf.stack_pointer = stacktop;
    // Spawn-time flags, set as process runtimes expect them.
    proc.state_isf.cpu_flags = SPAWN_CPU_FLAGS;
    list.push(proc);
    proof {
        let s = final(list)@;
        let s0 = old(list)@;
        assert(s0.last() == s0[s0.len() - 1]);
        assert forall|i: int, j: int| 0 <= i < j < s.len() implies s[i].id < s[j].id by {
            if j == s.len() - 1 {
                assert(s0[i].id <= s0[s0.len() - 1].id);
            }
        }
    }
}

/// What `spec_first_running` finds: the first running process at or after `i`.
pub proof fn lemma_first_running_props(s: Seq<Process>, i: int)
    requires
        0 <= i <= s.len(),
    ensures
        spec_first_running(s, i) == -1 || spec_first_running(s, i) >= i,
        spec_first_running(s, i) == -1 ==> forall|j: int|
            i <= j < s.len() ==> !((#[trigger] s[j].state) is Running),
        spec_first_running(s, i) >= 0 ==> i <= spec_first_running(s, i) < s.len(),
        spec_first_running(s, i) >= 0 ==> s[spec_first_running(s, i)].state is Running,
        spec_first_running(s, i) >= 0 ==> forall|j: int|
            i <= j < spec_first_running(s, i) ==> !((#[trigger] s[j].state) is Running),
    decreases s.len() - i,
{
    if i < s.len() && !(s[i].state is Running) {
        lemma_first_running_props(s, i + 1);
    }
}

/// What `spec_index_of_id` finds: the first process under `id` at or after `i`.
pub proof fn lemma_index_of_id_props(s: Seq<Process>, id: usize, i: int)
    requires
        0 <= i <= s.len(),
    ensures
        spec_index_of_id(s, id, i) == -1 || spec_index_of_id(s, id, i) >= i,
        spec_index_of_id(s, id, i) == -1 ==> forall|j: int| i <= j < s.len() ==> s[j].id != id,
        spec_index_of_id(s, id, i) >= 0 ==> i <= spec_index_of_id(s, id, i) < s.len(),
        spec_index_of_id(s, id, i) >= 0 ==> s[spec_index_of_id(s, id, i)].id == id,
    decreases s.len() - i,
{
    if i < s.len() && s[i].id != id {
        lemma_index_of_id_props(s, id, i + 1);
    }
}

/// With strictly increasing identities, each process is found at its own
/// position.
pub proof fn lemma_index_of_id_unique(s: Seq<Process>, j: int)
    requires
        0 <= j < s.len(),
        forall|a: int, b: int| 0 <= a < b < s.len() ==> s[a].id < s[b].id,
    ensures
        spec_index_of_id(s, s[j].id, 0) == j,
{
    lemma_index_of_id_props(s, s[j].id, 0);
    let r = spec_index_of_id(s, s[j].id, 0);
    if r == -1 {
        lemma_index_of_id_at(s, s[j].id, 0, j);
    } else if r < j {
        assert(s[r].id < s[j].id);
    } else if r > j {
        assert(s[j].id < s[r].id);
    }
}

/// Helper: a position carrying `id` rules the search result -1 out.
proof fn lemma_index_of_id_at(s: Seq<Process>, id: usize, i: int, j: int)
    requires
        0 <= i <= j < s.len(),
        s[j].id == id,
    ensures
        spec_index_of_id(s, id, i) != -1,
    decreases s.len() - i,
{
    if s[i].id != id {
        lemma_index_of_id_at(s, id, i + 1, j);
    }
}

/// Copy the live trap frame and registers into the process now running and
/// demote it to ready; report its identity, or `None` when no process runs,
/// which happens only before the first switch.
pub fn save_current_process(list: &mut Vec<Process>, sf: &mut TrapFrame, regs: &mut Registers) -> (r:
    Option<usize>)
    ensures
        *final(sf) == *old(sf),
        *final(regs) == *old(regs),
        spec_first_running(old(list)@, 0) == -1 ==> r is None && final(list)@ == old(list)@,
        spec_first_running(old(list)@, 0) >= 0 ==> {
            let i = spec_first_running(old(list)@, 0);
            &&& r == Some(old(list)@[i].id)
            &&& final(list)@ == old(list)@.update(
                i,
                spec_saved(old(list)@[i], *old(sf), *old(regs)),
            )
        },
{
    let n = list.len();
    let mut i: usize = 0;
    while i < n
        invariant
            i <= n,
            n == list@.len(),
            list@ == old(list)@,
            spec_first_running(list@, 0) == spec_first_running(list@, i as int),
        decreases n - i,
    {
        if matches!(list[i].state, ProcessState::Running) {
            proof {
                lemma_first_running_props(list@, 0);
            }
            let id = list[i].id;
            list[i].state = ProcessState::Ready;
            list[i].state_isf = *sf;
            list[i].state_reg = *regs;
            proof {
                assert(final(list)@ =~= old(list)@.update(
                    i as int,
                    spec_saved(old(list)@[i as int], *old(sf), *old(regs)),
                ));
            }
            return Some(id);
        }
        i = i + 1;
    }
    None
}

/// Pick the process to run next under the kernel-first round-robin policy.
fn find_next_process(list: &Vec<Process>, prev: usize, kernel_was_running: bool) -> (r: usize)
    requires
        spec_list_wf(list@),
        kernel_was_running || list@.len() <= 1 || spec_index_of_id(list@, prev, 0) >= 0,
    ensures
        r == spec_select_next(list@, prev, kernel_was_running),
        r < list@.len(),
{
    if kernel_was_running || list.len() <= 1 {
        // The kernel runs whenever it was already running or no user
        // process exists.
        0
    } else {
        // Round-robin among user processes: continue right after the
        // previous process's position, wrapping past the end to slot 1.
        let n = list.len();
        let mut p: usize = 0;
        while p < n && list[p].id != prev
            invariant
                0 <= p <= n,
                n == list@.len(),
                spec_index_of_id(list@, prev, 0) == spec_index_of_id(list@, prev, p as int),
            decreases n - p,
        {
            p = p + 1;
        }
        proof {
            lemma_index_of_id_props(list@, prev, 0);
        }
        if p + 1 < list.len() {
            p + 1
        } else {
            1
        }
    }
}

/// Preemption: save the running process, pick the next under the kernel-first
/// round-robin policy, and resume it. When the choice lands on the process
/// that was already running, the live trap frame, registers and root pointer
/// stay untouched; otherwise they are overwritten from the chosen process's
/// snapshot and the active root switches to its address space.
pub fn switch_first_ready_process(
    list: &mut Vec<Process>,
    tables: &mut PageTables,
    sf: &mut TrapFrame,
    regs: &mut Registers,
)
    requires
        spec_list_wf(old(list)@),
        spec_at_most_one_running(old(list)@),
    ensures
        final(tables).spec_frames() == old(tables).spec_frames(),
        spec_list_wf(final(list)@),
        spec_at_most_one_running(final(list)@),
        ({
            let s0 = old(list)@;
            let kwr = s0[0].state is Running;
            let pi = spec_first_running(s0, 0);
            let s1 = if pi >= 0 {
                s0.update(pi, spec_saved(s0[pi], *old(sf), *old(regs)))
            } else {
                s0
            };
            let prev_id = if pi >= 0 {
                s0[pi].id
            } else {
                0
            };
            let sel = spec_select_next(s1, prev_id, kwr);
            &&& 0 <= sel < s1.len()
            &&& final(list)@ == s1.update(sel, spec_resumed(s1[sel]))
            &&& final(list)@[sel].state is Running
            &&& (forall|j: int|
                0 <= j < final(list)@.len() && j != sel ==> !((#[trigger] final(list)@[j].state) is Running))
            &&& (if pi >= 0 && s1[sel].id == prev_id {
                &&& *final(sf) == *old(sf)
                &&& *final(regs) == *old(regs)
                &&& final(tables).spec_active() == old(tables).spec_active()
            } else {
                &&& *final(sf) == spec_restored_frame(*old(sf), s1[sel].state_isf)
                &&& *final(regs) == s1[sel].state_reg
                &&& final(tables).spec_active() == s1[sel].page_table_addr.base
            })
        }),
{
    let ghost s0 = old(list)@;
    let kernel_was_running = matches!(list[0].state, ProcessState::Running);
    let prev = save_current_process(list, sf, regs);
    let prev_id = match prev {
        Some(id) => id,
        None => 0,
    };
    let ghost s1 = list@;
    proof {
        lemma_first_running_props(s0, 0);
        let pi = spec_first_running(s0, 0);
        if pi >= 0 {
            assert(s1[pi].id == prev_id);
            lemma_index_of_id_unique(s1, pi);
        } else {
            lemma_index_of_id_unique(s1, 0);
        }
    }
    let sel = find_next_process(list, prev_id, kernel_was_running);
    let same = prev.is_some() && list[sel].id == prev_id;
    list[sel].state = ProcessState::Running;
    proof {
        assert(final(list)@ =~= s1.update(sel as int, spec_resumed(s1[sel as int])));
        let pi = spec_first_running(s0, 0);
        assert forall|j: int|
            0 <= j < list@.len() && j != sel implies !((#[trigger] list@[j].state) is Running) by {
            if pi >= 0 && j != pi {
                assert(!(s0[j].state is Running));
            }
        }
    }
    if !same {
        // A different process takes over: restore its snapshot and its
        // address space.
        sf.instruction_pointer = list[sel].state_isf.instruction_pointer;
        sf.stack_pointer = list[sel].state_isf.stack_pointer;
        sf.cpu_flags = list[sel].state_isf.cpu_flags;
        *regs = list[sel].state_reg;
        tables.switch_to(list[sel].page_table_addr.base);
    }
}

/// The list with every running process removed.
pub open spec fn spec_kill(s: Seq<Process>) -> Seq<Process> {
    s.filter(|p: Process| !(p.state is Running))
}

/// Remove every process marked running from the list; the frames its page
/// tables hold are not reclaimed.
pub fn kill_current_process(list: &mut Vec<Process>)
    ensures
        final(list)@ == spec_kill(old(list)@),
{
    let mut kept: Vec<Process> = Vec::new();
    let mut i: usize = 0;
    let n = list.len();
    while i < n
        invariant
            i <= n,
            n == list@.len(),
            list@ == old(list)@,
            kept@ == spec_kill(list@.subrange(0, i as int)),
        decreases n - i,
    {
        let p = list[i];
        proof {
            reveal(Seq::filter);
            let sub1 = list@.subrange(0, i + 1);
            assert(sub1.drop_last() =~= list@.subrange(0, i as int));
            assert(sub1.last() == list@[i as int]);
        }
        if !matches!(p.state, ProcessState::Running) {
            kept.push(p);
        }
        i = i + 1;
    }
    proof {
        assert(list@.subrange(0, n as int) =~= list@);
    }
    *list = kept;
}

/// Kernel-priority rule: whenever the kernel pseudo-process was running as a
/// switch began — the policy's third argument, per the contract of
/// `switch_first_ready_process` — the scheduler selects index 0, the kernel,
/// no matter how many user processes are ready and who was saved.
pub proof fn lemma_kernel_priority(s: Seq<Process>, prev_id: usize)
    ensures
        spec_select_next(s, prev_id, true) == 0,
{
}

/// Round-robin fairness among user processes: with the kernel not running and
/// the previously running process at position `p` of a list of at least two,
/// the scheduler selects position `p + 1`, wrapping past the end to the first
/// user slot — so repeated switches visit user processes in creation order,
/// cycling, and never land on the kernel.
pub proof fn lemma_round_robin(s: Seq<Process>, p: int)
    requires
        spec_list_wf(s),
        s.len() >= 2,
        1 <= p < s.len(),
    ensures
        spec_select_next(s, s[p].id, false) == if p + 1 < s.len() {
            p + 1
        } else {
            1int
        },
        spec_select_next(s, s[p].id, false) != 0,
{
    lemma_index_of_id_unique(s, p);
}

/// Save/restore round trip: capture a trap frame and register file into a
/// process, clobber the live frame arbitrarily, then restore from the
/// snapshot — the instruction pointer, stack pointer, flags and the whole
/// register file come back exactly as captured. The segment selectors are not
/// restored: the kernel runs every process under one selector pair.
pub proof fn lemma_save_restore_round_trip(
    p: Process,
    sf: TrapFrame,
    regs: Registers,
    clobbered_sf: TrapFrame,
)
    ensures
        spec_restored_frame(clobbered_sf, spec_saved(p, sf, regs).state_isf).instruction_pointer
            == sf.instruction_pointer,
        spec_restored_frame(clobbered_sf, spec_saved(p, sf, regs).state_isf).stack_pointer
            == sf.stack_pointer,
        spec_restored_frame(clobbered_sf, spec_saved(p, sf, regs).state_isf).cpu_flags
            == sf.cpu_flags,
        spec_saved(p, sf, regs).state_reg == regs,
{
}

/// Removing the running processes keeps a list in which nothing runs intact.
proof fn lemma_kill_keeps_all_ready(s: Seq<Process>)
    requires
        forall|j: int| 0 <= j < s.len() ==> !((#[trigger] s[j].state) is Running),
    ensures
        spec_kill(s) == s,
    decreases s.len(),
{
    reveal(Seq::filter);
    if s.len() > 0 {
        lemma_kill_keeps_all_ready(s.drop_last());
        assert(spec_kill(s) =~= s);
    } else {
        assert(spec_kill(s) =~= s);
    }
}

/// Spawn/exit lifecycle: a process appended to a list of ready processes,
/// then promoted to running by the switch a spawn system call triggers, then
/// removed by `kill_current_process`, leaves the list exactly as it was — its
/// identity is gone without a trace. The frames its page tables consumed are
/// not returned: the allocator's remaining pool only ever shrinks, as the
/// contracts of `spawn_process` and `allocate_frame` state.
pub proof fn lemma_spawn_exit_lifecycle(s: Seq<Process>, spawned: Process)
    requires
        forall|j: int| 0 <= j < s.len() ==> !((#[trigger] s[j].state) is Running),
    ensures
        spec_kill(s.push(spawned).update(s.len() as int, spec_resumed(spawned))) == s,
{
    reveal(Seq::filter);
    let grown = s.push(spawned).update(s.len() as int, spec_resumed(spawned));
    assert(grown =~= s.push(spec_resumed(spawned)));
    assert(grown.drop_last() =~= s);
    lemma_kill_keeps_all_ready(s);
}

} // verus!
