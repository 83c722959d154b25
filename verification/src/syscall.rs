//! The syscall boundary: decode an operation code and three register-passed
//! arguments, dispatch to kernel services, and hand outward the work only a
//! device or the heap can finish.

use vstd::prelude::*;

use crate::display::GOPDisplay;
use crate::paging::PageTables;
use crate::process::Process;
use crate::process::ProcessState;
use crate::process::Registers;
use crate::process::TrapFrame;
use crate::process::kill_current_process;
use crate::process::save_current_process;
use crate::process::spec_at_most_one_running;
use crate::process::spec_first_running;
use crate::process::spec_kill;
use crate::process::spec_list_wf;
use crate::process::spec_restored_frame;
use crate::process::spec_resumed;
use crate::process::spec_saved;
use crate::process::spec_select_next;
use crate::process::switch_first_ready_process;

verus! {

/// The kernel's system call operations.
#[derive(Debug, PartialEq, Eq, Clone, Copy, Structural)]
pub enum Syscall {
    SpawnProcess,
    ExitProcess,
    PrintStr,
    ReadKey,
    PlotPixel,
    Sleep,
    DisplayResolution,
    Allocate,
    Deallocate,
    ReadDisk,
}

/// The operation code a syscall travels under in the code register.
pub open spec fn spec_syscall_code(s: Syscall) -> u64 {
    match s {
        Syscall::SpawnProcess => 1,
        Syscall::ExitProcess => 2,
        Syscall::PrintStr => 5,
        Syscall::ReadKey => 6,
        Syscall::PlotPixel => 7,
        Syscall::Sleep => 8,
        Syscall::DisplayResolution => 9,
        Syscall::Allocate => 10,
        Syscall::Deallocate => 11,
        Syscall::ReadDisk => 12,
    }
}

/// The operation code a syscall travels under.
pub fn syscall_code(s: Syscall) -> (r: u64)
    ensures
        r == spec_syscall_code(s),
{
    match s {
        Syscall::SpawnProcess => 1,
        Syscall::ExitProcess => 2,
        Syscall::PrintStr => 5,
        Syscall::ReadKey => 6,
        Syscall::PlotPixel => 7,
        Syscall::Sleep => 8,
        Syscall::DisplayResolution => 9,
        Syscall::Allocate => 10,
        Syscall::Deallocate => 11,
        Syscall::ReadDisk => 12,
    }
}

/// What the dispatcher asks its caller to carry out: work on raw user memory,
/// devices or the heap, which only the surrounding runtime can touch.
#[derive(Debug, PartialEq, Eq, Clone, Copy, Structural)]
pub enum SyscallAction {
    /// The call was completed inside the kernel core.
    Handled,
    /// The code is unknown or reserved; it is silently ignored.
    Ignored,
    /// Write the `len` bytes at user address `addr` to the console.
    PrintStr { addr: u64, len: u64 },
    /// Pop the next decoded key, if any, into the slot at `slot`.
    ReadKey { slot: u64 },
    /// Busy-wait for the given nanosecond count on the platform clock.
    Sleep { ns: u64 },
    /// Write the display's width and height into the two slots.
    DisplayResolution { x_slot: u64, y_slot: u64 },
    /// Allocate under the layout at `layout`; write the pointer to `slot`.
    Allocate { layout: u64, slot: u64 },
    /// Free the pointer `ptr` under the layout at `layout`.
    Deallocate { ptr: u64, layout: u64 },
}

/// The process-table effect of the spawn syscall: the running process is
/// saved, the kernel pseudo-process is demoted, and the scheduler switches to
/// the round-robin choice, restoring its snapshot into the live state.
pub open spec fn spec_spawn_syscall_effect(
    s0: Seq<Process>,
    sf0: TrapFrame,
    regs0: Registers,
    s_fin: Seq<Process>,
    sf_fin: TrapFrame,
    regs_fin: Registers,
    active_fin: u64,
) -> bool {
    let pi = spec_first_running(s0, 0);
    let s1 = if pi >= 0 {
        s0.update(pi, spec_saved(s0[pi], sf0, regs0))
    } else {
        s0
    };
    let s2 = s1.update(0, Process { state: ProcessState::Ready, ..s1[0] });
    let sel = spec_select_next(s2, 0, false);
    &&& 0 <= sel < s2.len()
    &&& s_fin == s2.update(sel, spec_resumed(s2[sel]))
    &&& sf_fin == spec_restored_frame(sf0, s2[sel].state_isf)
    &&& regs_fin == s2[sel].state_reg
    &&& active_fin == s2[sel].page_table_addr.base
}

/// The process-table effect of the exit syscall: the running process is
/// removed for good, and the scheduler switches to the round-robin choice,
/// restoring its snapshot into the live state.
pub open spec fn spec_exit_syscall_effect(
    s0: Seq<Process>,
    sf0: TrapFrame,
    s_fin: Seq<Process>,
    sf_fin: TrapFrame,
    regs_fin: Registers,
    active_fin: u64,
) -> bool {
    let s1 = spec_kill(s0);
    let sel = spec_select_next(s1, 0, false);
    &&& 0 <= sel < s1.len()
    &&& s_fin == s1.update(sel, spec_resumed(s1[sel]))
    &&& sf_fin == spec_restored_frame(sf0, s1[sel].state_isf)
    &&& regs_fin == s1[sel].state_reg
    &&& active_fin == s1[sel].page_table_addr.base
}

/// The spawn syscall: save the caller, demote the kernel pseudo-process so
/// the round-robin runs over user processes, and switch. The process itself
/// was created beforehand by the kernel; this call only schedules away.
pub fn spawn_process(
    list: &mut Vec<Process>,
    tables: &mut PageTables,
    sf: &mut TrapFrame,
    regs: &mut Registers,
)
    requires
        spec_list_wf(old(list)@),
        spec_at_most_one_running(old(list)@),
    ensures
        final(tables).spec_frames() == old(tables).spec_frames(),
        spec_list_wf(final(list)@),
        spec_at_most_one_running(final(list)@),
        spec_spawn_syscall_effect(
            old(list)@,
            *old(sf),
            *old(regs),
            final(list)@,
            *final(sf),
            *final(regs),
            final(tables).spec_active(),
        ),
{
    proof {
        crate::process::lemma_first_running_props(old(list)@, 0);
    }
    save_current_process(list, sf, regs);
    let ghost s1 = list@;
    let first = &mut list[0];
    first.pause();
    proof {
        let s0 = old(list)@;
        let s2 = list@;
        let pi = spec_first_running(s0, 0);
        assert(s2 =~= s1.update(0, Process { state: ProcessState::Ready, ..s1[0] }));
        assert forall|j: int| 0 <= j < s2.len() implies !((#[trigger] s2[j].state) is Running) by {
            if pi >= 0 && j != pi && j != 0 {
                assert(!(s0[j].state is Running));
            }
        }
        crate::process::lemma_first_running_props(s2, 0);
    }
    switch_first_ready_process(list, tables, sf, regs);
}

/// The exit syscall: remove the running process and switch to the round-robin
/// choice. The kernel pseudo-process never exits.
pub fn exit_process(
    list: &mut Vec<Process>,
    tables: &mut PageTables,
    sf: &mut TrapFrame,
    regs: &mut Registers,
)
    requires
        spec_list_wf(old(list)@),
        spec_at_most_one_running(old(list)@),
        !(old(list)@[0].state is Running),
    ensures
        final(tables).spec_frames() == old(tables).spec_frames(),
        spec_list_wf(final(list)@),
        spec_at_most_one_running(final(list)@),
        spec_exit_syscall_effect(
            old(list)@,
            *old(sf),
            final(list)@,
            *final(sf),
            *final(regs),
            final(tables).spec_active(),
        ),
{
    proof {
        lemma_kill_list_wf(old(list)@);
    }
    kill_current_process(list);
    proof {
        crate::process::lemma_first_running_props(list@, 0);
    }
    switch_first_ready_process(list, tables, sf, regs);
}

/// Removing the running processes from a sound list whose kernel entry is not
/// running leaves a sound list in which nothing runs.
proof fn lemma_kill_list_wf(s: Seq<Process>)
    requires
        spec_list_wf(s),
        !(s[0].state is Running),
    ensures
        spec_list_wf(spec_kill(s)),
        spec_kill(s)[0] == s[0],
        forall|j: int|
            0 <= j < spec_kill(s).len() ==> !((#[trigger] spec_kill(s)[j].state) is Running),
        spec_at_most_one_running(spec_kill(s)),
    decreases s.len(),
{
    reveal(Seq::filter);
    lemma_kill_shape(s);
}

/// The filtered list keeps its order: it is empty, or it starts with the
/// first surviving process and every survivor stays in relative order with
/// strictly increasing identities.
proof fn lemma_kill_shape(s: Seq<Process>)
    requires
        forall|a: int, b: int| 0 <= a < b < s.len() ==> s[a].id < s[b].id,
    ensures
        spec_kill(s).len() <= s.len(),
        forall|j: int|
            0 <= j < spec_kill(s).len() ==> !((#[trigger] spec_kill(s)[j].state) is Running),
        s.len() > 0 && !(s[0].state is Running) ==> spec_kill(s).len() > 0 && spec_kill(s)[0]
            == s[0],
        forall|a: int, b: int|
            0 <= a < b < spec_kill(s).len() ==> spec_kill(s)[a].id < spec_kill(s)[b].id,
        forall|j: int| 0 <= j < spec_kill(s).len() ==> s.contains(#[trigger] spec_kill(s)[j]),
    decreases s.len(),
{
    reveal(Seq::filter);
    if s.len() > 0 {
        let t = s.drop_last();
        lemma_kill_shape(t);
        let kt = spec_kill(t);
        assert forall|j: int| 0 <= j < spec_kill(s).len() implies s.contains(
            #[trigger] spec_kill(s)[j],
        ) by {
            if j < kt.len() {
                assert(t.contains(kt[j]));
                let w = choose|w: int| 0 <= w < t.len() && t[w] == kt[j];
                assert(s[w] == kt[j]);
            } else {
                assert(s[s.len() - 1] == spec_kill(s)[j]);
            }
        }
        assert forall|a: int, b: int| 0 <= a < b < spec_kill(s).len() implies spec_kill(s)[a].id
            < spec_kill(s)[b].id by {
            if b < kt.len() {
            } else if b == kt.len() && spec_kill(s).len() > kt.len() {
                assert(t.contains(kt[a]));
                let w = choose|w: int| 0 <= w < t.len() && t[w] == kt[a];
                assert(s[w].id < s[s.len() - 1].id);
            }
        }
    }
}

/// Decode one software interrupt and dispatch it. Spawn and exit reshape the
/// process table and the live state here; a pixel plot lands in the
/// framebuffer here; the calls that touch raw user memory, the clock or the
/// heap come back as the action for the runtime to perform. Unknown and
/// reserved codes are silently ignored.
pub fn syscall_handler(
    a0: u64,
    a1: u64,
    a2: u64,
    a3: u64,
    list: &mut Vec<Process>,
    tables: &mut PageTables,
    display: &mut GOPDisplay,
    sf: &mut TrapFrame,
    regs: &mut Registers,
) -> (r: SyscallAction)
    requires
        spec_list_wf(old(list)@),
        spec_at_most_one_running(old(list)@),
        a0 == 2 ==> !(old(list)@[0].state is Running),
        old(display).wf(),
    ensures
        spec_list_wf(final(list)@),
        spec_at_most_one_running(final(list)@),
        final(display).wf(),
        final(tables).spec_frames() == old(tables).spec_frames(),
        a0 == 1 ==> r == SyscallAction::Handled && spec_spawn_syscall_effect(
            old(list)@,
            *old(sf),
            *old(regs),
            final(list)@,
            *final(sf),
            *final(regs),
            final(tables).spec_active(),
        ),
        a0 == 2 ==> r == SyscallAction::Handled && spec_exit_syscall_effect(
            old(list)@,
            *old(sf),
            final(list)@,
            *final(sf),
            *final(regs),
            final(tables).spec_active(),
        ),
        a0 == 5 ==> r == (SyscallAction::PrintStr { addr: a1, len: a2 }),
        a0 == 6 ==> r == (SyscallAction::ReadKey { slot: a1 }),
        a0 == 7 ==> r == SyscallAction::Handled && {
            let x = a1 as usize;
            let y = a2 as usize;
            let color = (a3 & 0xFFFFFFFF) as u32;
            if x < old(display).spec_stride() && y < old(display).spec_height() {
                final(display).spec_buf() == old(display).spec_buf().update(
                    y * old(display).spec_stride() + x,
                    color,
                )
            } else {
                final(display).spec_buf() == old(display).spec_buf()
            }
        },
        a0 == 8 ==> r == (SyscallAction::Sleep { ns: a1 }),
        a0 == 9 ==> r == (SyscallAction::DisplayResolution { x_slot: a1, y_slot: a2 }),
        a0 == 10 ==> r == (SyscallAction::Allocate { layout: a1, slot: a2 }),
        a0 == 11 ==> r == (SyscallAction::Deallocate { ptr: a1, layout: a2 }),
        !(1 <= a0 <= 2 || 5 <= a0 <= 11) ==> r == SyscallAction::Ignored && final(list)@ == old(list)@ && *final(sf) == *old(sf) && *final(regs) == *old(regs) && final(display).spec_buf()
            == old(display).spec_buf() && final(tables).spec_active() == old(tables).spec_active(),
        a0 != 1 && a0 != 2 ==> final(list)@ == old(list)@ && *final(sf) == *old(sf) && *final(regs)
            == *old(regs) && final(tables).spec_active() == old(tables).spec_active(),
        a0 != 7 ==> final(display).spec_buf() == old(display).spec_buf(),
{
    if a0 == 1 {
        spawn_process(list, tables, sf, regs);
        SyscallAction::Handled
    } else if a0 == 2 {
        exit_process(list, tables, sf, regs);
        SyscallAction::Handled
    } else if a0 == 5 {
        SyscallAction::PrintStr { addr: a1, len: a2 }
    } else if a0 == 6 {
        SyscallAction::ReadKey { slot: a1 }
    } else if a0 == 7 {
        plot_pixel(display, a1 as usize, a2 as usize, (a3 & 0xFFFFFFFF) as u32);
        SyscallAction::Handled
    } else if a0 == 8 {
        SyscallAction::Sleep { ns: a1 }
    } else if a0 == 9 {
        SyscallAction::DisplayResolution { x_slot: a1, y_slot: a2 }
    } else if a0 == 10 {
        SyscallAction::Allocate { layout: a1, slot: a2 }
    } else if a0 == 11 {
        SyscallAction::Deallocate { ptr: a1, layout: a2 }
    } else {
        // Unknown codes, and the reserved disk read, fall through silently.
        SyscallAction::Ignored
    }
}

/// Set one framebuffer pixel; coordinates off the framebuffer are dropped.
pub fn plot_pixel(display: &mut GOPDisplay, x: usize, y: usize, color: u32)
    requires
        old(display).wf(),
    ensures
        final(display).wf(),
        final(display).spec_stride() == old(display).spec_stride(),
        final(display).spec_width() == old(display).spec_width(),
        final(display).spec_height() == old(display).spec_height(),
        x < old(display).spec_stride() && y < old(display).spec_height() ==> final(display).spec_buf() == old(display).spec_buf().update(y * old(display).spec_stride() + x, color),
        !(x < old(display).spec_stride() && y < old(display).spec_height()) ==> final(display).spec_buf() == old(display).spec_buf(),
{
    let _ = display.set_pixel(x, y, color);
}

/// Write the display's resolution into the caller's two output slots.
pub fn display_resolution(px: &mut u64, py: &mut u64, display: &GOPDisplay)
    ensures
        *final(px) == display.spec_width() as u64,
        *final(py) == display.spec_height() as u64,
{
    let (x, y) = display.resolution();
    *px = x as u64;
    *py = y as u64;
}

/// The reserved disk-read operation: a stub that does nothing yet.
pub fn read_disk(id: u64, dst: &mut Vec<u8>)
    ensures
        final(dst)@ == old(dst)@,
{
    let _ = id;
}

} // verus!
