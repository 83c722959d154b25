//! The kernel core: frame allocation, page-table inheritance, scheduling,
//! save/restore, the spawn/exit lifecycle, and the syscall boundary.

use xkernel::BootInfoFrameAllocator;
use xkernel::GOPDisplay;
use xkernel::MemoryDescriptor;
use xkernel::MemoryKind;
use xkernel::MemoryMap;
use xkernel::PageTables;
use xkernel::PhysFrame;
use xkernel::Process;
use xkernel::ProcessState;
use xkernel::Registers;
use xkernel::SyscallAction;
use xkernel::SyscallRequest;
use xkernel::TrapFrame;
use xkernel::physical_to_virtual;
use xkernel::process::save_current_process;
use xkernel::process::switch_first_ready_process;

fn one_region_map(base: u64, pages: u64) -> MemoryMap {
    MemoryMap {
        descriptors: vec![MemoryDescriptor {
            phys_start: base,
            page_count: pages,
            ty: MemoryKind::Conventional,
        }],
    }
}

fn zero_frame() -> TrapFrame {
    TrapFrame {
        instruction_pointer: 0,
        code_segment: 0,
        cpu_flags: 0,
        stack_pointer: 0,
        stack_segment: 0,
    }
}

fn regs_with_rax(rax: usize) -> Registers {
    Registers { rax, ..Registers::default() }
}

fn user_process(id: usize, state: ProcessState, isf: TrapFrame, reg: Registers) -> Process {
    Process {
        id,
        state,
        state_isf: isf,
        state_reg: reg,
        page_table_addr: PhysFrame { base: 0x1000 * (id as u64 + 1) },
        page_table: Some(PhysFrame { base: 0x1000 * (id as u64 + 1) }),
    }
}

/// Four pages at 0x100000 come out in order; a fifth call reports exhaustion.
#[test]
fn frame_allocator_single_region() {
    let mut alloc = BootInfoFrameAllocator::init(one_region_map(0x100000, 4));
    assert_eq!(alloc.allocate_frame(), Some(PhysFrame { base: 0x100000 }));
    assert_eq!(alloc.allocate_frame(), Some(PhysFrame { base: 0x101000 }));
    assert_eq!(alloc.allocate_frame(), Some(PhysFrame { base: 0x102000 }));
    assert_eq!(alloc.allocate_frame(), Some(PhysFrame { base: 0x103000 }));
    assert_eq!(alloc.allocate_frame(), None);
}

/// Reserved regions never yield frames.
#[test]
fn frame_allocator_skips_reserved() {
    let map = MemoryMap {
        descriptors: vec![
            MemoryDescriptor { phys_start: 0x1000, page_count: 1, ty: MemoryKind::Conventional },
            MemoryDescriptor { phys_start: 0x5000, page_count: 2, ty: MemoryKind::Reserved },
            MemoryDescriptor { phys_start: 0x9000, page_count: 1, ty: MemoryKind::Conventional },
        ],
    };
    let mut alloc = BootInfoFrameAllocator::init(map);
    assert_eq!(alloc.allocate_frame(), Some(PhysFrame { base: 0x1000 }));
    assert_eq!(alloc.allocate_frame(), Some(PhysFrame { base: 0x9000 }));
    assert_eq!(alloc.allocate_frame(), None);
}

#[test]
fn physical_window_offset() {
    assert_eq!(physical_to_virtual(0x1234), 0xFFFF_8000_0000_1234);
}

/// After `new_address_space` every top-level entry of the active root shows
/// identically in the copy, and mappings added to the copy afterwards do not
/// appear in the original root.
#[test]
fn page_table_inheritance_and_isolation() {
    let mut alloc = BootInfoFrameAllocator::init(one_region_map(0x200000, 16));
    let mut tables = PageTables::new(0x1000);
    let root = tables.active_root();
    // Map one page in the original root; its walk creates three tables.
    tables.map_page(root, 0x4000_0000_0000, 0x200000 * 2, 0x7, &mut alloc).unwrap_or(());
    let before: Vec<Option<u64>> = (0..512).map(|i| tables.table_entry(root, i)).collect();

    let copy = tables.new_address_space(&mut alloc).unwrap();
    for i in 0..512 {
        assert_eq!(tables.table_entry(copy, i), tables.table_entry(root, i));
    }
    // A mapping shared through an inherited top-level entry resolves in both.
    assert_eq!(
        tables.translate(copy, 0x4000_0000_0000),
        tables.translate(root, 0x4000_0000_0000)
    );

    // Map a page under a different top-level slot of the copy only.
    tables.map_page(copy, 0x7000_0000_0000, 0x500000, 0x7, &mut alloc).unwrap_or(());
    assert!(tables.translate(copy, 0x7000_0000_0000).is_some());
    assert!(tables.translate(root, 0x7000_0000_0000).is_none());
    for i in 0..512 {
        assert_eq!(tables.table_entry(root, i), before[i]);
    }
}

/// Mapping an already-mapped page is reported, not overwritten.
#[test]
fn map_page_reports_already_mapped() {
    let mut alloc = BootInfoFrameAllocator::init(one_region_map(0x200000, 16));
    let mut tables = PageTables::new(0x1000);
    let root = tables.active_root();
    assert_eq!(tables.map_page(root, 0x1000, 0x300000, 0x3, &mut alloc), Ok(()));
    let leaf = tables.translate(root, 0x1000);
    assert_eq!(
        tables.map_page(root, 0x1000, 0x400000, 0x3, &mut alloc),
        Err(xkernel::MapError::AlreadyMapped)
    );
    assert_eq!(tables.translate(root, 0x1000), leaf);
    assert_eq!(leaf, Some(0x300000 | 0x3 | 1));
}

/// Kernel-priority rule: the kernel was running, so the switch picks the
/// kernel again and leaves the live state untouched.
#[test]
fn switch_keeps_running_kernel() {
    let mut list = vec![
        user_process(0, ProcessState::Running, zero_frame(), Registers::default()),
        user_process(1, ProcessState::Ready, zero_frame(), regs_with_rax(11)),
        user_process(2, ProcessState::Ready, zero_frame(), regs_with_rax(22)),
    ];
    let mut tables = PageTables::new(0x1000);
    let mut sf = TrapFrame { instruction_pointer: 0x77, ..zero_frame() };
    let mut regs = regs_with_rax(7);

    switch_first_ready_process(&mut list, &mut tables, &mut sf, &mut regs);

    assert_eq!(list[0].state, ProcessState::Running);
    assert_eq!(list[1].state, ProcessState::Ready);
    assert_eq!(list[2].state, ProcessState::Ready);
    // No switch happened: the live frame and registers are untouched.
    assert_eq!(sf.instruction_pointer, 0x77);
    assert_eq!(regs.rax, 7);
}

/// Round-robin: with the kernel ready and A running, the switch saves A and
/// resumes B, restoring B's snapshot into the live state.
#[test]
fn switch_round_robin_picks_next() {
    let b_isf = TrapFrame { instruction_pointer: 0xB0B, stack_pointer: 0xBEE, cpu_flags: 0x202,
        ..zero_frame() };
    let mut list = vec![
        user_process(0, ProcessState::Ready, zero_frame(), Registers::default()),
        user_process(1, ProcessState::Running, zero_frame(), Registers::default()),
        user_process(2, ProcessState::Ready, b_isf, regs_with_rax(22)),
    ];
    let mut tables = PageTables::new(0x1000);
    let mut sf = TrapFrame { instruction_pointer: 0xA0A, ..zero_frame() };
    let mut regs = regs_with_rax(1);

    switch_first_ready_process(&mut list, &mut tables, &mut sf, &mut regs);

    // A was saved with the live state and demoted.
    assert_eq!(list[1].state, ProcessState::Ready);
    assert_eq!(list[1].state_isf.instruction_pointer, 0xA0A);
    assert_eq!(list[1].state_reg.rax, 1);
    // B runs, restored from its snapshot; the kernel is skipped.
    assert_eq!(list[0].state, ProcessState::Ready);
    assert_eq!(list[2].state, ProcessState::Running);
    assert_eq!(sf.instruction_pointer, 0xB0B);
    assert_eq!(sf.stack_pointer, 0xBEE);
    assert_eq!(sf.cpu_flags, 0x202);
    assert_eq!(regs.rax, 22);
    // The root register moved to B's address space.
    assert_eq!(tables.active_root(), list[2].page_table_addr.base);
}

/// Round-robin wraps past the last user process to the first, never landing
/// on the kernel while user processes exist.
#[test]
fn switch_round_robin_wraps() {
    let mut list = vec![
        user_process(0, ProcessState::Ready, zero_frame(), Registers::default()),
        user_process(1, ProcessState::Ready, zero_frame(), regs_with_rax(11)),
        user_process(2, ProcessState::Running, zero_frame(), regs_with_rax(22)),
    ];
    let mut tables = PageTables::new(0x1000);
    let mut sf = zero_frame();
    let mut regs = Registers::default();

    // 2 is last, so the wrap lands on 1; then 2 again; then 1.
    let mut seen = Vec::new();
    for _ in 0..3 {
        switch_first_ready_process(&mut list, &mut tables, &mut sf, &mut regs);
        let running: Vec<usize> =
            list.iter().filter(|p| p.state == ProcessState::Running).map(|p| p.id).collect();
        assert_eq!(running.len(), 1);
        seen.push(running[0]);
    }
    assert_eq!(seen, vec![1, 2, 1]);
}

/// Save/restore round trip: capture the live state, clobber it, then switch
/// back to the saved process; the captured values return exactly.
#[test]
fn save_restore_round_trip() {
    let mut list = vec![
        user_process(0, ProcessState::Ready, zero_frame(), Registers::default()),
        user_process(1, ProcessState::Running, zero_frame(), Registers::default()),
        user_process(2, ProcessState::Ready, zero_frame(), Registers::default()),
    ];
    let mut tables = PageTables::new(0x1000);
    let captured_sf = TrapFrame {
        instruction_pointer: 0x1111,
        stack_pointer: 0x2222,
        cpu_flags: 0x3333,
        code_segment: 0x8,
        stack_segment: 0x10,
    };
    let captured_regs = regs_with_rax(0x4444);
    let mut sf = captured_sf;
    let mut regs = captured_regs;

    // The switch saves process 1 and resumes process 2.
    switch_first_ready_process(&mut list, &mut tables, &mut sf, &mut regs);
    // The live state is clobbered while process 2 runs.
    sf = zero_frame();
    regs = regs_with_rax(0xDEAD);
    // The next switch wraps back to process 1 and restores its snapshot.
    switch_first_ready_process(&mut list, &mut tables, &mut sf, &mut regs);

    assert_eq!(sf.instruction_pointer, 0x1111);
    assert_eq!(sf.stack_pointer, 0x2222);
    assert_eq!(sf.cpu_flags, 0x3333);
    assert_eq!(regs, captured_regs);
}

/// Saving with nothing running reports `None` and changes nothing.
#[test]
fn save_with_nothing_running() {
    let mut list = vec![user_process(0, ProcessState::Ready, zero_frame(), Registers::default())];
    let snapshot = list.clone();
    let mut sf = zero_frame();
    let mut regs = Registers::default();
    assert_eq!(save_current_process(&mut list, &mut sf, &mut regs), None);
    assert_eq!(list, snapshot);
}

/// Spawn/exit lifecycle: a spawned process scheduled by the spawn syscall and
/// then killed leaves the list without its identity, and the frames its page
/// table consumed are never handed out again.
#[test]
fn spawn_exit_lifecycle() {
    let mut alloc = BootInfoFrameAllocator::init(one_region_map(0x200000, 8));
    let mut tables = PageTables::new(0x1000);
    let mut list = xkernel::init(&mut alloc, &mut tables);
    assert_eq!(list.len(), 1);
    assert_eq!(list[0].id, 0);
    assert_eq!(list[0].state, ProcessState::Running);

    // The kernel creates the process, consuming frame 0x201000 for its root.
    xkernel::spawn_process(&mut list, &mut alloc, &mut tables, 0x4000, 0x8000);
    assert_eq!(list.len(), 2);
    assert_eq!(list[1].id, 1);
    assert_eq!(list[1].state, ProcessState::Ready);
    assert_eq!(list[1].state_isf.instruction_pointer, 0x4000);
    assert_eq!(list[1].state_isf.stack_pointer, 0x8000);
    assert_eq!(list[1].state_isf.cpu_flags, 0x3200);

    // The spawn syscall schedules away from the kernel onto the new process.
    let mut sf = zero_frame();
    let mut regs = Registers::default();
    let mut display = GOPDisplay::new(4, 4, 4);
    let action = xkernel::syscall_handler(
        1, 0, 0, 0, &mut list, &mut tables, &mut display, &mut sf, &mut regs,
    );
    assert_eq!(action, SyscallAction::Handled);
    assert_eq!(list[1].state, ProcessState::Running);
    assert_eq!(sf.instruction_pointer, 0x4000);

    // The exit syscall removes it for good; its identity is gone.
    let action = xkernel::syscall_handler(
        2, 0, 0, 0, &mut list, &mut tables, &mut display, &mut sf, &mut regs,
    );
    assert_eq!(action, SyscallAction::Handled);
    assert_eq!(list.len(), 1);
    assert_eq!(list[0].id, 0);
    assert_eq!(list[0].state, ProcessState::Running);

    // The frames the dead process's page table held are not reclaimed: the
    // allocator keeps handing out fresh addresses past them.
    let next = alloc.allocate_frame().unwrap().base;
    assert!(next > 0x201000);
}

/// The dispatcher's mapping from operation codes to actions and effects.
#[test]
fn syscall_dispatch_table() {
    let mut list = vec![user_process(0, ProcessState::Running, zero_frame(), Registers::default())];
    let mut tables = PageTables::new(0x1000);
    let mut display = GOPDisplay::new(8, 8, 8);

    let mut run = |a0: u64, a1: u64, a2: u64, a3: u64,
                   list: &mut Vec<Process>,
                   tables: &mut PageTables,
                   display: &mut GOPDisplay| {
        let mut sf2 = zero_frame();
        let mut regs2 = Registers::default();
        xkernel::syscall_handler(a0, a1, a2, a3, list, tables, display, &mut sf2, &mut regs2)
    };

    assert_eq!(
        run(5, 0x9000, 12, 0, &mut list, &mut tables, &mut display),
        SyscallAction::PrintStr { addr: 0x9000, len: 12 }
    );
    assert_eq!(
        run(6, 0xA000, 0, 0, &mut list, &mut tables, &mut display),
        SyscallAction::ReadKey { slot: 0xA000 }
    );
    assert_eq!(
        run(8, 1_000_000, 0, 0, &mut list, &mut tables, &mut display),
        SyscallAction::Sleep { ns: 1_000_000 }
    );
    assert_eq!(
        run(9, 0xB000, 0xB008, 0, &mut list, &mut tables, &mut display),
        SyscallAction::DisplayResolution { x_slot: 0xB000, y_slot: 0xB008 }
    );
    assert_eq!(
        run(10, 0xC000, 0xC008, 0, &mut list, &mut tables, &mut display),
        SyscallAction::Allocate { layout: 0xC000, slot: 0xC008 }
    );
    assert_eq!(
        run(11, 0xD000, 0xD008, 0, &mut list, &mut tables, &mut display),
        SyscallAction::Deallocate { ptr: 0xD000, layout: 0xD008 }
    );
    // The reserved disk read and unknown codes fall through silently.
    assert_eq!(run(12, 0, 0, 0, &mut list, &mut tables, &mut display), SyscallAction::Ignored);
    assert_eq!(run(99, 0, 0, 0, &mut list, &mut tables, &mut display), SyscallAction::Ignored);

    // A pixel plot lands in the framebuffer; the color is masked to 32 bits.
    assert_eq!(
        run(7, 2, 3, 0xFF00_0000_00AB_CDEF, &mut list, &mut tables, &mut display),
        SyscallAction::Handled
    );
    assert_eq!(display.get_pixel(2, 3), Ok(0x00AB_CDEF));
}

/// Mapping with an exhausted allocator reports frame exhaustion.
#[test]
fn map_page_reports_frame_exhaustion() {
    let mut alloc = BootInfoFrameAllocator::init(one_region_map(0x200000, 0));
    let mut tables = PageTables::new(0x1000);
    let root = tables.active_root();
    assert_eq!(
        tables.map_page(root, 0x1000, 0x300000, 0x3, &mut alloc),
        Err(xkernel::MapError::FrameExhausted)
    );
    assert_eq!(tables.translate(root, 0x1000), None);
}

/// Killing removes exactly the running processes.
#[test]
fn kill_removes_running() {
    let mut list = vec![
        user_process(0, ProcessState::Ready, zero_frame(), Registers::default()),
        user_process(1, ProcessState::Running, zero_frame(), Registers::default()),
        user_process(2, ProcessState::Ready, zero_frame(), Registers::default()),
    ];
    xkernel::kill_current_process(&mut list);
    let ids: Vec<usize> = list.iter().map(|p| p.id).collect();
    assert_eq!(ids, vec![0, 2]);
}

/// The framebuffer model: bounds, updates, clearing, resolution reporting.
#[test]
fn display_model() {
    let mut d = GOPDisplay::new(3, 2, 4);
    assert_eq!(d.resolution(), (3, 2));
    assert_eq!(d.set_pixel(2, 1, 0xAABB), Ok(()));
    assert_eq!(d.get_pixel(2, 1), Ok(0xAABB));
    assert_eq!(d.get_pixel(0, 0), Ok(0));
    assert_eq!(d.set_pixel(4, 0, 1), Err(xkernel::DisplayError::OutOfBound(4, 0)));
    assert_eq!(d.get_pixel(0, 2), Err(xkernel::DisplayError::OutOfBound(0, 2)));
    let mut px: u64 = 0;
    let mut py: u64 = 0;
    xkernel::display_resolution(&mut px, &mut py, &d);
    assert_eq!((px, py), (3, 2));
    d.clear();
    assert_eq!(d.get_pixel(2, 1), Ok(0));

    // Scrolling up by one row pulls each row's pixels from the row below.
    let mut d = GOPDisplay::new(2, 3, 2);
    d.set_pixel(0, 1, 7).unwrap();
    d.set_pixel(1, 2, 9).unwrap();
    d.scrollup_n(1);
    assert_eq!(d.get_pixel(0, 0), Ok(7));
    assert_eq!(d.get_pixel(1, 1), Ok(9));
    // The bottom row keeps its old pixels.
    assert_eq!(d.get_pixel(1, 2), Ok(9));
}

/// The user-side request builders place code and arguments in their fixed
/// registers.
#[test]
fn userlib_requests() {
    assert_eq!(
        xkernel::sys_print_str(0x1000, 5),
        SyscallRequest { id: 5, arg0: 0x1000, arg1: 5, arg2: 0 }
    );
    assert_eq!(
        xkernel::sys_read_key(0x2000),
        SyscallRequest { id: 6, arg0: 0x2000, arg1: 0, arg2: 0 }
    );
    assert_eq!(
        xkernel::sys_plot_pixel(7, 9, 0xFF),
        SyscallRequest { id: 7, arg0: 7, arg1: 9, arg2: 0xFF }
    );
    assert_eq!(xkernel::sys_sleep(100), SyscallRequest { id: 8, arg0: 100, arg1: 0, arg2: 0 });
    assert_eq!(
        xkernel::sys_display_resolution(0x10, 0x18),
        SyscallRequest { id: 9, arg0: 0x10, arg1: 0x18, arg2: 0 }
    );
    assert_eq!(
        xkernel::sys_allocate(0x20, 0x28),
        SyscallRequest { id: 10, arg0: 0x20, arg1: 0x28, arg2: 0 }
    );
    assert_eq!(
        xkernel::sys_deallocate(0x30, 0x38),
        SyscallRequest { id: 11, arg0: 0x30, arg1: 0x38, arg2: 0 }
    );
}

/// Reading typed characters: digits accumulate into a number, words end at a
/// blank or line break.
#[test]
fn userlib_input_parsing() {
    let input = vec!['4', '2', '\n'];
    assert_eq!(xkernel::read_u64(&input), 42);
    let input = vec!['0', ' '];
    assert_eq!(xkernel::read_u64(&input), 0);
    let input = vec!['x'];
    assert_eq!(xkernel::read_u64(&input), 0);

    let input = vec!['l', 's', ' ', 'x'];
    let mut buf = vec![0u8; 8];
    let n = xkernel::read_str(&input, &mut buf);
    assert_eq!(n, 2);
    assert_eq!(&buf[..2], b"ls");
    assert_eq!(&buf[2..], &[0u8; 6]);
}
