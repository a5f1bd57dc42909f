use toyos::cpu::{BootOp, Cpu};
use toyos::gdt::{
    can_reserve_fault_stack, is_canonical, reserve_fault_stack, DOUBLE_FAULT_IST_INDEX, STACK_SIZE,
};
use toyos::interrupts::{
    build_table, init_hw_interrupts, init_idt, keyboard_interrupt_handler,
    timer_interrupt_handler, Disposition, Gate, Handler, InterruptDescriptorTable, InterruptIndex,
    KeyboardService, PIC_1_OFFSET, PIC_2_OFFSET,
};
use toyos::task::queue::EventQueue;
use toyos::task::{Poll, ReadySet, TaskId, Waker};
use toyos::{exit_qemu, init, test_runner, PortWrite, QemuExitCode, Testable};

#[test]
fn trivial_assertion() {
    assert_eq!(1, 1);
}

#[test]
fn hardware_interrupts_start_after_the_cpu_exceptions() {
    assert_eq!(PIC_1_OFFSET, 32);
    assert_eq!(PIC_2_OFFSET, 40);
    assert_eq!(InterruptIndex::Timer.as_usize(), 32);
    assert_eq!(InterruptIndex::Keyboard.as_usize(), 33);
    assert_eq!(InterruptIndex::Timer.as_u8(), 32);
    assert_eq!(InterruptIndex::Keyboard.as_u8(), 33);
}

#[test]
fn the_kernel_table_binds_five_vectors() {
    let table = build_table();
    let mut bound = Vec::new();
    for vector in 0..=255u8 {
        if let Some(gate) = table.entry(vector) {
            bound.push((vector, gate));
        }
    }
    assert_eq!(
        bound,
        vec![
            (3, Gate { handler: Handler::Breakpoint, stack_index: None }),
            (8, Gate { handler: Handler::DoubleFault, stack_index: Some(DOUBLE_FAULT_IST_INDEX) }),
            (14, Gate { handler: Handler::PageFault, stack_index: None }),
            (32, Gate { handler: Handler::Timer, stack_index: None }),
            (33, Gate { handler: Handler::Keyboard, stack_index: None }),
        ]
    );
    assert_eq!(DOUBLE_FAULT_IST_INDEX, 0);
}

#[test]
fn a_stack_index_is_set_on_a_bound_vector_only() {
    let mut table = InterruptDescriptorTable::new();
    table.set_stack_index(8, 2);
    assert_eq!(table.entry(8), None);
    table.set_handler_fn(Handler::DoubleFault);
    assert_eq!(table.entry(8), Some(Gate { handler: Handler::DoubleFault, stack_index: None }));
    table.set_stack_index(8, 2);
    assert_eq!(table.entry(8), Some(Gate { handler: Handler::DoubleFault, stack_index: Some(2) }));
    assert_eq!(Handler::DoubleFault.index(), 8);
    assert_eq!(Handler::Breakpoint.index(), 3);
    assert_eq!(Handler::PageFault.index(), 14);
    assert_eq!(Handler::Timer.index(), 32);
    assert_eq!(Handler::Keyboard.index(), 33);
}

#[test]
fn faults_halt_and_the_rest_resumes() {
    assert_eq!(Handler::Breakpoint.disposition(), Disposition::Resume);
    assert_eq!(Handler::Timer.disposition(), Disposition::Resume);
    assert_eq!(Handler::Keyboard.disposition(), Disposition::Resume);
    assert_eq!(Handler::PageFault.disposition(), Disposition::Halt);
    assert_eq!(Handler::DoubleFault.disposition(), Disposition::Halt);
}

#[test]
fn the_fault_stack_top_is_five_pages_above_its_start() {
    assert_eq!(STACK_SIZE, 20480);
    assert_eq!(reserve_fault_stack(0x20_0000), 0x20_5000);
    assert_eq!(reserve_fault_stack(0), 0x5000);
    assert_eq!(
        reserve_fault_stack(0xffff_8000_0000_1000),
        0xffff_8000_0000_6000
    );
}

#[test]
fn a_stack_must_lie_at_canonical_addresses() {
    assert!(is_canonical(0));
    assert!(is_canonical(0x7fff_ffff_ffff));
    assert!(!is_canonical(0x8000_0000_0000));
    assert!(!is_canonical(0xffff_7fff_ffff_ffff));
    assert!(is_canonical(0xffff_8000_0000_0000));
    assert!(is_canonical(u64::MAX));
    assert!(can_reserve_fault_stack(0x1000));
    assert!(can_reserve_fault_stack(0x7fff_ffff_ffff - 20480));
    assert!(!can_reserve_fault_stack(0x7fff_ffff_ffff - 20479));
    assert!(!can_reserve_fault_stack(0x8000_0000_0000));
    assert!(can_reserve_fault_stack(u64::MAX - 20480));
    assert!(!can_reserve_fault_stack(u64::MAX - 20479));
}

#[test]
fn init_brings_the_processor_up_in_order() {
    let mut cpu = Cpu::new();
    assert!(!cpu.interrupts_enabled());
    assert_eq!(cpu.stack_top(0), None);
    assert_eq!(cpu.gate(8), None);
    let ops = init(&mut cpu, 0x10_0000);
    assert_eq!(
        ops,
        vec![
            BootOp::LoadGlobalDescriptorTable,
            BootOp::SetCodeSegment,
            BootOp::LoadTaskState,
            BootOp::LoadInterruptTable,
            BootOp::InitializeControllers { offset_1: 0x20, offset_2: 0x28 },
            BootOp::EnableInterrupts,
        ]
    );
    assert!(cpu.interrupts_enabled());
    assert_eq!(cpu.stack_top(0), Some(0x10_5000));
    assert_eq!(cpu.stack_top(1), None);
    assert_eq!(cpu.stack_top(7), None);
    assert_eq!(
        cpu.gate(8),
        Some(Gate { handler: Handler::DoubleFault, stack_index: Some(0) })
    );
    assert_eq!(cpu.gate(32), Some(Gate { handler: Handler::Timer, stack_index: None }));
    assert_eq!(cpu.gate(34), None);
}

#[test]
fn the_three_steps_of_init_one_by_one() {
    let mut cpu = Cpu::new();
    assert_eq!(
        toyos::gdt::init(&mut cpu, 0x4000),
        vec![BootOp::LoadGlobalDescriptorTable, BootOp::SetCodeSegment, BootOp::LoadTaskState]
    );
    assert_eq!(cpu.stack_top(0), Some(0x9000));
    assert_eq!(cpu.gate(3), None);
    assert_eq!(init_idt(&mut cpu), BootOp::LoadInterruptTable);
    assert_eq!(cpu.gate(3), Some(Gate { handler: Handler::Breakpoint, stack_index: None }));
    assert!(!cpu.interrupts_enabled());
    assert_eq!(
        init_hw_interrupts(&mut cpu),
        vec![
            BootOp::InitializeControllers { offset_1: 32, offset_2: 40 },
            BootOp::EnableInterrupts
        ]
    );
    assert!(cpu.interrupts_enabled());
}

#[test]
fn the_timer_handler_acknowledges_the_timer() {
    assert_eq!(timer_interrupt_handler(), InterruptIndex::Timer);
}

#[test]
fn the_keyboard_handler_acknowledges_on_every_path() {
    let mut ready = ReadySet::new();
    let mut queue = EventQueue::new(1);
    let waker = Waker::new(TaskId(3));
    assert_eq!(queue.poll_next(waker), Poll::Pending);
    assert_eq!(
        keyboard_interrupt_handler(&mut queue, &mut ready, 0x1c),
        KeyboardService { acknowledge: InterruptIndex::Keyboard, stored: true }
    );
    assert!(ready.contains(TaskId(3)));
    assert_eq!(
        keyboard_interrupt_handler(&mut queue, &mut ready, 0x1d),
        KeyboardService { acknowledge: InterruptIndex::Keyboard, stored: false }
    );
    assert_eq!(queue.poll_pop(), Some(0x1c));
    assert_eq!(queue.poll_pop(), None);
}

#[test]
fn exit_codes_go_to_the_debug_exit_port() {
    assert_eq!(exit_qemu(QemuExitCode::Success), PortWrite { port: 0xf4, value: 0x10 });
    assert_eq!(exit_qemu(QemuExitCode::Error), PortWrite { port: 0xf4, value: 0x11 });
    assert_eq!(QemuExitCode::Success.as_u32(), 0x10);
    assert_eq!(QemuExitCode::Error.as_u32(), 0x11);
    assert_eq!(QemuExitCode::Success.host_status(), 33);
    assert_eq!(QemuExitCode::Error.host_status(), 35);
}

#[test]
fn the_test_runner_runs_each_test_once_and_reports_success() {
    let runs = std::cell::RefCell::new(Vec::new());
    let first = || runs.borrow_mut().push("first");
    let second = || runs.borrow_mut().push("second");
    let tests: [&dyn Testable; 2] = [&first, &second];
    assert_eq!(test_runner(&tests), PortWrite { port: 0xf4, value: 0x10 });
    assert_eq!(*runs.borrow(), vec!["first", "second"]);
    assert_eq!(test_runner(&[]), PortWrite { port: 0xf4, value: 0x10 });
}

struct Counted<'a> {
    runs: &'a std::cell::Cell<u32>,
}

impl<'a> Testable for Counted<'a> {
    fn run(&self) {
        self.runs.set(self.runs.get() + 1);
    }
}

#[test]
fn a_test_case_of_its_own_type_is_run() {
    let runs = std::cell::Cell::new(0);
    let case = Counted { runs: &runs };
    let tests: [&dyn Testable; 3] = [&case, &case, &case];
    assert_eq!(test_runner(&tests), exit_qemu(QemuExitCode::Success));
    assert_eq!(runs.get(), 3);
}
