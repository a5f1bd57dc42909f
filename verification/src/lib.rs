//! A small x86_64 kernel core: the boot protocol, the interrupt vector table,
//! the text screen, the frame allocator and the interrupt-driven cooperative
//! task scheduler, each stated over a mathematical model and verified.
//!
//! The library decides; the program around it touches the hardware.

use crate::cpu::{BootOp, Cpu, CpuState};
use crate::interrupts::{kernel_table, PIC_1_OFFSET, PIC_2_OFFSET};
use vstd::prelude::*;

pub mod cpu;
pub mod gdt;
pub mod interrupts;
pub mod mem;
pub mod task;
pub mod vga;

verus! {

/// The port of the emulator's debug exit device.
pub const ISA_DEBUG_EXIT_PORT: u16 = 0xf4;

/// A 32-bit value for the program to write to a port.
#[derive(Debug, Clone, Copy, PartialEq, Eq, Structural)]
pub struct PortWrite {
    pub port: u16,
    pub value: u32,
}

/// The exit codes that the kernel hands to the emulator.
#[derive(Debug, Clone, Copy, PartialEq, Eq, Structural)]
pub enum QemuExitCode {
    Success,
    Error,
}

impl QemuExitCode {
    /// The number that is written to the debug exit device.
    pub open spec fn code(self) -> u32 {
        match self {
            QemuExitCode::Success => 0x10,
            QemuExitCode::Error => 0x11,
        }
    }

    /// The number that is written to the debug exit device.
    pub fn as_u32(self) -> (code: u32)
        ensures
            code == self.code(),
    {
        match self {
            QemuExitCode::Success => 0x10,
            QemuExitCode::Error => 0x11,
        }
    }

    /// The status with which the emulator's process ends once the code was
    /// written: the code shifted left by one, with the lowest bit set.
    pub fn host_status(self) -> (status: u32)
        ensures
            status == self.code() * 2 + 1,
    {
        let code: u32 = self.as_u32();
        assert((code << 1) | 1 == code * 2 + 1) by (bit_vector)
            requires
                code < 0x100,
        ;
        (code << 1) | 1
    }
}

/// Brings the processor up in the order that the hardware asks for: the
/// fault-isolation layer first, then the interrupt vector table, then the
/// interrupt controllers and the interrupt flag. Returns the steps for the
/// program to perform, in order.
pub fn init(cpu: &mut Cpu, stack_start: u64) -> (ops: Vec<BootOp>)
    requires
        old(cpu)@.wf(),
        gdt::stack_fits(stack_start),
    ensures
        final(cpu)@.wf(),
        final(cpu)@ == (CpuState {
            stack_table: old(cpu)@.stack_table.update(
                0,
                (stack_start + gdt::STACK_SIZE) as u64,
            ),
            table: Some(kernel_table()),
            controllers: Some((PIC_1_OFFSET, PIC_2_OFFSET)),
            interrupts_enabled: true,
        }),
        ops@ == seq![
            BootOp::LoadGlobalDescriptorTable,
            BootOp::SetCodeSegment,
            BootOp::LoadTaskState,
            BootOp::LoadInterruptTable,
            BootOp::InitializeControllers { offset_1: PIC_1_OFFSET, offset_2: PIC_2_OFFSET },
            BootOp::EnableInterrupts,
        ],
{
    let mut ops: Vec<BootOp> = gdt::init(cpu, stack_start);
    let load: BootOp = interrupts::init_idt(cpu);
    ops.push(load);
    let mut enable: Vec<BootOp> = interrupts::init_hw_interrupts(cpu);
    ops.append(&mut enable);
    ops
}

/// The write that hands `exit_code` to the emulator.
pub open spec fn exit_write(exit_code: QemuExitCode) -> PortWrite {
    PortWrite { port: 0xf4, value: exit_code.code() }
}

/// What ends the kernel's run under the emulator: the write of `exit_code`
/// to the debug exit device. The program performs it and halts.
pub fn exit_qemu(exit_code: QemuExitCode) -> (write: PortWrite)
    ensures
        write == exit_write(exit_code),
{
    PortWrite { port: ISA_DEBUG_EXIT_PORT, value: exit_code.as_u32() }
}

/// A test case.
pub trait Testable {
    /// What the test case needs to hold before it runs: nothing, unless an
    /// implementation says otherwise.
    open spec fn runnable(&self) -> bool {
        true
    }

    /// Runs the test case.
    fn run(&self)
        requires
            self.runnable(),
    ;
}

impl<F: Fn()> Testable for F {
    /// A function is runnable where it can be called.
    open spec fn runnable(&self) -> bool {
        self.requires(())
    }

    /// Calls the function.
    fn run(&self) {
        self()
    }
}

/// Runs the given test cases in order and, when all of them have returned,
/// ends the run with the exit code for success.
pub fn test_runner(tests: &[&dyn Testable]) -> (write: PortWrite)
    requires
        forall|i: int| 0 <= i < tests@.len() ==> (#[trigger] tests@[i]).runnable(),
    ensures
        write == exit_write(QemuExitCode::Success),
{
    let mut i: usize = 0;
    while i < tests.len()
        invariant
            i <= tests@.len(),
            forall|i: int| 0 <= i < tests@.len() ==> (#[trigger] tests@[i]).runnable(),
        decreases tests@.len() - i,
    {
        tests[i].run();
        i += 1;
    }
    exit_qemu(QemuExitCode::Success)
}

} // verus!
