//! The interrupt vector table and the decisions of the interrupt handlers.
//!
//! The table binds a handler to each vector that the kernel serves. The
//! handlers here take what the hardware delivered as plain values, change the
//! shared queue and ready set, and say what the program must tell the
//! hardware afterwards.

use crate::cpu::{BootOp, Cpu, CpuState};
use crate::gdt::DOUBLE_FAULT_IST_INDEX;
use crate::task::queue::EventQueue;
use crate::task::ReadySet;
use vstd::prelude::*;

verus! {

/// The vector at which the first interrupt controller delivers its first
/// line: the first vector after the 32 that are reserved for CPU exceptions.
pub const PIC_1_OFFSET: u8 = 0x20;

/// The vector at which the second, chained interrupt controller delivers its
/// first line.
pub const PIC_2_OFFSET: u8 = PIC_1_OFFSET + 8;

/// The number of vectors of the table.
pub const VECTORS: usize = 256;

/// The vector of the breakpoint exception.
pub const BREAKPOINT_VECTOR: u8 = 3;

/// The vector of the double fault exception.
pub const DOUBLE_FAULT_VECTOR: u8 = 8;

/// The vector of the page fault exception.
pub const PAGE_FAULT_VECTOR: u8 = 14;

/// The port from which the keyboard's scancode is read.
pub const KEYBOARD_DATA_PORT: u16 = 0x60;

/// The hardware interrupt lines that the kernel serves.
#[derive(Debug, Clone, Copy, PartialEq, Eq, Structural)]
pub enum InterruptIndex {
    Timer,
    Keyboard,
}

impl InterruptIndex {
    /// The vector of the line: the timer is line 0 of the first controller,
    /// the keyboard line 1.
    pub open spec fn vector(self) -> u8 {
        match self {
            InterruptIndex::Timer => 32,
            InterruptIndex::Keyboard => 33,
        }
    }

    /// The vector of the line as the controllers take it.
    pub fn as_u8(self) -> (vector: u8)
        ensures
            vector == self.vector(),
            PIC_1_OFFSET <= vector < PIC_1_OFFSET + 8,
    {
        match self {
            InterruptIndex::Timer => PIC_1_OFFSET,
            InterruptIndex::Keyboard => PIC_1_OFFSET + 1,
        }
    }

    /// The vector of the line as an index into the table.
    pub fn as_usize(self) -> (vector: usize)
        ensures
            vector == self.vector(),
    {
        self.as_u8() as usize
    }
}

/// What happens once a handler has reported: the interrupted code goes on,
/// or the processor halts for good.
#[derive(Debug, Clone, Copy, PartialEq, Eq, Structural)]
pub enum Disposition {
    Resume,
    Halt,
}

/// The handlers that the kernel binds.
#[derive(Debug, Clone, Copy, PartialEq, Eq, Structural)]
pub enum Handler {
    Breakpoint,
    PageFault,
    DoubleFault,
    Timer,
    Keyboard,
}

impl Handler {
    /// The vector that the handler serves.
    pub open spec fn vector(self) -> u8 {
        match self {
            Handler::Breakpoint => 3,
            Handler::PageFault => 14,
            Handler::DoubleFault => 8,
            Handler::Timer => 32,
            Handler::Keyboard => 33,
        }
    }

    /// How the handler ends: a breakpoint and the hardware interrupts return
    /// to the interrupted code; a page fault and a double fault never do.
    pub open spec fn ends_in(self) -> Disposition {
        match self {
            Handler::PageFault | Handler::DoubleFault => Disposition::Halt,
            _ => Disposition::Resume,
        }
    }

    /// The vector that the handler serves.
    pub fn index(self) -> (vector: u8)
        ensures
            vector == self.vector(),
    {
        match self {
            Handler::Breakpoint => BREAKPOINT_VECTOR,
            Handler::PageFault => PAGE_FAULT_VECTOR,
            Handler::DoubleFault => DOUBLE_FAULT_VECTOR,
            Handler::Timer => InterruptIndex::Timer.as_u8(),
            Handler::Keyboard => InterruptIndex::Keyboard.as_u8(),
        }
    }

    /// How the handler ends.
    pub fn disposition(self) -> (end: Disposition)
        ensures
            end == self.ends_in(),
    {
        match self {
            Handler::PageFault => Disposition::Halt,
            Handler::DoubleFault => Disposition::Halt,
            Handler::Breakpoint => Disposition::Resume,
            Handler::Timer => Disposition::Resume,
            Handler::Keyboard => Disposition::Resume,
        }
    }
}

/// A bound entry of the table: the handler, and the alternate stack that the
/// processor switches to before it runs the handler, if any.
#[derive(Debug, Clone, Copy, PartialEq, Eq, Structural)]
pub struct Gate {
    pub handler: Handler,
    pub stack_index: Option<u16>,
}

/// The entry that the kernel makes for `handler`: the double fault handler runs
/// on its own stack, every other handler on the stack that was interrupted.
pub open spec fn gate_of(handler: Handler) -> Gate {
    Gate {
        handler,
        stack_index: if handler == Handler::DoubleFault {
            Some(DOUBLE_FAULT_IST_INDEX)
        } else {
            None
        },
    }
}

/// The entry of the kernel's table for `vector`.
pub open spec fn kernel_entry(vector: int) -> Option<Gate> {
    if vector == 3 {
        Some(gate_of(Handler::Breakpoint))
    } else if vector == 8 {
        Some(gate_of(Handler::DoubleFault))
    } else if vector == 14 {
        Some(gate_of(Handler::PageFault))
    } else if vector == 32 {
        Some(gate_of(Handler::Timer))
    } else if vector == 33 {
        Some(gate_of(Handler::Keyboard))
    } else {
        None
    }
}

/// The kernel's table: 256 entries, of which five are bound.
pub open spec fn kernel_table() -> Seq<Option<Gate>> {
    Seq::new(256, |vector: int| kernel_entry(vector))
}

/// The table that maps each vector to its handler, or to none.
pub struct InterruptDescriptorTable {
    entries: Vec<Option<Gate>>,
}

impl View for InterruptDescriptorTable {
    type V = Seq<Option<Gate>>;

    closed spec fn view(&self) -> Seq<Option<Gate>> {
        self.entries@
    }
}

impl InterruptDescriptorTable {
    /// The table has one entry for each of the 256 vectors.
    pub open spec fn wf(&self) -> bool {
        self@.len() == 256
    }

    /// A table without any handler.
    pub fn new() -> (table: InterruptDescriptorTable)
        ensures
            table.wf(),
            table@ == Seq::new(256, |vector: int| None::<Gate>),
    {
        let mut entries: Vec<Option<Gate>> = Vec::new();
        let mut i: usize = 0;
        while i < VECTORS
            invariant
                i <= 256,
                entries@.len() == i,
                forall|j: int| 0 <= j < i ==> entries@[j] is None,
            decreases 256 - i,
        {
            entries.push(None);
            i += 1;
        }
        let table = InterruptDescriptorTable { entries };
        assert(table@ =~= Seq::new(256, |vector: int| None::<Gate>));
        table
    }

    /// Binds `handler` to its vector, on the interrupted stack.
    pub fn set_handler_fn(&mut self, handler: Handler)
        requires
            old(self).wf(),
        ensures
            final(self).wf(),
            final(self)@ == old(self)@.update(
                handler.vector() as int,
                Some(Gate { handler, stack_index: None }),
            ),
    {
        let vector: usize = handler.index() as usize;
        self.entries.set(vector, Some(Gate { handler, stack_index: None }));
    }

    /// Makes the handler that is bound to `vector` run on the alternate stack
    /// `index`. An unbound vector is left unbound.
    pub fn set_stack_index(&mut self, vector: u8, index: u16)
        requires
            old(self).wf(),
            index < 7,
        ensures
            final(self).wf(),
            final(self)@ == match old(self)@[vector as int] {
                Some(gate) => old(self)@.update(
                    vector as int,
                    Some(Gate { handler: gate.handler, stack_index: Some(index) }),
                ),
                None => old(self)@,
            },
    {
        let entry: Option<Gate> = self.entries[vector as usize];
        match entry {
            Some(gate) => {
                self.entries.set(
                    vector as usize,
                    Some(Gate { handler: gate.handler, stack_index: Some(index) }),
                );
            },
            None => {},
        }
    }

    /// The entry for `vector`.
    pub fn entry(&self, vector: u8) -> (entry: Option<Gate>)
        requires
            self.wf(),
        ensures
            entry == self@[vector as int],
    {
        self.entries[vector as usize]
    }
}

/// Builds the kernel's table: the breakpoint and page fault handlers, the
/// double fault handler on its own stack, and the handlers of the timer and
/// the keyboard on the first two vectors after the CPU exceptions.
pub fn build_table() -> (table: InterruptDescriptorTable)
    ensures
        table.wf(),
        table@ == kernel_table(),
{
    let mut idt = InterruptDescriptorTable::new();
    idt.set_handler_fn(Handler::Breakpoint);
    idt.set_handler_fn(Handler::PageFault);
    idt.set_handler_fn(Handler::DoubleFault);
    idt.set_stack_index(DOUBLE_FAULT_VECTOR, DOUBLE_FAULT_IST_INDEX);
    idt.set_handler_fn(Handler::Timer);
    idt.set_handler_fn(Handler::Keyboard);
    assert(idt@ =~= kernel_table());
    idt
}

/// Builds the kernel's table and loads it into the processor. The stack of
/// the double fault handler must be installed before.
pub fn init_idt(cpu: &mut Cpu) -> (op: BootOp)
    requires
        old(cpu)@.wf(),
        old(cpu)@.fault_stack_installed(),
    ensures
        final(cpu)@.wf(),
        final(cpu)@ == (CpuState { table: Some(kernel_table()), ..old(cpu)@ }),
        op == BootOp::LoadInterruptTable,
{
    cpu.load(build_table());
    BootOp::LoadInterruptTable
}

/// Points the two interrupt controllers at the vectors after the CPU
/// exceptions and enables interrupts. The kernel's table must be loaded
/// before: from here on the timer and the keyboard interrupt.
pub fn init_hw_interrupts(cpu: &mut Cpu) -> (ops: Vec<BootOp>)
    requires
        old(cpu)@.wf(),
        old(cpu)@.serves_hardware_interrupts(),
    ensures
        final(cpu)@.wf(),
        final(cpu)@ == (CpuState {
            controllers: Some((PIC_1_OFFSET, PIC_2_OFFSET)),
            interrupts_enabled: true,
            ..old(cpu)@
        }),
        ops@ == seq![
            BootOp::InitializeControllers { offset_1: PIC_1_OFFSET, offset_2: PIC_2_OFFSET },
            BootOp::EnableInterrupts,
        ],
{
    cpu.enable_hardware_interrupts(PIC_1_OFFSET, PIC_2_OFFSET);
    let mut ops: Vec<BootOp> = Vec::new();
    ops.push(BootOp::InitializeControllers { offset_1: PIC_1_OFFSET, offset_2: PIC_2_OFFSET });
    ops.push(BootOp::EnableInterrupts);
    ops
}

/// What the keyboard handler did with a scancode.
#[derive(Debug, Clone, Copy, PartialEq, Eq, Structural)]
pub struct KeyboardService {
    /// The line whose end of interrupt the controllers must be told.
    pub acknowledge: InterruptIndex,
    /// Whether the scancode was queued; a full queue drops it.
    pub stored: bool,
}

/// Serves a timer interrupt: there is nothing to do but to acknowledge it.
pub fn timer_interrupt_handler() -> (acknowledge: InterruptIndex)
    ensures
        acknowledge == InterruptIndex::Timer,
{
    InterruptIndex::Timer
}

/// Serves a keyboard interrupt: queues the scancode that was read from the
/// keyboard, which wakes the task that waits for it, and acknowledges the
/// interrupt whether or not the scancode was queued.
pub fn keyboard_interrupt_handler(
    queue: &mut EventQueue,
    ready: &mut ReadySet,
    scancode: u8,
) -> (service: KeyboardService)
    requires
        old(queue).wf(),
        old(ready).wf(),
    ensures
        final(queue).wf(),
        final(ready).wf(),
        service.acknowledge == InterruptIndex::Keyboard,
        service.stored == old(queue)@.accepts(),
        final(queue)@ == old(queue)@.push(scancode),
        final(ready)@ == old(queue)@.ready_after_push(old(ready)@),
{
    let stored: bool = crate::task::keyboard::add_scancode(queue, ready, scancode);
    KeyboardService { acknowledge: InterruptIndex::Keyboard, stored }
}

} // verus!
