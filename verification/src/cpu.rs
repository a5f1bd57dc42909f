//! The processor state that booting establishes: the alternate stacks, the
//! loaded interrupt vector table, the interrupt controllers and the interrupt
//! flag. The operations here record each step and demand the steps that must
//! come before it; the program around the library performs the step on the
//! hardware.

use crate::interrupts::{Gate, InterruptDescriptorTable};
use vstd::prelude::*;

verus! {

/// The number of alternate stacks that the processor knows.
pub const ALTERNATE_STACKS: usize = 7;

/// One step of booting, for the program to perform on the hardware.
#[derive(Debug, Clone, Copy, PartialEq, Eq, Structural)]
pub enum BootOp {
    /// Load the global descriptor table.
    LoadGlobalDescriptorTable,
    /// Reload the code segment register with the kernel's code segment.
    SetCodeSegment,
    /// Load the task state segment, which holds the alternate stack table.
    LoadTaskState,
    /// Load the interrupt vector table.
    LoadInterruptTable,
    /// Initialize the two chained interrupt controllers at these vectors.
    InitializeControllers { offset_1: u8, offset_2: u8 },
    /// Set the interrupt flag.
    EnableInterrupts,
}

/// Whether the table binds a handler to `vector`.
pub open spec fn bound(table: Seq<Option<Gate>>, vector: int) -> bool {
    0 <= vector < table.len() && table[vector] is Some
}

/// Whether every alternate stack that the table names is installed.
pub open spec fn stacks_installed(table: Seq<Option<Gate>>, stacks: Seq<u64>) -> bool {
    forall|vector: int|
        0 <= vector < table.len() ==> match #[trigger] table[vector] {
            Some(gate) => match gate.stack_index {
                Some(index) => index < stacks.len() && stacks[index as int] != 0,
                None => true,
            },
            None => true,
        }
}

/// What the processor holds.
pub struct CpuState {
    /// The top of each alternate stack; zero where none is installed.
    pub stack_table: Seq<u64>,
    /// The loaded interrupt vector table; `None` until one is loaded.
    pub table: Option<Seq<Option<Gate>>>,
    /// The vectors of the two interrupt controllers, once initialized.
    pub controllers: Option<(u8, u8)>,
    /// Whether hardware interrupts are delivered.
    pub interrupts_enabled: bool,
}

impl CpuState {
    /// The state of the processor at reset.
    pub open spec fn reset() -> CpuState {
        CpuState {
            stack_table: Seq::new(7, |i: int| 0u64),
            table: None,
            controllers: None,
            interrupts_enabled: false,
        }
    }

    /// The stack of the double fault handler is installed.
    pub open spec fn fault_stack_installed(self) -> bool {
        self.stack_table.len() == 7 && self.stack_table[0] != 0
    }

    /// A table is loaded that binds the double fault and both hardware
    /// interrupt vectors.
    pub open spec fn serves_hardware_interrupts(self) -> bool {
        match self.table {
            Some(table) => bound(table, 8) && bound(table, 32) && bound(table, 33),
            None => false,
        }
    }

    /// The state is one that booting can reach: a loaded table is complete
    /// and names installed stacks only, and interrupts are enabled only with
    /// the double fault and hardware interrupt vectors bound and the
    /// controllers initialized.
    pub open spec fn wf(self) -> bool {
        &&& self.stack_table.len() == 7
        &&& match self.table {
            Some(table) => table.len() == 256 && stacks_installed(table, self.stack_table),
            None => true,
        }
        &&& self.interrupts_enabled ==> self.serves_hardware_interrupts() && self.controllers
            is Some
    }
}

/// The processor as the kernel knows it.
pub struct Cpu {
    stack_table: Vec<u64>,
    table: Option<InterruptDescriptorTable>,
    controllers: Option<(u8, u8)>,
    interrupts_enabled: bool,
}

impl View for Cpu {
    type V = CpuState;

    closed spec fn view(&self) -> CpuState {
        CpuState {
            stack_table: self.stack_table@,
            table: match self.table {
                Some(table) => Some(table@),
                None => None,
            },
            controllers: self.controllers,
            interrupts_enabled: self.interrupts_enabled,
        }
    }
}

impl Cpu {
    /// The processor at reset: no alternate stack, no table, interrupts off.
    pub fn new() -> (cpu: Cpu)
        ensures
            cpu@.wf(),
            cpu@ == CpuState::reset(),
    {
        let mut stack_table: Vec<u64> = Vec::new();
        let mut i: usize = 0;
        while i < ALTERNATE_STACKS
            invariant
                i <= 7,
                stack_table@.len() == i,
                forall|j: int| 0 <= j < i ==> stack_table@[j] == 0,
            decreases 7 - i,
        {
            stack_table.push(0);
            i += 1;
        }
        let cpu = Cpu { stack_table, table: None, controllers: None, interrupts_enabled: false };
        assert(cpu@.stack_table =~= CpuState::reset().stack_table);
        cpu
    }

    /// Installs `top` as the top of the alternate stack `index`.
    pub fn install(&mut self, index: u16, top: u64)
        requires
            old(self)@.wf(),
            index < 7,
            top != 0,
        ensures
            final(self)@.wf(),
            final(self)@ == (CpuState {
                stack_table: old(self)@.stack_table.update(index as int, top),
                ..old(self)@
            }),
    {
        self.stack_table.set(index as usize, top);
    }

    /// Loads `table`. Every alternate stack that it names must be installed.
    /// A table that is loaded with interrupts enabled must bind what the
    /// table before it bound for them.
    pub fn load(&mut self, table: InterruptDescriptorTable)
        requires
            old(self)@.wf(),
            table.wf(),
            stacks_installed(table@, old(self)@.stack_table),
            old(self)@.interrupts_enabled ==> bound(table@, 8) && bound(table@, 32) && bound(
                table@,
                33,
            ),
        ensures
            final(self)@.wf(),
            final(self)@ == (CpuState { table: Some(table@), ..old(self)@ }),
    {
        self.table = Some(table);
    }

    /// Records that the interrupt controllers deliver at the two vectors and
    /// that interrupts are enabled.
    pub fn enable_hardware_interrupts(&mut self, offset_1: u8, offset_2: u8)
        requires
            old(self)@.wf(),
            old(self)@.serves_hardware_interrupts(),
        ensures
            final(self)@.wf(),
            final(self)@ == (CpuState {
                controllers: Some((offset_1, offset_2)),
                interrupts_enabled: true,
                ..old(self)@
            }),
    {
        self.controllers = Some((offset_1, offset_2));
        self.interrupts_enabled = true;
    }

    /// Whether hardware interrupts are delivered.
    pub fn interrupts_enabled(&self) -> (enabled: bool)
        ensures
            enabled == self@.interrupts_enabled,
    {
        self.interrupts_enabled
    }

    /// The top of the alternate stack `index`, or `None` where none is
    /// installed there.
    pub fn stack_top(&self, index: u16) -> (top: Option<u64>)
        requires
            self@.wf(),
        ensures
            top == if index < 7 && self@.stack_table[index as int] != 0 {
                Some(self@.stack_table[index as int])
            } else {
                None
            },
    {
        if (index as usize) < ALTERNATE_STACKS && self.stack_table[index as usize] != 0 {
            Some(self.stack_table[index as usize])
        } else {
            None
        }
    }

    /// The loaded table's entry for `vector`; `None` where no table is
    /// loaded or the vector is unbound.
    pub fn gate(&self, vector: u8) -> (gate: Option<Gate>)
        requires
            self@.wf(),
        ensures
            gate == match self@.table {
                Some(table) => table[vector as int],
                None => None,
            },
    {
        match &self.table {
            Some(table) => table.entry(vector),
            None => None,
        }
    }
}

} // verus!
