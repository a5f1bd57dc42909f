//! The fault-isolation layer: the stack that is reserved for the double fault
//! handler and its place in the alternate stack table.
//!
//! A double fault can be the end of a stack overflow, so its handler cannot
//! run on the stack that faulted. The processor switches to the alternate
//! stack by itself, whatever state the interrupted stack is in.

use crate::cpu::{BootOp, Cpu, CpuState};
use vstd::prelude::*;

verus! {

/// The index in the alternate stack table of the double fault handler's
/// stack.
pub const DOUBLE_FAULT_IST_INDEX: u16 = 0;

/// The size in bytes of the double fault handler's stack: five pages.
pub const STACK_SIZE: usize = 4096 * 5;

/// Whether `addr` is a canonical virtual address: bits 47 to 63 are all
/// equal.
pub open spec fn canonical(addr: int) -> bool {
    0 <= addr < 0x8000_0000_0000 || 0xffff_8000_0000_0000 <= addr <= 0xffff_ffff_ffff_ffff
}

/// Whether a stack of `STACK_SIZE` bytes can start at `stack_start`: both
/// ends are canonical addresses.
pub open spec fn stack_fits(stack_start: u64) -> bool {
    canonical(stack_start as int) && canonical(stack_start + STACK_SIZE)
}

/// Whether `addr` is a canonical virtual address.
pub fn is_canonical(addr: u64) -> (yes: bool)
    ensures
        yes == canonical(addr as int),
{
    addr < 0x8000_0000_0000 || addr >= 0xffff_8000_0000_0000
}

/// Whether a stack of `STACK_SIZE` bytes can start at `stack_start`.
pub fn can_reserve_fault_stack(stack_start: u64) -> (yes: bool)
    ensures
        yes == stack_fits(stack_start),
{
    if !is_canonical(stack_start) {
        return false;
    }
    match stack_start.checked_add(STACK_SIZE as u64) {
        Some(end) => is_canonical(end),
        None => false,
    }
}

/// `x86_64::VirtAddr::new`, its `+` with a `u64` and `as_u64`: the address
/// `offset` bytes above `start`. For canonical addresses `new` keeps the
/// number as it is, and `+` adds the two numbers and makes an address of the
/// sum with `new`; `new` panics on a number that is not canonical, so both
/// `start` and the sum must be.
#[verifier::external_body]
pub(crate) fn virt_addr_add(start: u64, offset: u64) -> (end: u64)
    requires
        canonical(start as int),
        canonical(start + offset),
    ensures
        end == start + offset,
{
    (x86_64::VirtAddr::new(start) + offset).as_u64()
}

/// The top of the double fault handler's stack, which starts at
/// `stack_start`: stacks grow downwards, so the top is the region's end.
pub fn reserve_fault_stack(stack_start: u64) -> (top: u64)
    requires
        stack_fits(stack_start),
    ensures
        top == stack_start + STACK_SIZE,
        top != 0,
{
    virt_addr_add(stack_start, STACK_SIZE as u64)
}

/// Installs the fault-isolation layer: registers the top of the stack that
/// starts at `stack_start` for the double fault handler, and tells the
/// program to load the descriptor table, the code segment and the task
/// state, in this order.
pub fn init(cpu: &mut Cpu, stack_start: u64) -> (ops: Vec<BootOp>)
    requires
        old(cpu)@.wf(),
        stack_fits(stack_start),
    ensures
        final(cpu)@.wf(),
        final(cpu)@.fault_stack_installed(),
        final(cpu)@ == (CpuState {
            stack_table: old(cpu)@.stack_table.update(
                DOUBLE_FAULT_IST_INDEX as int,
                (stack_start + STACK_SIZE) as u64,
            ),
            ..old(cpu)@
        }),
        ops@ == seq![
            BootOp::LoadGlobalDescriptorTable,
            BootOp::SetCodeSegment,
            BootOp::LoadTaskState,
        ],
{
    let top: u64 = reserve_fault_stack(stack_start);
    cpu.install(DOUBLE_FAULT_IST_INDEX, top);
    let mut ops: Vec<BootOp> = Vec::new();
    ops.push(BootOp::LoadGlobalDescriptorTable);
    ops.push(BootOp::SetCodeSegment);
    ops.push(BootOp::LoadTaskState);
    ops
}

} // verus!
