use vstd::prelude::*;
use crate::layout::{BootError, BootInfo, PHYSICAL_MEMORY_OFFSET};

verus! {

/// The steps of kernel entry, in the order in which they run.
#[derive(Clone, Copy, Debug, PartialEq, Eq, Structural)]
pub enum EntryStep {
    /// Raw serial output, so that failures can be reported.
    InitSerial,
    /// Structured logging, then a log line with the boot record.
    InitLogging,
    /// The boot record's offset must be the kernel's own.
    CheckBootInfo,
    InitInterrupts,
    /// The memory subsystem, from the boot record's bounds and offset.
    InitMemory,
    InitModules,
    InitDrivers,
    PrintBanner,
    InitProcesses,
    /// The kernel's main loop; it never returns.
    RunMain,
    /// Boot stopped on a fatal configuration error.
    Halt,
}

/// Whether a boot record was built for this kernel's memory layout.
pub open spec fn boot_info_matches(info: BootInfo) -> bool {
    info.physical_memory_offset == PHYSICAL_MEMORY_OFFSET
}

/// Checks the boot record's offset against the kernel's own.
pub fn check_boot_info(info: &BootInfo) -> (r: Result<(), BootError>)
    ensures
        boot_info_matches(*info) ==> r == Ok::<(), BootError>(()),
        !boot_info_matches(*info) ==> r == Err::<(), BootError>(BootError::BootInfoMismatch),
{
    if info.physical_memory_offset == PHYSICAL_MEMORY_OFFSET {
        Ok(())
    } else {
        Err(BootError::BootInfoMismatch)
    }
}

pub open spec fn next_step_spec(step: EntryStep, info: BootInfo) -> EntryStep {
    match step {
        EntryStep::InitSerial => EntryStep::InitLogging,
        EntryStep::InitLogging => EntryStep::CheckBootInfo,
        EntryStep::CheckBootInfo => if boot_info_matches(info) {
            EntryStep::InitInterrupts
        } else {
            EntryStep::Halt
        },
        EntryStep::InitInterrupts => EntryStep::InitMemory,
        EntryStep::InitMemory => EntryStep::InitModules,
        EntryStep::InitModules => EntryStep::InitDrivers,
        EntryStep::InitDrivers => EntryStep::PrintBanner,
        EntryStep::PrintBanner => EntryStep::InitProcesses,
        EntryStep::InitProcesses => EntryStep::RunMain,
        EntryStep::RunMain => EntryStep::RunMain,
        EntryStep::Halt => EntryStep::Halt,
    }
}

/// The step that follows `step` once it has completed; the check step goes
/// on only with a matching boot record and halts otherwise.
pub fn next_step(step: EntryStep, info: &BootInfo) -> (r: EntryStep)
    ensures
        r == next_step_spec(step, *info),
{
    match step {
        EntryStep::InitSerial => EntryStep::InitLogging,
        EntryStep::InitLogging => EntryStep::CheckBootInfo,
        EntryStep::CheckBootInfo => match check_boot_info(info) {
            Ok(()) => EntryStep::InitInterrupts,
            Err(_) => EntryStep::Halt,
        },
        EntryStep::InitInterrupts => EntryStep::InitMemory,
        EntryStep::InitMemory => EntryStep::InitModules,
        EntryStep::InitModules => EntryStep::InitDrivers,
        EntryStep::InitDrivers => EntryStep::PrintBanner,
        EntryStep::PrintBanner => EntryStep::InitProcesses,
        EntryStep::InitProcesses => EntryStep::RunMain,
        EntryStep::RunMain => EntryStep::RunMain,
        EntryStep::Halt => EntryStep::Halt,
    }
}

/// The step that runs after `n` steps have completed from entry.
pub open spec fn step_after(info: BootInfo, n: nat) -> EntryStep
    decreases n,
{
    if n == 0 {
        EntryStep::InitSerial
    } else {
        next_step_spec(step_after(info, (n - 1) as nat), info)
    }
}

/// The entry order with a matching boot record.
pub open spec fn entry_order() -> Seq<EntryStep> {
    seq![
        EntryStep::InitSerial,
        EntryStep::InitLogging,
        EntryStep::CheckBootInfo,
        EntryStep::InitInterrupts,
        EntryStep::InitMemory,
        EntryStep::InitModules,
        EntryStep::InitDrivers,
        EntryStep::PrintBanner,
        EntryStep::InitProcesses,
        EntryStep::RunMain,
    ]
}

/// With a matching boot record, entry runs every step once, in the fixed
/// order, and then stays in the main loop.
pub proof fn lemma_entry_order(info: BootInfo, n: nat)
    requires
        boot_info_matches(info),
    ensures
        n < 10 ==> step_after(info, n) == entry_order()[n as int],
        n >= 10 ==> step_after(info, n) == EntryStep::RunMain,
    decreases n,
{
    if n > 0 {
        lemma_entry_order(info, (n - 1) as nat);
    }
}

/// With a boot record whose offset is not the kernel's own, entry halts at
/// the check step and never reaches interrupt or memory initialization.
pub proof fn lemma_mismatch_halts(info: BootInfo, n: nat)
    requires
        !boot_info_matches(info),
    ensures
        n < 3 ==> step_after(info, n) == entry_order()[n as int],
        n >= 3 ==> step_after(info, n) == EntryStep::Halt,
        step_after(info, n) != EntryStep::InitMemory,
        step_after(info, n) != EntryStep::InitInterrupts,
    decreases n,
{
    if n > 0 {
        lemma_mismatch_halts(info, (n - 1) as nat);
    }
}

} // verus!
