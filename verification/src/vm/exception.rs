//! Minimal AArch64 EL1 synchronous exception state for the static CPU.
use vstd::prelude::*;

verus! {

#[derive(Debug, Clone, Copy, PartialEq, Eq, Structural)]
pub enum ExceptionClass {
    InstructionAbort,
    DataAbort,
    UndefinedInstruction,
}

/// The syndrome value `ESR_EL1` takes for each exception class.
pub open spec fn syndrome(class: ExceptionClass) -> u32 {
    match class {
        ExceptionClass::InstructionAbort => 0x8600_0000,
        ExceptionClass::DataAbort => 0x9600_0000,
        ExceptionClass::UndefinedInstruction => 0x0200_0000,
    }
}

#[derive(Debug, Clone, Copy, PartialEq, Eq, Structural)]
pub struct El1State {
    pub vbar_el1: u64,
    pub elr_el1: u64,
    pub esr_el1: u32,
    pub spsr_el1: u64,
}

impl El1State {
    pub fn new(vbar_el1: u64) -> (r: Self)
        ensures
            r == (El1State { vbar_el1, elr_el1: 0, esr_el1: 0, spsr_el1: 0 }),
    {
        El1State { vbar_el1, elr_el1: 0, esr_el1: 0, spsr_el1: 0 }
    }

    /// Save fault context and return the EL1 synchronous vector,
    /// `VBAR_EL1 + 0x200`. Relay never silently continues after a fault.
    pub fn enter_sync(&mut self, class: ExceptionClass, fault_pc: u64, pstate: u64) -> (r: u64)
        requires
            old(self).vbar_el1 + 0x200 <= u64::MAX,
        ensures
            r == old(self).vbar_el1 + 0x200,
            *final(self) == (El1State {
                vbar_el1: old(self).vbar_el1,
                elr_el1: fault_pc,
                esr_el1: syndrome(class),
                spsr_el1: pstate,
            }),
    {
        self.elr_el1 = fault_pc;
        self.spsr_el1 = pstate;
        self.esr_el1 = match class {
            ExceptionClass::InstructionAbort => 0x8600_0000,
            ExceptionClass::DataAbort => 0x9600_0000,
            ExceptionClass::UndefinedInstruction => 0x0200_0000,
        };
        self.vbar_el1 + 0x200
    }
}

} // verus!
