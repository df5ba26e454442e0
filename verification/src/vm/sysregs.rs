//! EL1 system-register state exposed by the StaticCpu interpreter. A register
//! is selected by its compact `op0:op1:CRn:CRm:op2` number.
use crate::relay_core::{failure, only_failed, RelayError};
use crate::text::hex;
use vstd::prelude::*;

verus! {

pub const SCTLR_EL1: u16 = 0xc080;
pub const TTBR0_EL1: u16 = 0xc100;
pub const TTBR1_EL1: u16 = 0xc101;
pub const TCR_EL1: u16 = 0xc102;
pub const SPSR_EL1: u16 = 0xc200;
pub const ELR_EL1: u16 = 0xc201;
pub const SPSEL: u16 = 0xc210;
pub const CURRENT_EL: u16 = 0xc212;
pub const MAIR_EL1: u16 = 0xc510;
pub const VBAR_EL1: u16 = 0xc600;
pub const MIDR_EL1: u16 = 0xc000;
pub const ID_AA64PFR0_EL1: u16 = 0xc020;
pub const CNTFRQ_EL0: u16 = 0xdf00;
pub const CNTPCT_EL0: u16 = 0xdf01;

#[derive(Debug, Clone, Copy, PartialEq, Eq, Structural)]
pub struct SysRegs {
    pub sctlr_el1: u64,
    pub ttbr0_el1: u64,
    pub ttbr1_el1: u64,
    pub tcr_el1: u64,
    pub mair_el1: u64,
    pub vbar_el1: u64,
    pub spsr_el1: u64,
    pub elr_el1: u64,
    pub spsel: u64,
    pub counter: u64,
    pub counter_frequency: u64,
}

/// The refusal of an unknown register, numbered as `{:#06x}` renders it:
/// `0x` and at least four hexadecimal digits.
pub open spec fn unimplemented(reg: u16) -> Seq<char> {
    "StaticCpu unimplemented system register 0x"@ + Seq::new(
        (4 - hex(reg as nat).len()) as nat,
        |i: int| '0',
    ) + hex(reg as nat)
}

pub open spec fn read_only(reg: u16) -> bool {
    reg == CNTFRQ_EL0 || reg == CNTPCT_EL0 || reg == MIDR_EL1 || reg == ID_AA64PFR0_EL1 || reg
        == CURRENT_EL
}

pub open spec fn writable(reg: u16) -> bool {
    reg == SCTLR_EL1 || reg == TTBR0_EL1 || reg == TTBR1_EL1 || reg == TCR_EL1 || reg == MAIR_EL1
        || reg == VBAR_EL1 || reg == SPSR_EL1 || reg == ELR_EL1 || reg == SPSEL
}

proof fn lemma_hex_len_u16(n: nat)
    requires
        n < 0x10000,
    ensures
        1 <= hex(n).len() <= 4,
{
    reveal_with_fuel(hex, 4);
    assert(n / 16 < 0x1000);
    assert(n / 16 / 16 < 0x100);
    assert(n / 16 / 16 / 16 < 0x10);
}

fn register_message(reg: u16) -> (r: String)
    ensures
        r@ == unimplemented(reg),
{
    proof {
        lemma_hex_len_u16(reg as nat);
    }
    let mut out = String::from_str("StaticCpu unimplemented system register 0x");
    let mut digits = String::new();
    crate::text::push_hex(&mut digits, reg as u64);
    let n = digits.as_str().unicode_len();
    let mut k = n;
    while k < 4
        invariant
            n <= k <= 4,
            n == hex(reg as nat).len(),
            digits@ == hex(reg as nat),
            out@ == "StaticCpu unimplemented system register 0x"@ + Seq::new((k - n) as nat, |i: int| '0'),
        decreases 4 - k,
    {
        out.append("0");
        proof {
            reveal_strlit("0");
        }
        assert(Seq::new((k + 1 - n) as nat, |i: int| '0') =~= Seq::new((k - n) as nat, |i: int| '0')
            + "0"@);
        k = k + 1;
    }
    assert(Seq::new((k - n) as nat, |i: int| '0') =~= Seq::new((4 - hex(reg as nat).len()) as nat, |i: int| '0'));
    out.append(digits.as_str());
    out
}

impl SysRegs {
    pub closed spec fn counter_value(&self) -> u64 {
        self.counter
    }

    pub closed spec fn frequency(&self) -> u64 {
        self.counter_frequency
    }

    /// What `read` returns for `reg`.
    pub closed spec fn read_spec(&self, reg: u16) -> Result<u64, Seq<char>> {
        if reg == SCTLR_EL1 {
            Ok(self.sctlr_el1)
        } else if reg == TTBR0_EL1 {
            Ok(self.ttbr0_el1)
        } else if reg == TTBR1_EL1 {
            Ok(self.ttbr1_el1)
        } else if reg == TCR_EL1 {
            Ok(self.tcr_el1)
        } else if reg == MAIR_EL1 {
            Ok(self.mair_el1)
        } else if reg == VBAR_EL1 {
            Ok(self.vbar_el1)
        } else if reg == SPSR_EL1 {
            Ok(self.spsr_el1)
        } else if reg == ELR_EL1 {
            Ok(self.elr_el1)
        } else if reg == SPSEL {
            Ok(self.spsel)
        } else if reg == CNTFRQ_EL0 {
            Ok(self.frequency())
        } else if reg == CNTPCT_EL0 {
            Ok(self.counter_value())
        } else if reg == MIDR_EL1 {
            Ok(0x410f_d0c0)
        } else if reg == ID_AA64PFR0_EL1 {
            Ok(0x11)
        } else if reg == CURRENT_EL {
            Ok(4)
        } else {
            Err(unimplemented(reg))
        }
    }

    /// Registers after a successful write of `value` to `reg`.
    pub closed spec fn written(self, reg: u16, value: u64) -> SysRegs {
        if reg == SCTLR_EL1 {
            SysRegs { sctlr_el1: value, ..self }
        } else if reg == TTBR0_EL1 {
            SysRegs { ttbr0_el1: value, ..self }
        } else if reg == TTBR1_EL1 {
            SysRegs { ttbr1_el1: value, ..self }
        } else if reg == TCR_EL1 {
            SysRegs { tcr_el1: value, ..self }
        } else if reg == MAIR_EL1 {
            SysRegs { mair_el1: value, ..self }
        } else if reg == VBAR_EL1 {
            SysRegs { vbar_el1: value, ..self }
        } else if reg == SPSR_EL1 {
            SysRegs { spsr_el1: value, ..self }
        } else if reg == ELR_EL1 {
            SysRegs { elr_el1: value, ..self }
        } else {
            SysRegs { spsel: value, ..self }
        }
    }

    /// EL1 registers at reset, with a counter running at `counter_frequency`.
    pub fn new(counter_frequency: u64) -> (r: Result<Self, RelayError>)
        ensures
            only_failed(r),
            counter_frequency == 0 ==> failure(r) == Err::<SysRegs, Seq<char>>(
                "CNTFRQ must be non-zero"@,
            ),
            counter_frequency != 0 ==> (r matches Ok(s) && s.frequency() == counter_frequency
                && s.counter_value() == 0 && s.sctlr_el1 == 0 && s.ttbr0_el1 == 0 && s.ttbr1_el1
                == 0 && s.tcr_el1 == 0 && s.mair_el1 == 0 && s.vbar_el1 == 0 && s.spsr_el1 == 0
                && s.elr_el1 == 0 && s.spsel == 0),
    {
        if counter_frequency == 0 {
            return Err(RelayError::Failed(String::from_str("CNTFRQ must be non-zero")));
        }
        Ok(
            SysRegs {
                sctlr_el1: 0,
                ttbr0_el1: 0,
                ttbr1_el1: 0,
                tcr_el1: 0,
                mair_el1: 0,
                vbar_el1: 0,
                spsr_el1: 0,
                elr_el1: 0,
                spsel: 0,
                counter: 0,
                counter_frequency,
            },
        )
    }

    /// Advance the virtual counter, wrapping as the hardware counter does.
    pub fn tick(&mut self, ticks: u64)
        ensures
            final(self).counter_value() == (old(self).counter_value() + ticks) % 0x1_0000_0000_0000_0000,
            final(self).frequency() == old(self).frequency(),
            *final(self) == (SysRegs { counter: final(self).counter_value(), ..*old(self) }),
    {
        self.counter = self.counter.wrapping_add(ticks);
    }

    pub fn read(&self, reg: u16) -> (r: Result<u64, RelayError>)
        ensures
            only_failed(r),
            failure(r) == self.read_spec(reg),
    {
        match reg {
            SCTLR_EL1 => Ok(self.sctlr_el1),
            TTBR0_EL1 => Ok(self.ttbr0_el1),
            TTBR1_EL1 => Ok(self.ttbr1_el1),
            TCR_EL1 => Ok(self.tcr_el1),
            MAIR_EL1 => Ok(self.mair_el1),
            VBAR_EL1 => Ok(self.vbar_el1),
            SPSR_EL1 => Ok(self.spsr_el1),
            ELR_EL1 => Ok(self.elr_el1),
            SPSEL => Ok(self.spsel),
            CNTFRQ_EL0 => Ok(self.counter_frequency),
            CNTPCT_EL0 => Ok(self.counter),
            MIDR_EL1 => Ok(0x410f_d0c0),
            ID_AA64PFR0_EL1 => Ok(0x11),
            CURRENT_EL => Ok(4),
            _ => Err(RelayError::Failed(register_message(reg))),
        }
    }

    pub fn write(&mut self, reg: u16, value: u64) -> (r: Result<(), RelayError>)
        ensures
            only_failed(r),
            writable(reg) ==> r is Ok && *final(self) == old(self).written(reg, value),
            read_only(reg) ==> *final(self) == *old(self) && failure(r) == Err::<(), Seq<char>>(
                "StaticCpu attempted write to read-only system register"@,
            ),
            !writable(reg) && !read_only(reg) ==> *final(self) == *old(self) && failure(r) == Err::<
                (),
                Seq<char>,
            >(unimplemented(reg)),
    {
        match reg {
            SCTLR_EL1 => self.sctlr_el1 = value,
            TTBR0_EL1 => self.ttbr0_el1 = value,
            TTBR1_EL1 => self.ttbr1_el1 = value,
            TCR_EL1 => self.tcr_el1 = value,
            MAIR_EL1 => self.mair_el1 = value,
            VBAR_EL1 => self.vbar_el1 = value,
            SPSR_EL1 => self.spsr_el1 = value,
            ELR_EL1 => self.elr_el1 = value,
            SPSEL => self.spsel = value,
            CNTFRQ_EL0 | CNTPCT_EL0 | MIDR_EL1 | ID_AA64PFR0_EL1 | CURRENT_EL => {
                return Err(
                    RelayError::Failed(
                        String::from_str("StaticCpu attempted write to read-only system register"),
                    ),
                );
            },
            _ => {
                return Err(RelayError::Failed(register_message(reg)));
            },
        }
        Ok(())
    }
}

/// A read of a writable register gives back the last value written to it,
/// and a write leaves every other register as it was.
pub proof fn lemma_read_after_write(regs: SysRegs, reg: u16, value: u64, other: u16)
    requires
        writable(reg),
        other != reg,
    ensures
        regs.written(reg, value).read_spec(reg) == Ok::<u64, Seq<char>>(value),
        regs.written(reg, value).read_spec(other) == regs.read_spec(other),
{
}

/// The counter never runs backwards between two ticks that do not wrap it.
pub proof fn lemma_counter_monotonic(before: u64, ticks: u64)
    requires
        before + ticks < 0x1_0000_0000_0000_0000,
    ensures
        (before + ticks) % 0x1_0000_0000_0000_0000 >= before,
{
}

} // verus!
