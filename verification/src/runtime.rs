//! Static-handler execution foundation: a validated register IR and its
//! interpreter. Translation only allocates ordinary data; guest bytes never
//! become native instructions.
use vstd::prelude::*;

use crate::integer::{
    div_s64, sdiv64,
    int32_execute, int32_value, int64_execute, int64_value, unary_execute, unary_value, Int32,
    Int64, Unary64,
};
use crate::optimize::{lemma_loop_runs, recognize_spec, AffineLoop};

verus! {

/// Which optional speedups a compiled program may use.
#[derive(Clone, Copy, Debug, PartialEq, Eq)]
pub enum Optimization {
    Plain,
    Fusion,
    Semantic,
}

/// One register-IR operation. Registers are 16-bit indices, jump targets are
/// operation indices.
#[allow(inconsistent_fields)]
#[derive(Clone, Copy, Debug, PartialEq, Eq)]
pub enum Op {
    Const { dst: u16, value: u64 },
    Copy { dst: u16, src: u16 },
    Add { dst: u16, lhs: u16, rhs: u16 },
    Mul { dst: u16, lhs: u16, rhs: u16 },
    DivSigned { dst: u16, lhs: u16, rhs: u16 },
    Int64 { kind: Int64, dst: u16, lhs: u16, rhs: u16 },
    Int32 { kind: Int32, dst: u16, lhs: u16, rhs: u16 },
    Unary64 { kind: Unary64, dst: u16, src: u16 },
    Eqz { dst: u16, src: u16 },
    Select { dst: u16, condition: u16, if_true: u16, if_false: u16 },
    Load64 { dst: u16, address: u16, offset: u64 },
    Store64 { src: u16, address: u16, offset: u64 },
    Jump { target: usize },
    JumpIf { condition: u16, target: usize },
    Return { src: u16 },
    Trap,
}

/// Compile-time rejections and run-time traps.
#[derive(Clone, Debug, PartialEq, Eq)]
pub enum Error {
    InvalidProgram(&'static str),
    InvalidRegister,
    InvalidTarget,
    InvalidArguments,
    OutOfFuel,
    MemoryOutOfBounds,
    DivisionByZero,
    IntegerOverflow,
    Unreachable,
}

/// Result of a completed run.
#[derive(Clone, Copy, Debug, PartialEq, Eq)]
pub struct Outcome {
    pub value: u64,
    pub remaining_fuel: u64,
    pub executed_ops: u64,
}

pub const MAX_OPS: usize = 1_000_000;

pub const MAX_REGISTERS: usize = 65536;

// ---------------------------------------------------------------------------
// Validation
// ---------------------------------------------------------------------------
pub open spec fn reg_ok(r: u16, n: nat) -> bool {
    (r as nat) < n
}

/// Every register an operation names is below the register count.
pub open spec fn registers_ok(op: Op, n: nat) -> bool {
    match op {
        Op::Const { dst, .. } => reg_ok(dst, n),
        Op::Copy { dst, src } => reg_ok(dst, n) && reg_ok(src, n),
        Op::Eqz { dst, src } => reg_ok(dst, n) && reg_ok(src, n),
        Op::Unary64 { dst, src, .. } => reg_ok(dst, n) && reg_ok(src, n),
        Op::Add { dst, lhs, rhs } => reg_ok(dst, n) && reg_ok(lhs, n) && reg_ok(rhs, n),
        Op::Mul { dst, lhs, rhs } => reg_ok(dst, n) && reg_ok(lhs, n) && reg_ok(rhs, n),
        Op::DivSigned { dst, lhs, rhs } => reg_ok(dst, n) && reg_ok(lhs, n) && reg_ok(rhs, n),
        Op::Int64 { dst, lhs, rhs, .. } => reg_ok(dst, n) && reg_ok(lhs, n) && reg_ok(rhs, n),
        Op::Int32 { dst, lhs, rhs, .. } => reg_ok(dst, n) && reg_ok(lhs, n) && reg_ok(rhs, n),
        Op::Select { dst, condition, if_true, if_false } => reg_ok(dst, n) && reg_ok(condition, n)
            && reg_ok(if_true, n) && reg_ok(if_false, n),
        Op::Load64 { dst, address, .. } => reg_ok(dst, n) && reg_ok(address, n),
        Op::Store64 { src, address, .. } => reg_ok(src, n) && reg_ok(address, n),
        Op::JumpIf { condition, .. } => reg_ok(condition, n),
        Op::Return { src } => reg_ok(src, n),
        Op::Jump { .. } => true,
        Op::Trap => true,
    }
}

/// The jump target an operation names, if any.
pub open spec fn jump_target(op: Op) -> Option<usize> {
    match op {
        Op::Jump { target } => Some(target),
        Op::JumpIf { target, .. } => Some(target),
        _ => None,
    }
}

/// Operations after which control never falls through to the next index.
pub open spec fn ends_flow(op: Op) -> bool {
    op is Return || op is Jump || op is Trap
}

/// Which check an operation fails first: 0 none, 1 a register, 2 a jump
/// target, 3 falls off the end of the program.
pub open spec fn op_fault(ops: Seq<Op>, n: nat, pc: int) -> int {
    if !registers_ok(ops[pc], n) {
        1
    } else if jump_target(ops[pc]) matches Some(t) && t >= ops.len() {
        2
    } else if pc + 1 == ops.len() && !ends_flow(ops[pc]) {
        3
    } else {
        0
    }
}

/// Index of the first faulty operation at or after `pc`, or the length.
pub open spec fn first_fault_from(ops: Seq<Op>, n: nat, pc: int) -> int
    decreases ops.len() - pc,
{
    if pc >= ops.len() || pc < 0 {
        ops.len() as int
    } else if op_fault(ops, n, pc) != 0 {
        pc
    } else {
        first_fault_from(ops, n, pc + 1)
    }
}

pub open spec fn limits_ok(len: nat, n: nat) -> bool {
    1 <= len <= MAX_OPS && 1 <= n <= MAX_REGISTERS
}

/// A program the interpreter accepts: within limits and with no faulty operation.
pub open spec fn program_wf(ops: Seq<Op>, n: nat) -> bool {
    &&& limits_ok(ops.len(), n)
    &&& forall|pc: int| 0 <= pc < ops.len() ==> op_fault(ops, n, pc) == 0
}

/// `t` is an entry point: the start, or the target of some jump.
pub open spec fn is_entry(ops: Seq<Op>, t: int) -> bool {
    t == 0 || exists|i: int| 0 <= i < ops.len() && jump_target(ops[i]) == Some(t as usize)
}

/// An Add followed by a Mul, where nothing branches into the Mul.
pub open spec fn fusable(ops: Seq<Op>, pc: int) -> bool {
    &&& 0 <= pc
    &&& pc + 1 < ops.len()
    &&& !is_entry(ops, pc + 1)
    &&& ops[pc] is Add
    &&& ops[pc + 1] is Mul
}

/// Pairs fused by a greedy left-to-right scan starting at `pc`.
pub open spec fn fused_from(ops: Seq<Op>, pc: int) -> nat
    decreases ops.len() - pc,
{
    if pc < 0 || pc + 1 >= ops.len() {
        0
    } else if fusable(ops, pc) {
        1 + fused_from(ops, pc + 2)
    } else {
        fused_from(ops, pc + 1)
    }
}

// ---------------------------------------------------------------------------
// Semantics
// ---------------------------------------------------------------------------
pub open spec fn byte_of(v: u64, k: int) -> u8 {
    ((v >> ((8 * k) as u64)) & 0xff) as u8
}

/// Little-endian u64 at `start`.
pub open spec fn load_le(mem: Seq<u8>, start: int) -> u64 {
    (mem[start] as u64) | ((mem[start + 1] as u64) << 8u64) | ((mem[start + 2] as u64) << 16u64)
        | ((mem[start + 3] as u64) << 24u64) | ((mem[start + 4] as u64) << 32u64) | ((mem[start
        + 5] as u64) << 40u64) | ((mem[start + 6] as u64) << 48u64) | ((mem[start + 7] as u64)
        << 56u64)
}

/// `mem` with the little-endian bytes of `v` at `start..start + 8`.
pub open spec fn store_le(mem: Seq<u8>, start: int, v: u64) -> Seq<u8> {
    Seq::new(
        mem.len(),
        |i: int|
            if start <= i < start + 8 {
                byte_of(v, i - start)
            } else {
                mem[i]
            },
    )
}

/// The eight bytes at `address + offset` lie inside memory.
pub open spec fn in_memory(address: u64, offset: u64, len: nat) -> bool {
    address + offset + 8 <= len
}

/// What executing one operation does.
pub enum Effect {
    Next { pc: int, regs: Seq<u64>, mem: Seq<u8> },
    Returned { value: u64 },
    Trapped { error: Error },
}

pub open spec fn next_with(pc: int, regs: Seq<u64>, mem: Seq<u8>, dst: u16, v: u64) -> Effect {
    Effect::Next { pc: pc + 1, regs: regs.update(dst as int, v), mem }
}

pub open spec fn value_or_trap(
    pc: int,
    regs: Seq<u64>,
    mem: Seq<u8>,
    dst: u16,
    r: Result<u64, Error>,
) -> Effect {
    match r {
        Ok(v) => next_with(pc, regs, mem, dst, v),
        Err(e) => Effect::Trapped { error: e },
    }
}

/// The i64.div_s result, or its trap.
pub open spec fn div_signed_value(a: u64, b: u64) -> Result<u64, Error> {
    if b == 0 {
        Err(Error::DivisionByZero)
    } else if a == 0x8000_0000_0000_0000 && b == 0xffff_ffff_ffff_ffff {
        Err(Error::IntegerOverflow)
    } else {
        Ok(sdiv64(a, b))
    }
}

/// The effect of the operation at `pc` on registers and memory.
pub open spec fn op_effect(op: Op, pc: int, regs: Seq<u64>, mem: Seq<u8>) -> Effect {
    match op {
        Op::Const { dst, value } => next_with(pc, regs, mem, dst, value),
        Op::Copy { dst, src } => next_with(pc, regs, mem, dst, regs[src as int]),
        Op::Add { dst, lhs, rhs } => next_with(
            pc,
            regs,
            mem,
            dst,
            regs[lhs as int].wrapping_add(regs[rhs as int]),
        ),
        Op::Mul { dst, lhs, rhs } => next_with(
            pc,
            regs,
            mem,
            dst,
            regs[lhs as int].wrapping_mul(regs[rhs as int]),
        ),
        Op::DivSigned { dst, lhs, rhs } => value_or_trap(
            pc,
            regs,
            mem,
            dst,
            div_signed_value(regs[lhs as int], regs[rhs as int]),
        ),
        Op::Int64 { kind, dst, lhs, rhs } => value_or_trap(
            pc,
            regs,
            mem,
            dst,
            int64_value(kind, regs[lhs as int], regs[rhs as int]),
        ),
        Op::Int32 { kind, dst, lhs, rhs } => value_or_trap(
            pc,
            regs,
            mem,
            dst,
            int32_value(kind, regs[lhs as int], regs[rhs as int]),
        ),
        Op::Unary64 { kind, dst, src } => next_with(
            pc,
            regs,
            mem,
            dst,
            unary_value(kind, regs[src as int]),
        ),
        Op::Eqz { dst, src } => next_with(
            pc,
            regs,
            mem,
            dst,
            if regs[src as int] == 0 {
                1
            } else {
                0
            },
        ),
        Op::Select { dst, condition, if_true, if_false } => next_with(
            pc,
            regs,
            mem,
            dst,
            if regs[condition as int] != 0 {
                regs[if_true as int]
            } else {
                regs[if_false as int]
            },
        ),
        Op::Load64 { dst, address, offset } => if in_memory(regs[address as int], offset, mem.len()) {
            next_with(
                pc,
                regs,
                mem,
                dst,
                load_le(mem, regs[address as int] + offset),
            )
        } else {
            Effect::Trapped { error: Error::MemoryOutOfBounds }
        },
        Op::Store64 { src, address, offset } => if in_memory(
            regs[address as int],
            offset,
            mem.len(),
        ) {
            Effect::Next {
                pc: pc + 1,
                regs,
                mem: store_le(mem, regs[address as int] + offset, regs[src as int]),
            }
        } else {
            Effect::Trapped { error: Error::MemoryOutOfBounds }
        },
        Op::Jump { target } => Effect::Next { pc: target as int, regs, mem },
        Op::JumpIf { condition, target } => Effect::Next {
            pc: if regs[condition as int] != 0 {
                target as int
            } else {
                pc + 1
            },
            regs,
            mem,
        },
        Op::Return { src } => Effect::Returned { value: regs[src as int] },
        Op::Trap => Effect::Trapped { error: Error::Unreachable },
    }
}

/// The reference interpreter. Every operation costs one unit of fuel, charged
/// before it has any effect. The second component is the final memory, which
/// keeps the effects of stores made before a trap.
pub open spec fn run_from(
    ops: Seq<Op>,
    pc: int,
    regs: Seq<u64>,
    mem: Seq<u8>,
    fuel: nat,
    executed: nat,
) -> (Result<Outcome, Error>, Seq<u8>)
    decreases fuel,
{
    if fuel == 0 {
        (Err(Error::OutOfFuel), mem)
    } else if pc < 0 || pc >= ops.len() {
        (Err(Error::InvalidTarget), mem)
    } else {
        match op_effect(ops[pc], pc, regs, mem) {
            Effect::Next { pc: next, regs: r, mem: m } => run_from(
                ops,
                next,
                r,
                m,
                (fuel - 1) as nat,
                executed + 1,
            ),
            Effect::Returned { value } => (
                Ok(
                    Outcome {
                        value,
                        remaining_fuel: (fuel - 1) as u64,
                        executed_ops: (executed + 1) as u64,
                    },
                ),
                mem,
            ),
            Effect::Trapped { error } => (Err(error), mem),
        }
    }
}

/// Registers at entry: zero, with `args` in the lowest indices.
pub open spec fn initial_registers(args: Seq<u64>, n: nat) -> Seq<u64> {
    Seq::new(
        n,
        |i: int|
            if i < args.len() {
                args[i]
            } else {
                0
            },
    )
}

/// What running a program compiled from `ops` with `n` registers returns and
/// leaves in memory.
pub open spec fn run_result(ops: Seq<Op>, n: nat, args: Seq<u64>, mem: Seq<u8>, fuel: u64) -> (
    Result<Outcome, Error>,
    Seq<u8>,
) {
    if args.len() > n {
        (Err(Error::InvalidArguments), mem)
    } else {
        run_from(ops, 0, initial_registers(args, n), mem, fuel as nat, 0)
    }
}

// ---------------------------------------------------------------------------
// Program
// ---------------------------------------------------------------------------
enum Control {
    Next(usize),
    Return(u64),
}

/// Validated immutable instruction data.
pub struct Program {
    ops: Vec<Op>,
    registers: usize,
    fused: Vec<bool>,
    fused_pairs: usize,
    accelerator: Option<AffineLoop>,
}

impl Program {
    #[verifier::type_invariant]
    spec fn inv(&self) -> bool {
        &&& program_wf(self.ops@, self.registers as nat)
        &&& self.fused@.len() == self.ops@.len()
        &&& forall|i: int|
            0 <= i < self.fused@.len() && #[trigger] self.fused@[i] ==> i + 1 < self.ops@.len()
                && self.ops@[i] is Add && self.ops@[i + 1] is Mul
        &&& self.accelerator matches Some(a) ==> recognize_spec(self.ops@) == Some(a)
    }

    /// The validated operations.
    pub closed spec fn ops_view(&self) -> Seq<Op> {
        self.ops@
    }

    /// The register count.
    pub closed spec fn registers_view(&self) -> nat {
        self.registers as nat
    }

    pub closed spec fn fused_pairs_view(&self) -> nat {
        self.fused_pairs as nat
    }

    pub closed spec fn accelerated_view(&self) -> bool {
        self.accelerator is Some
    }

    /// Validates `ops` and, when `fuse` holds, fuses each Add immediately
    /// followed by a Mul that no jump enters.
    pub fn compile(ops: &[Op], registers: usize, fuse: bool) -> (r: Result<Self, Error>)
        ensures
            !limits_ok(ops@.len(), registers as nat) ==> r == Err::<Self, Error>(Error::InvalidProgram("program or register limit")),
            limits_ok(ops@.len(), registers as nat) ==> ({
                let f = first_fault_from(ops@, registers as nat, 0);
                &&& f < ops@.len() && op_fault(ops@, registers as nat, f) == 1 ==> r
                    == Err::<Self, Error>(Error::InvalidRegister)
                &&& f < ops@.len() && op_fault(ops@, registers as nat, f) == 2 ==> r
                    == Err::<Self, Error>(Error::InvalidTarget)
                &&& f < ops@.len() && op_fault(ops@, registers as nat, f) == 3 ==> r
                    == Err::<Self, Error>(Error::InvalidProgram("fallthrough beyond program"))
                &&& f == ops@.len() ==> r is Ok
            }),
            r matches Ok(p) ==> {
                &&& p.ops_view() == ops@
                &&& p.registers_view() == registers
                &&& program_wf(ops@, registers as nat)
                &&& p.fused_pairs_view() == if fuse {
                    fused_from(ops@, 0)
                } else {
                    0
                }
                &&& !p.accelerated_view()
            },
    {
        if ops.len() == 0 || ops.len() > MAX_OPS || registers == 0 || registers > MAX_REGISTERS {
            return Err(Error::InvalidProgram("program or register limit"));
        }
        let len = ops.len();
        let mut entry: Vec<bool> = Vec::new();
        let mut k: usize = 0;
        while k < len
            invariant
                k <= len,
                len == ops@.len(),
                entry@.len() == k,
                forall|j: int| 0 <= j < k ==> entry@[j] == (j == 0),
            decreases len - k,
        {
            entry.push(k == 0);
            k = k + 1;
        }
        let mut pc: usize = 0;
        while pc < len
            invariant
                pc <= len,
                len == ops@.len(),
                limits_ok(ops@.len(), registers as nat),
                entry@.len() == len,
                forall|j: int| 0 <= j < pc ==> op_fault(ops@, registers as nat, j) == 0,
                first_fault_from(ops@, registers as nat, 0) == first_fault_from(
                    ops@,
                    registers as nat,
                    pc as int,
                ),
                forall|t: int|
                    0 <= t < len ==> (#[trigger] entry@[t] <==> (t == 0 || exists|i: int|
                        0 <= i < pc && jump_target(ops@[i]) == Some(t as usize))),
            decreases len - pc,
        {
            let op = ops[pc];
            let ok = check_registers(op, registers);
            if !ok {
                return Err(Error::InvalidRegister);
            }
            match op {
                Op::Jump { target } => {
                    if target >= len {
                        return Err(Error::InvalidTarget);
                    }
                    entry.set(target, true);
                },
                Op::JumpIf { target, .. } => {
                    if target >= len {
                        return Err(Error::InvalidTarget);
                    }
                    entry.set(target, true);
                },
                _ => {},
            }
            if pc + 1 == len {
                match op {
                    Op::Return { .. } | Op::Jump { .. } | Op::Trap => {},
                    _ => {
                        return Err(Error::InvalidProgram("fallthrough beyond program"));
                    },
                }
            }
            assert(op_fault(ops@, registers as nat, pc as int) == 0);
            pc = pc + 1;
            assert forall|t: int| 0 <= t < len implies (#[trigger] entry@[t] <==> (t == 0
                || exists|i: int| 0 <= i < pc && jump_target(ops@[i]) == Some(t as usize))) by {
                if entry@[t] && t != 0 && jump_target(ops@[pc - 1]) != Some(t as usize) {
                    let i = choose|i: int|
                        0 <= i < pc - 1 && jump_target(ops@[i]) == Some(t as usize);
                    assert(0 <= i < pc && jump_target(ops@[i]) == Some(t as usize));
                }
                if jump_target(ops@[pc - 1]) == Some(t as usize) {
                    assert(jump_target(ops@[pc as int - 1]) == Some(t as usize));
                }
            }
        }
        assert(program_wf(ops@, registers as nat));
        let mut fused: Vec<bool> = Vec::new();
        let mut fused_pairs: usize = 0;
        let mut pc: usize = 0;
        while pc < len
            invariant
                pc <= len + 1,
                len == ops@.len(),
                1 <= len <= MAX_OPS,
                fused@.len() == if pc <= len {
                    pc as int
                } else {
                    len as int
                },
                forall|i: int|
                    0 <= i < fused@.len() && #[trigger] fused@[i] ==> i + 1 < ops@.len()
                        && ops@[i] is Add && ops@[i + 1] is Mul,
                pc > len ==> !fuse,
                fused_pairs <= pc,
                (if fuse {
                    fused_from(ops@, 0)
                } else {
                    0
                }) == fused_pairs + (if fuse {
                    fused_from(ops@, pc as int)
                } else {
                    0
                }),
                entry@.len() == len,
                forall|t: int|
                    0 <= t < len ==> (#[trigger] entry@[t] <==> is_entry(ops@, t)),
            decreases len + 1 - pc,
        {
            if fuse && pc + 1 < len && !entry[pc + 1] && matches!(ops[pc], Op::Add { .. }) && matches!(ops[pc + 1], Op::Mul { .. }) {
                assert(fusable(ops@, pc as int));
                fused.push(true);
                fused.push(false);
                fused_pairs = fused_pairs + 1;
                pc = pc + 2;
            } else {
                if fuse && pc + 1 < len {
                    assert(!fusable(ops@, pc as int));
                }
                fused.push(false);
                pc = pc + 1;
            }
        }
        Ok(Program { ops: slice_to_vec(ops), registers, fused, fused_pairs, accelerator: None })
    }

    /// Like `compile`; `Semantic` additionally recognizes a pure affine loop
    /// whose iterations can be computed in closed form.
    pub fn compile_optimized(ops: &[Op], registers: usize, optimization: Optimization) -> (r:
        Result<Self, Error>)
        ensures
            ({
                let fuse = !(optimization is Plain);
                &&& r is Ok <==> program_wf(ops@, registers as nat)
                &&& !limits_ok(ops@.len(), registers as nat) ==> r == Err::<Self, Error>(Error::InvalidProgram("program or register limit"))
                &&& limits_ok(ops@.len(), registers as nat) ==> ({
                    let f = first_fault_from(ops@, registers as nat, 0);
                    &&& f < ops@.len() && op_fault(ops@, registers as nat, f) == 1 ==> r
                        == Err::<Self, Error>(Error::InvalidRegister)
                    &&& f < ops@.len() && op_fault(ops@, registers as nat, f) == 2 ==> r
                        == Err::<Self, Error>(Error::InvalidTarget)
                    &&& f < ops@.len() && op_fault(ops@, registers as nat, f) == 3 ==> r
                    == Err::<Self, Error>(Error::InvalidProgram("fallthrough beyond program"))
                })
                &&& r matches Ok(p) ==> {
                    &&& p.ops_view() == ops@
                    &&& p.registers_view() == registers
                    &&& p.fused_pairs_view() == if fuse {
                        fused_from(ops@, 0)
                    } else {
                        0
                    }
                    &&& p.accelerated_view() == (optimization is Semantic && recognize_spec(
                        ops@,
                    ) is Some)
                }
            }),
    {
        let fuse = match optimization {
            Optimization::Plain => false,
            _ => true,
        };
        let r = Self::compile(ops, registers, fuse);
        proof {
            if limits_ok(ops@.len(), registers as nat) {
                lemma_first_fault(ops@, registers as nat, 0);
            }
        }
        match r {
            Ok(mut program) => {
                proof {
                    use_type_invariant(&program);
                }
                if let Optimization::Semantic = optimization {
                    let accelerator = AffineLoop::recognize(ops);
                    program = Program {
                        ops: program.ops,
                        registers: program.registers,
                        fused: program.fused,
                        fused_pairs: program.fused_pairs,
                        accelerator,
                    };
                }
                Ok(program)
            },
            Err(e) => Err(e),
        }
    }

    pub fn has_semantic_accelerator(&self) -> (r: bool)
        ensures
            r == self.accelerated_view(),
    {
        self.accelerator.is_some()
    }

    pub fn fused_pairs(&self) -> (r: usize)
        ensures
            r == self.fused_pairs_view(),
    {
        self.fused_pairs
    }

    /// Registers start at zero; supplied values initialize a prefix. Fuel
    /// counts original IR operations equally with fusion or acceleration.
    pub fn run(&self, args: &[u64], memory: &mut [u8], fuel: u64) -> (r: Result<Outcome, Error>)
        ensures
            (r, final(memory)@) == run_result(
                self.ops_view(),
                self.registers_view(),
                args@,
                old(memory)@,
                fuel,
            ),
    {
        proof {
            use_type_invariant(self);
        }
        if args.len() > self.registers {
            return Err(Error::InvalidArguments);
        }
        let ghost ops = self.ops@;
        let ghost n = self.registers as nat;
        let ghost mem0 = memory@;
        let mut regs: Vec<u64> = Vec::new();
        let mut i: usize = 0;
        while i < self.registers
            invariant
                i <= self.registers,
                args@.len() <= self.registers,
                regs@.len() == i,
                forall|j: int| 0 <= j < i ==> regs@[j] == initial_registers(args@, n)[j],
                n == self.registers,
            decreases self.registers - i,
        {
            if i < args.len() {
                regs.push(args[i]);
            } else {
                regs.push(0);
            }
            i = i + 1;
        }
        assert(regs@ =~= initial_registers(args@, n));
        let mut pc: usize = 0;
        let mut left = fuel;
        let mut executed: u64 = 0;
        let ghost total = run_from(ops, 0, regs@, memory@, fuel as nat, 0);
        if let Some(a) = &self.accelerator {
            proof {
                crate::optimize::lemma_loop_registers(ops, *a, n);
            }
            let ghost regs0 = regs@;
            let ghost fuel0 = left;
            let accelerated = a.execute(&mut regs, &mut left, &mut executed);
            if accelerated {
                proof {
                    lemma_loop_runs(
                        ops,
                        *a,
                        regs0,
                        memory@,
                        fuel0 as nat,
                        0,
                        regs0[a.counter as int] as nat,
                    );
                }
                pc = 4;
            }
        }
        loop
            invariant
                program_wf(ops, n),
                ops == self.ops@,
                n == self.registers,
                regs@.len() == n,
                forall|i: int|
                    0 <= i < self.fused@.len() && #[trigger] self.fused@[i] ==> i + 1 < ops.len()
                        && ops[i] is Add && ops[i + 1] is Mul,
                self.fused@.len() == ops.len(),
                pc < ops.len(),
                executed as nat + left as nat == fuel as nat,
                mem0 == old(memory)@,
                args@.len() <= n,
                run_from(ops, pc as int, regs@, memory@, left as nat, executed as nat) == total,
                total == run_from(ops, 0, initial_registers(args@, n), mem0, fuel as nat, 0),
            decreases left,
        {
            if left == 0 {
                return Err(Error::OutOfFuel);
            }
            let ghost (r0, m0, f0, e0) = (regs@, memory@, left as nat, executed as nat);
            left = left - 1;
            executed = executed + 1;
            if self.fused[pc] {
                let _ = self.execute(pc, &mut regs, memory);
                assert(run_from(ops, pc as int, r0, m0, f0, e0) == run_from(
                    ops,
                    pc + 1,
                    regs@,
                    memory@,
                    left as nat,
                    executed as nat,
                ));
                let ghost (r1, m1) = (regs@, memory@);
                if left == 0 {
                    assert(run_from(ops, pc + 1, regs@, memory@, 0, executed as nat) == (
                        Err::<Outcome, Error>(Error::OutOfFuel),
                        memory@,
                    ));
                    return Err(Error::OutOfFuel);
                }
                left = left - 1;
                executed = executed + 1;
                let _ = self.execute(pc + 1, &mut regs, memory);
                assert(run_from(ops, pc + 1, r1, m1, (left + 1) as nat, (executed - 1) as nat)
                    == run_from(ops, pc + 2, regs@, memory@, left as nat, executed as nat));
                pc = pc + 2;
            } else {
                match self.execute(pc, &mut regs, memory) {
                    Ok(Control::Next(next)) => {
                        pc = next;
                    },
                    Ok(Control::Return(value)) => {
                        return Ok(
                            Outcome { value, remaining_fuel: left, executed_ops: executed },
                        );
                    },
                    Err(e) => {
                        return Err(e);
                    },
                }
            }
        }
    }

    /// Executes the operation at `pc` (fuel already charged).
    fn execute(&self, pc: usize, regs: &mut Vec<u64>, memory: &mut [u8]) -> (r: Result<
        Control,
        Error,
    >)
        requires
            pc < self.ops@.len(),
            old(regs)@.len() == self.registers,
        ensures
            final(regs)@.len() == self.registers,
            match op_effect(self.ops@[pc as int], pc as int, old(regs)@, old(memory)@) {
                Effect::Next { pc: next, regs: rr, mem: m } => r == Ok::<Control, Error>(
                    Control::Next(next as usize),
                ) && 0 <= next < self.ops@.len() && final(regs)@ == rr && final(memory)@ == m,
                Effect::Returned { value } => r == Ok::<Control, Error>(Control::Return(value))
                    && final(memory)@ == old(memory)@,
                Effect::Trapped { error } => r == Err::<Control, Error>(error) && final(memory)@
                    == old(memory)@,
            },
    {
        proof {
            use_type_invariant(self);
        }
        let op = self.ops[pc];
        assert(op_fault(self.ops@, self.registers as nat, pc as int) == 0);
        match op {
            Op::Const { dst, value } => {
                regs.set(dst as usize, value);
                Ok(Control::Next(pc + 1))
            },
            Op::Copy { dst, src } => {
                let v = regs[src as usize];
                regs.set(dst as usize, v);
                Ok(Control::Next(pc + 1))
            },
            Op::Add { dst, lhs, rhs } => {
                let v = regs[lhs as usize].wrapping_add(regs[rhs as usize]);
                regs.set(dst as usize, v);
                Ok(Control::Next(pc + 1))
            },
            Op::Mul { dst, lhs, rhs } => {
                let v = regs[lhs as usize].wrapping_mul(regs[rhs as usize]);
                regs.set(dst as usize, v);
                Ok(Control::Next(pc + 1))
            },
            Op::DivSigned { dst, lhs, rhs } => {
                let a = regs[lhs as usize];
                let b = regs[rhs as usize];
                if b == 0 {
                    return Err(Error::DivisionByZero);
                }
                if a == 0x8000_0000_0000_0000 && b == 0xffff_ffff_ffff_ffff {
                    return Err(Error::IntegerOverflow);
                }
                let v = div_s64(a, b);
                regs.set(dst as usize, v);
                Ok(Control::Next(pc + 1))
            },
            Op::Int64 { kind, dst, lhs, rhs } => {
                match int64_execute(kind, regs[lhs as usize], regs[rhs as usize]) {
                    Ok(v) => {
                        regs.set(dst as usize, v);
                        Ok(Control::Next(pc + 1))
                    },
                    Err(e) => Err(e),
                }
            },
            Op::Int32 { kind, dst, lhs, rhs } => {
                match int32_execute(kind, regs[lhs as usize], regs[rhs as usize]) {
                    Ok(v) => {
                        regs.set(dst as usize, v);
                        Ok(Control::Next(pc + 1))
                    },
                    Err(e) => Err(e),
                }
            },
            Op::Unary64 { kind, dst, src } => {
                let v = unary_execute(kind, regs[src as usize]);
                regs.set(dst as usize, v);
                Ok(Control::Next(pc + 1))
            },
            Op::Eqz { dst, src } => {
                let v = if regs[src as usize] == 0 {
                    1
                } else {
                    0
                };
                regs.set(dst as usize, v);
                Ok(Control::Next(pc + 1))
            },
            Op::Select { dst, condition, if_true, if_false } => {
                let v = if regs[condition as usize] != 0 {
                    regs[if_true as usize]
                } else {
                    regs[if_false as usize]
                };
                regs.set(dst as usize, v);
                Ok(Control::Next(pc + 1))
            },
            Op::Load64 { dst, address, offset } => {
                match memory_start(regs[address as usize], offset, memory.len()) {
                    Some(start) => {
                        let v = read_le(memory, start);
                        regs.set(dst as usize, v);
                        Ok(Control::Next(pc + 1))
                    },
                    None => Err(Error::MemoryOutOfBounds),
                }
            },
            Op::Store64 { src, address, offset } => {
                match memory_start(regs[address as usize], offset, memory.len()) {
                    Some(start) => {
                        write_le(memory, start, regs[src as usize]);
                        Ok(Control::Next(pc + 1))
                    },
                    None => Err(Error::MemoryOutOfBounds),
                }
            },
            Op::Jump { target } => Ok(Control::Next(target)),
            Op::JumpIf { condition, target } => {
                if regs[condition as usize] != 0 {
                    Ok(Control::Next(target))
                } else {
                    Ok(Control::Next(pc + 1))
                }
            },
            Op::Return { src } => Ok(Control::Return(regs[src as usize])),
            Op::Trap => Err(Error::Unreachable),
        }
    }
}

fn slice_to_vec(ops: &[Op]) -> (v: Vec<Op>)
    ensures
        v@ == ops@,
{
    let mut v: Vec<Op> = Vec::new();
    let mut i: usize = 0;
    while i < ops.len()
        invariant
            i <= ops@.len(),
            v@ == ops@.subrange(0, i as int),
        decreases ops@.len() - i,
    {
        v.push(ops[i]);
        i = i + 1;
        assert(v@ =~= ops@.subrange(0, i as int));
    }
    assert(v@ =~= ops@);
    v
}

fn check_registers(op: Op, registers: usize) -> (r: bool)
    ensures
        r == registers_ok(op, registers as nat),
{
    match op {
        Op::Const { dst, .. } => (dst as usize) < registers,
        Op::Copy { dst, src } => (dst as usize) < registers && (src as usize) < registers,
        Op::Eqz { dst, src } => (dst as usize) < registers && (src as usize) < registers,
        Op::Unary64 { dst, src, .. } => (dst as usize) < registers && (src as usize) < registers,
        Op::Add { dst, lhs, rhs } => (dst as usize) < registers && (lhs as usize) < registers
            && (rhs as usize) < registers,
        Op::Mul { dst, lhs, rhs } => (dst as usize) < registers && (lhs as usize) < registers
            && (rhs as usize) < registers,
        Op::DivSigned { dst, lhs, rhs } => (dst as usize) < registers && (lhs as usize)
            < registers && (rhs as usize) < registers,
        Op::Int64 { dst, lhs, rhs, .. } => (dst as usize) < registers && (lhs as usize)
            < registers && (rhs as usize) < registers,
        Op::Int32 { dst, lhs, rhs, .. } => (dst as usize) < registers && (lhs as usize)
            < registers && (rhs as usize) < registers,
        Op::Select { dst, condition, if_true, if_false } => (dst as usize) < registers && (
        condition as usize) < registers && (if_true as usize) < registers && (if_false as usize)
            < registers,
        Op::Load64 { dst, address, .. } => (dst as usize) < registers && (address as usize)
            < registers,
        Op::Store64 { src, address, .. } => (src as usize) < registers && (address as usize)
            < registers,
        Op::JumpIf { condition, .. } => (condition as usize) < registers,
        Op::Return { src } => (src as usize) < registers,
        Op::Jump { .. } => true,
        Op::Trap => true,
    }
}

/// The start of an in-bounds eight-byte access at `address + offset`.
fn memory_start(address: u64, offset: u64, len: usize) -> (r: Option<usize>)
    ensures
        r is Some <==> in_memory(address, offset, len as nat),
        r matches Some(s) ==> s == address + offset,
{
    if address > u64::MAX - offset {
        return None;
    }
    let start = address + offset;
    if start > u64::MAX - 8 {
        return None;
    }
    if start + 8 > len as u64 {
        return None;
    }
    Some(start as usize)
}

pub fn read_le(memory: &[u8], start: usize) -> (v: u64)
    requires
        start + 8 <= memory@.len(),
    ensures
        v == load_le(memory@, start as int),
{
    (memory[start] as u64) | ((memory[start + 1] as u64) << 8u64) | ((memory[start + 2] as u64)
        << 16u64) | ((memory[start + 3] as u64) << 24u64) | ((memory[start + 4] as u64) << 32u64)
        | ((memory[start + 5] as u64) << 40u64) | ((memory[start + 6] as u64) << 48u64) | ((
    memory[start + 7] as u64) << 56u64)
}

pub fn write_le(memory: &mut [u8], start: usize, v: u64)
    requires
        start + 8 <= old(memory)@.len(),
    ensures
        final(memory)@ == store_le(old(memory)@, start as int, v),
{
    let ghost m0 = memory@;
    let len = memory.len();
    let mut k: usize = 0;
    while k < 8
        invariant
            k <= 8,
            len == m0.len(),
            start + 8 <= m0.len(),
            memory@.len() == m0.len(),
            forall|i: int|
                0 <= i < m0.len() ==> #[trigger] memory@[i] == if start <= i < start + k {
                    byte_of(v, i - start)
                } else {
                    m0[i]
                },
        decreases 8 - k,
    {
        let b = ((v >> ((8 * k) as u64)) & 0xff) as u8;
        memory[start + k] = b;
        k = k + 1;
    }
    assert(memory@ =~= store_le(m0, start as int, v));
}

pub(crate) proof fn lemma_first_fault(ops: Seq<Op>, n: nat, pc: int)
    requires
        0 <= pc <= ops.len(),
    ensures
        first_fault_from(ops, n, pc) == ops.len() <==> forall|j: int|
            pc <= j < ops.len() ==> op_fault(ops, n, j) == 0,
        first_fault_from(ops, n, pc) < ops.len() ==> op_fault(
            ops,
            n,
            first_fault_from(ops, n, pc),
        ) != 0,
    decreases ops.len() - pc,
{
    if pc < ops.len() {
        lemma_first_fault(ops, n, pc + 1);
    }
}

/// i64.add and i64.mul write `a + b` and `a * b` modulo 2^64 to their
/// destination register and go on to the next operation, leaving memory and
/// every other register as they were.
pub proof fn lemma_add_mul_effect(pc: int, regs: Seq<u64>, mem: Seq<u8>, dst: u16, lhs: u16, rhs: u16)
    ensures
        op_effect(Op::Add { dst, lhs, rhs }, pc, regs, mem) == (Effect::Next {
            pc: pc + 1,
            regs: regs.update(dst as int, ((regs[lhs as int] + regs[rhs as int]) % 0x1_0000_0000_0000_0000) as u64),
            mem,
        }),
        op_effect(Op::Mul { dst, lhs, rhs }, pc, regs, mem) == (Effect::Next {
            pc: pc + 1,
            regs: regs.update(dst as int, ((regs[lhs as int] * regs[rhs as int]) % 0x1_0000_0000_0000_0000) as u64),
            mem,
        }),
{
}

/// A load of the eight bytes just stored gives back the stored value.
pub proof fn lemma_load_after_store(mem: Seq<u8>, start: int, v: u64)
    requires
        0 <= start,
        start + 8 <= mem.len(),
    ensures
        load_le(store_le(mem, start, v), start) == v,
{
    let m = store_le(mem, start, v);
    assert(m[start] == byte_of(v, 0));
    assert(m[start + 1] == byte_of(v, 1));
    assert(m[start + 2] == byte_of(v, 2));
    assert(m[start + 3] == byte_of(v, 3));
    assert(m[start + 4] == byte_of(v, 4));
    assert(m[start + 5] == byte_of(v, 5));
    assert(m[start + 6] == byte_of(v, 6));
    assert(m[start + 7] == byte_of(v, 7));
    assert(((((v >> 0u64) & 0xff) as u8) as u64) | (((((v >> 8u64) & 0xff) as u8) as u64) << 8u64)
        | (((((v >> 16u64) & 0xff) as u8) as u64) << 16u64) | (((((v >> 24u64) & 0xff) as u8)
        as u64) << 24u64) | (((((v >> 32u64) & 0xff) as u8) as u64) << 32u64) | (((((v >> 40u64)
        & 0xff) as u8) as u64) << 40u64) | (((((v >> 48u64) & 0xff) as u8) as u64) << 48u64) | ((
    (((v >> 56u64) & 0xff) as u8) as u64) << 56u64) == v) by (bit_vector);
}

/// Compiling the same operations with or without fusion gives programs whose
/// runs return the same result and leave the same memory: fuel counts the
/// original operations either way.
pub proof fn lemma_fusion_preserves_runs(
    fused: Program,
    plain: Program,
    args: Seq<u64>,
    mem: Seq<u8>,
    fuel: u64,
)
    requires
        fused.ops_view() == plain.ops_view(),
        fused.registers_view() == plain.registers_view(),
    ensures
        run_result(fused.ops_view(), fused.registers_view(), args, mem, fuel) == run_result(
            plain.ops_view(),
            plain.registers_view(),
            args,
            mem,
            fuel,
        ),
{
}

} // verus!
