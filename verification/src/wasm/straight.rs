//! Lowering a function body without structured control: each stack value
//! gets its own register, locals are renamed on `local.set`, and the body
//! ends at its first `end` or `return`.
use crate::runtime::{Error as IrError, Op};
use crate::wasm::decode::{unsupported_feature, WasmOp};
use vstd::prelude::*;

verus! {

/// At most this many IR operations are emitted for one function.
pub const MAX_LOWERED_OPS: usize = 1_000_000;

/// Lowering state: the register of each local, the value stack, the next
/// fresh register, the operations so far, and whether the body has ended.
pub struct Straight {
    pub locals: Seq<u16>,
    pub stack: Seq<u16>,
    pub next: nat,
    pub ops: Seq<Op>,
    pub finished: bool,
}

/// Emit `op`, whose result is the next fresh register, and push that register.
pub open spec fn value(s: Straight, op: Op) -> Result<Straight, IrError> {
    if s.next > u16::MAX {
        Err(IrError::InvalidRegister)
    } else {
        Ok(Straight { next: s.next + 1, ops: s.ops.push(op), stack: s.stack.push(s.next as u16), ..s })
    }
}

pub open spec fn popped(s: Straight) -> Straight {
    Straight { stack: s.stack.drop_last(), ..s }
}

/// The IR operation of a two-operand WebAssembly operator.
pub open spec fn binary_ir(op: WasmOp, dst: u16, lhs: u16, rhs: u16) -> Op {
    match op {
        WasmOp::Add => Op::Add { dst, lhs, rhs },
        WasmOp::Mul => Op::Mul { dst, lhs, rhs },
        WasmOp::DivS => Op::DivSigned { dst, lhs, rhs },
        WasmOp::Int32(kind) => Op::Int32 { kind, dst, lhs, rhs },
        WasmOp::Int64(kind) => Op::Int64 { kind, dst, lhs, rhs },
        _ => Op::Trap,
    }
}

/// Pop two operands and push the result of `op` on them.
pub open spec fn binary(s: Straight, op: WasmOp) -> Result<Straight, IrError> {
    if s.stack.len() < 2 {
        Err(unsupported_feature())
    } else {
        let rhs = s.stack.last();
        let lhs = s.stack.drop_last().last();
        let t = popped(popped(s));
        value(t, binary_ir(op, t.next as u16, lhs, rhs))
    }
}

/// One operator, before the operation limit is applied.
pub open spec fn straight_op(s: Straight, op: WasmOp) -> Result<Straight, IrError> {
    let uf = unsupported_feature();
    match op {
        WasmOp::I64Const(v) => value(s, Op::Const { dst: s.next as u16, value: v as u64 }),
        WasmOp::I32Const(v) => value(s, Op::Const { dst: s.next as u16, value: v as u32 as u64 }),
        WasmOp::ExtendI32U | WasmOp::Nop => Ok(s),
        WasmOp::Eqz => if s.stack.len() == 0 {
            Err(uf)
        } else {
            value(popped(s), Op::Eqz { dst: s.next as u16, src: s.stack.last() })
        },
        WasmOp::Unary(kind) => if s.stack.len() == 0 {
            Err(uf)
        } else {
            value(popped(s), Op::Unary64 { kind, dst: s.next as u16, src: s.stack.last() })
        },
        WasmOp::LocalGet(i) => if i >= s.locals.len() {
            Err(uf)
        } else {
            Ok(Straight { stack: s.stack.push(s.locals[i as int]), ..s })
        },
        WasmOp::LocalSet(i) => if s.stack.len() == 0 || i >= s.locals.len() {
            Err(uf)
        } else {
            Ok(Straight { locals: s.locals.update(i as int, s.stack.last()), ..popped(s) })
        },
        WasmOp::LocalTee(i) => if s.stack.len() == 0 || i >= s.locals.len() {
            Err(uf)
        } else {
            Ok(Straight { locals: s.locals.update(i as int, s.stack.last()), ..s })
        },
        WasmOp::Select => if s.stack.len() < 3 {
            Err(uf)
        } else {
            let condition = s.stack.last();
            let if_false = s.stack.drop_last().last();
            let if_true = s.stack.drop_last().drop_last().last();
            let t = popped(popped(popped(s)));
            value(t, Op::Select { dst: t.next as u16, condition, if_true, if_false })
        },
        WasmOp::Drop => if s.stack.len() == 0 {
            Err(uf)
        } else {
            Ok(popped(s))
        },
        WasmOp::Add | WasmOp::Mul | WasmOp::DivS | WasmOp::Int32(_) | WasmOp::Int64(_) => binary(
            s,
            op,
        ),
        WasmOp::End | WasmOp::Return => if s.stack.len() == 0 {
            Err(uf)
        } else {
            Ok(
                Straight {
                    ops: s.ops.push(Op::Return { src: s.stack.last() }),
                    finished: true,
                    ..popped(s)
                },
            )
        },
        _ => Err(uf),
    }
}

/// One operator: unreadable operators are refused, after the body's end only
/// `end` may follow, and no more than `MAX_LOWERED_OPS` operations are emitted.
pub open spec fn straight_step(s: Straight, op: WasmOp) -> Result<Straight, IrError> {
    if op is Unreadable {
        Err(unsupported_feature())
    } else if s.finished {
        if op is End {
            Ok(s)
        } else {
            Err(unsupported_feature())
        }
    } else {
        match straight_op(s, op) {
            Ok(t) => if t.ops.len() > MAX_LOWERED_OPS {
                Err(unsupported_feature())
            } else {
                Ok(t)
            },
            Err(e) => Err(e),
        }
    }
}

/// The state after lowering `ops` from `s`, or the first refusal.
pub open spec fn straight_run(s: Straight, ops: Seq<WasmOp>) -> Result<Straight, IrError>
    decreases ops.len(),
{
    if ops.len() == 0 {
        Ok(s)
    } else {
        match straight_run(s, ops.drop_last()) {
            Ok(t) => straight_step(t, ops.last()),
            Err(e) => Err(e),
        }
    }
}

/// Locals `0..n` in their own registers, nothing emitted yet.
pub open spec fn straight_start(local_count: nat) -> Straight {
    Straight {
        locals: Seq::new(local_count, |i: int| i as u16),
        stack: Seq::empty(),
        next: local_count,
        ops: Seq::empty(),
        finished: false,
    }
}

/// Executable lowering state.
pub struct StraightLowering {
    pub locals: Vec<u16>,
    pub stack: Vec<u16>,
    pub next: usize,
    pub ops: Vec<Op>,
    pub finished: bool,
}

impl StraightLowering {
    pub open spec fn view(&self) -> Straight {
        Straight {
            locals: self.locals@,
            stack: self.stack@,
            next: self.next as nat,
            ops: self.ops@,
            finished: self.finished,
        }
    }

    pub fn new(local_count: usize) -> (r: Self)
        requires
            local_count <= 65536,
        ensures
            r@ == straight_start(local_count as nat),
    {
        let mut locals: Vec<u16> = Vec::new();
        let mut i: usize = 0;
        while i < local_count
            invariant
                i <= local_count <= 65536,
                locals@ == Seq::new(i as nat, |k: int| k as u16),
            decreases local_count - i,
        {
            locals.push(i as u16);
            i = i + 1;
            assert(locals@ =~= Seq::new(i as nat, |k: int| k as u16));
        }
        let r = StraightLowering {
            locals,
            stack: Vec::new(),
            next: local_count,
            ops: Vec::new(),
            finished: false,
        };
        assert(r@.stack =~= Seq::<u16>::empty());
        assert(r@.ops =~= Seq::<Op>::empty());
        r
    }

    fn fresh(&self) -> (r: Result<u16, IrError>)
        ensures
            self.next > u16::MAX ==> r == Err::<u16, IrError>(IrError::InvalidRegister),
            self.next <= u16::MAX ==> r == Ok::<u16, IrError>(self.next as u16),
    {
        if self.next > 65535 {
            Err(IrError::InvalidRegister)
        } else {
            Ok(self.next as u16)
        }
    }

    /// Emit `op` into the fresh register `dst` and push it.
    fn emit_value(&mut self, dst: u16, op: Op)
        requires
            old(self).next <= u16::MAX,
            dst == old(self).next,
        ensures
            value(old(self)@, op) == Ok::<Straight, IrError>(final(self)@),
    {
        self.ops.push(op);
        self.stack.push(dst);
        self.next = self.next + 1;
    }

    fn pop(&mut self) -> (r: Result<u16, IrError>)
        ensures
            old(self)@.stack.len() == 0 ==> r == Err::<u16, IrError>(unsupported_feature())
                && final(self)@ == old(self)@,
            old(self)@.stack.len() > 0 ==> r == Ok::<u16, IrError>(old(self)@.stack.last())
                && final(self)@ == popped(old(self)@),
    {
        match self.stack.pop() {
            Some(v) => Ok(v),
            None => Err(IrError::InvalidProgram("unsupported WebAssembly feature in experimental frontend")),
        }
    }

    fn binary(&mut self, op: WasmOp) -> (r: Result<(), IrError>)
        requires
            op is Add || op is Mul || op is DivS || op is Int32 || op is Int64,
        ensures
            match binary(old(self)@, op) {
                Ok(t) => r is Ok && final(self)@ == t,
                Err(e) => r == Err::<(), IrError>(e),
            },
    {
        let ghost s = self@;
        let rhs = match self.pop() {
            Ok(v) => v,
            Err(e) => {
                return Err(e);
            },
        };
        let lhs = match self.pop() {
            Ok(v) => v,
            Err(e) => {
                return Err(e);
            },
        };
        let dst = match self.fresh() {
            Ok(d) => d,
            Err(e) => {
                return Err(e);
            },
        };
        let ir = match op {
            WasmOp::Add => Op::Add { dst, lhs, rhs },
            WasmOp::Mul => Op::Mul { dst, lhs, rhs },
            WasmOp::DivS => Op::DivSigned { dst, lhs, rhs },
            WasmOp::Int32(kind) => Op::Int32 { kind, dst, lhs, rhs },
            WasmOp::Int64(kind) => Op::Int64 { kind, dst, lhs, rhs },
            _ => Op::Trap,
        };
        self.emit_value(dst, ir);
        Ok(())
    }

    fn lower_op(&mut self, op: WasmOp) -> (r: Result<(), IrError>)
        ensures
            match straight_op(old(self)@, op) {
                Ok(t) => r is Ok && final(self)@ == t,
                Err(e) => r == Err::<(), IrError>(e),
            },
    {
        match op {
            WasmOp::I64Const(v) => {
                let dst = match self.fresh() {
                    Ok(d) => d,
                    Err(e) => {
                        return Err(e);
                    },
                };
                self.emit_value(dst, Op::Const { dst, value: v as u64 });
                Ok(())
            },
            WasmOp::I32Const(v) => {
                let dst = match self.fresh() {
                    Ok(d) => d,
                    Err(e) => {
                        return Err(e);
                    },
                };
                self.emit_value(dst, Op::Const { dst, value: v as u32 as u64 });
                Ok(())
            },
            WasmOp::ExtendI32U | WasmOp::Nop => Ok(()),
            WasmOp::Eqz => {
                let src = match self.pop() {
                    Ok(v) => v,
                    Err(e) => {
                        return Err(e);
                    },
                };
                let dst = match self.fresh() {
                    Ok(d) => d,
                    Err(e) => {
                        return Err(e);
                    },
                };
                self.emit_value(dst, Op::Eqz { dst, src });
                Ok(())
            },
            WasmOp::Unary(kind) => {
                let src = match self.pop() {
                    Ok(v) => v,
                    Err(e) => {
                        return Err(e);
                    },
                };
                let dst = match self.fresh() {
                    Ok(d) => d,
                    Err(e) => {
                        return Err(e);
                    },
                };
                self.emit_value(dst, Op::Unary64 { kind, dst, src });
                Ok(())
            },
            WasmOp::LocalGet(i) => {
                if i as usize >= self.locals.len() {
                    return Err(IrError::InvalidProgram("unsupported WebAssembly feature in experimental frontend"));
                }
                let v = self.locals[i as usize];
                self.stack.push(v);
                Ok(())
            },
            WasmOp::LocalSet(i) => {
                if self.stack.len() == 0 || i as usize >= self.locals.len() {
                    return Err(IrError::InvalidProgram("unsupported WebAssembly feature in experimental frontend"));
                }
                let v = match self.pop() {
                    Ok(v) => v,
                    Err(e) => {
                        return Err(e);
                    },
                };
                self.locals.set(i as usize, v);
                Ok(())
            },
            WasmOp::LocalTee(i) => {
                let n = self.stack.len();
                if n == 0 || i as usize >= self.locals.len() {
                    return Err(IrError::InvalidProgram("unsupported WebAssembly feature in experimental frontend"));
                }
                let v = self.stack[n - 1];
                self.locals.set(i as usize, v);
                Ok(())
            },
            WasmOp::Select => {
                if self.stack.len() < 3 {
                    return Err(IrError::InvalidProgram("unsupported WebAssembly feature in experimental frontend"));
                }
                let condition = match self.pop() {
                    Ok(v) => v,
                    Err(e) => {
                        return Err(e);
                    },
                };
                let if_false = match self.pop() {
                    Ok(v) => v,
                    Err(e) => {
                        return Err(e);
                    },
                };
                let if_true = match self.pop() {
                    Ok(v) => v,
                    Err(e) => {
                        return Err(e);
                    },
                };
                let dst = match self.fresh() {
                    Ok(d) => d,
                    Err(e) => {
                        return Err(e);
                    },
                };
                self.emit_value(dst, Op::Select { dst, condition, if_true, if_false });
                Ok(())
            },
            WasmOp::Drop => match self.pop() {
                Ok(_) => Ok(()),
                Err(e) => Err(e),
            },
            WasmOp::Add | WasmOp::Mul | WasmOp::DivS | WasmOp::Int32(_) | WasmOp::Int64(_) => {
                self.binary(op)
            },
            WasmOp::End | WasmOp::Return => {
                let src = match self.pop() {
                    Ok(v) => v,
                    Err(e) => {
                        return Err(e);
                    },
                };
                self.ops.push(Op::Return { src });
                self.finished = true;
                Ok(())
            },
            _ => Err(IrError::InvalidProgram("unsupported WebAssembly feature in experimental frontend")),
        }
    }

    /// Lower one operator.
    pub fn step(&mut self, op: WasmOp) -> (r: Result<(), IrError>)
        ensures
            match straight_step(old(self)@, op) {
                Ok(t) => r is Ok && final(self)@ == t,
                Err(e) => r == Err::<(), IrError>(e),
            },
    {
        if matches!(op, WasmOp::Unreadable) {
            return Err(IrError::InvalidProgram("unsupported WebAssembly feature in experimental frontend"));
        }
        if self.finished {
            if matches!(op, WasmOp::End) {
                return Ok(());
            }
            return Err(IrError::InvalidProgram("unsupported WebAssembly feature in experimental frontend"));
        }
        match self.lower_op(op) {
            Ok(()) => {},
            Err(e) => {
                return Err(e);
            },
        }
        if self.ops.len() > MAX_LOWERED_OPS {
            return Err(IrError::InvalidProgram("unsupported WebAssembly feature in experimental frontend"));
        }
        Ok(())
    }
}

/// Lower `ops` from the start state of `local_count` locals.
pub fn lower_straight(ops: &[WasmOp], local_count: usize) -> (r: Result<StraightLowering, IrError>)
    requires
        local_count <= 65536,
    ensures
        match straight_run(straight_start(local_count as nat), ops@) {
            Ok(t) => r matches Ok(l) && l@ == t,
            Err(e) => r == Err::<StraightLowering, IrError>(e),
        },
{
    let mut l = StraightLowering::new(local_count);
    let mut i: usize = 0;
    while i < ops.len()
        invariant
            i <= ops@.len(),
            straight_run(straight_start(local_count as nat), ops@.subrange(0, i as int)) == Ok::<
                Straight,
                IrError,
            >(l@),
        decreases ops@.len() - i,
    {
        assert(ops@.subrange(0, i + 1).drop_last() =~= ops@.subrange(0, i as int));
        match l.step(ops[i]) {
            Ok(()) => {},
            Err(e) => {
                proof {
                    lemma_run_stops(straight_start(local_count as nat), ops@, (i + 1) as nat);
                }
                return Err(e);
            },
        }
        i = i + 1;
    }
    assert(ops@.subrange(0, ops@.len() as int) =~= ops@);
    Ok(l)
}

/// Once lowering refuses a prefix, it refuses every longer one the same way.
proof fn lemma_run_stops(s: Straight, ops: Seq<WasmOp>, k: nat)
    requires
        k <= ops.len(),
        straight_run(s, ops.subrange(0, k as int)) is Err,
    ensures
        straight_run(s, ops) == straight_run(s, ops.subrange(0, k as int)),
    decreases ops.len() - k,
{
    if k < ops.len() {
        let next = ops.subrange(0, k as int + 1);
        assert(next.drop_last() =~= ops.subrange(0, k as int));
        lemma_run_stops(s, ops, k + 1);
    } else {
        assert(ops.subrange(0, k as int) =~= ops);
    }
}

} // verus!
