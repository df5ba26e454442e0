//! Lowering a function body with structured control. Locals keep their own
//! registers across control joins and reads copy them; a label with a result
//! gets a register that every branch to it fills.
use crate::runtime::{Error as IrError, Op};
use crate::wasm::decode::{BlockKind, WasmOp};
use crate::wasm::straight::MAX_LOWERED_OPS;
use vstd::prelude::*;

verus! {

/// At most this many labels may be open at once.
pub const MAX_NESTING: usize = 1024;

/// A jump whose target is filled in when its label ends.
pub const UNPATCHED: usize = usize::MAX;

#[derive(Clone, Copy, Debug, PartialEq, Eq, Structural)]
pub enum FrameKind {
    Function,
    Block,
    Loop,
    If,
}

/// An open label: where it starts, the stack under it, its result register,
/// the jumps to patch at its end, the `if`'s jump past its true arm, and
/// whether its start and its end can be reached.
pub struct FrameV {
    pub kind: FrameKind,
    pub start: usize,
    pub stack: Seq<u16>,
    pub result: Option<u16>,
    pub exits: Seq<usize>,
    pub false_jump: Option<usize>,
    pub entry_reachable: bool,
    pub end_reachable: bool,
}

/// Lowering state.
pub struct Control {
    pub registers: nat,
    pub ops: Seq<Op>,
    pub stack: Seq<u16>,
    pub frames: Seq<FrameV>,
    pub reachable: bool,
    pub result: u16,
}

/// What structured lowering answers to anything it does not lower.
pub open spec fn unsupported_structure() -> IrError {
    IrError::InvalidProgram("unsupported structured WASM feature")
}

/// The jump at `index` retargeted to `dest`; anything else is left alone.
pub open spec fn patched(ops: Seq<Op>, index: usize, dest: usize) -> Seq<Op> {
    if index < ops.len() {
        match ops[index as int] {
            Op::Jump { .. } => ops.update(index as int, Op::Jump { target: dest }),
            Op::JumpIf { condition, .. } => ops.update(
                index as int,
                Op::JumpIf { condition, target: dest },
            ),
            _ => ops,
        }
    } else {
        ops
    }
}

pub open spec fn patched_all(ops: Seq<Op>, exits: Seq<usize>, dest: usize) -> Seq<Op>
    decreases exits.len(),
{
    if exits.len() == 0 {
        ops
    } else {
        patched(patched_all(ops, exits.drop_last(), dest), exits.last(), dest)
    }
}

/// The copy of the top of the stack into the label's result register, if it has one.
pub open spec fn merged(ops: Seq<Op>, frame: FrameV, stack: Seq<u16>) -> Result<Seq<Op>, IrError> {
    match frame.result {
        Some(dst) => if stack.len() == 0 {
            Err(unsupported_structure())
        } else {
            Ok(ops.push(Op::Copy { dst, src: stack.last() }))
        },
        None => Ok(ops),
    }
}

pub open spec fn drop_top(s: Control) -> Control {
    Control { stack: s.stack.drop_last(), ..s }
}

/// Emit `op`, whose result is the next fresh register, and push that register.
pub open spec fn produce(s: Control, op: Op) -> Result<Control, IrError> {
    if s.registers > u16::MAX {
        Err(IrError::InvalidRegister)
    } else {
        Ok(
            Control {
                registers: s.registers + 1,
                ops: s.ops.push(op),
                stack: s.stack.push(s.registers as u16),
                ..s
            },
        )
    }
}

/// Open a block, loop or `if` of block type `kind`.
pub open spec fn open_label(s: Control, kind: FrameKind, block: BlockKind) -> Result<Control, IrError> {
    let r = match block {
        BlockKind::Empty => Ok((None::<u16>, s)),
        BlockKind::Value => if s.registers > u16::MAX {
            Err(IrError::InvalidRegister)
        } else {
            Ok((Some(s.registers as u16), Control { registers: s.registers + 1, ..s }))
        },
        BlockKind::Other => Err(unsupported_structure()),
    };
    match r {
        Err(e) => Err(e),
        Ok((result, s1)) => {
            let r2 = if kind == FrameKind::If && s1.reachable {
                if s1.stack.len() == 0 {
                    Err(unsupported_structure())
                } else if s1.registers > u16::MAX {
                    Err(IrError::InvalidRegister)
                } else {
                    let condition = s1.registers as u16;
                    let ops = s1.ops.push(Op::Eqz { dst: condition, src: s1.stack.last() });
                    Ok(
                        (
                            Some(ops.len() as usize),
                            Control {
                                registers: s1.registers + 1,
                                ops: ops.push(Op::JumpIf { condition, target: UNPATCHED }),
                                stack: s1.stack.drop_last(),
                                ..s1
                            },
                        ),
                    )
                }
            } else {
                Ok((None::<usize>, s1))
            };
            match r2 {
                Err(e) => Err(e),
                Ok((false_jump, s2)) => if s2.frames.len() >= MAX_NESTING {
                    Err(IrError::InvalidProgram("control nesting limit"))
                } else {
                    Ok(
                        Control {
                            frames: s2.frames.push(
                                FrameV {
                                    kind,
                                    start: s2.ops.len() as usize,
                                    stack: s2.stack,
                                    result,
                                    exits: Seq::empty(),
                                    false_jump,
                                    entry_reachable: s2.reachable,
                                    end_reachable: false,
                                },
                            ),
                            ..s2
                        },
                    )
                },
            }
        },
    }
}

/// `else`: close the true arm and start the false arm.
pub open spec fn else_arm(s: Control) -> Result<Control, IrError> {
    if s.frames.len() == 0 || s.frames.last().kind != FrameKind::If {
        Err(unsupported_structure())
    } else {
        let f = s.frames.last();
        let r = if s.reachable {
            match merged(s.ops, f, s.stack) {
                Err(e) => Err(e),
                Ok(ops) => Ok(
                    (
                        ops.push(Op::Jump { target: UNPATCHED }),
                        FrameV { exits: f.exits.push(ops.len() as usize), end_reachable: true, ..f },
                    ),
                ),
            }
        } else {
            Ok((s.ops, f))
        };
        match r {
            Err(e) => Err(e),
            Ok((ops, f1)) => {
                let end = ops.len() as usize;
                let ops2 = match f1.false_jump {
                    Some(i) => patched(ops, i, end),
                    None => ops,
                };
                Ok(
                    Control {
                        ops: ops2,
                        frames: s.frames.update(
                            s.frames.len() - 1,
                            FrameV { false_jump: None, ..f1 },
                        ),
                        stack: f1.stack,
                        reachable: f1.entry_reachable,
                        ..s
                    },
                )
            },
        }
    }
}

/// `end`: close the innermost label and patch the jumps to its end.
pub open spec fn end_label(s: Control) -> Result<Control, IrError> {
    if s.frames.len() == 0 {
        Err(unsupported_structure())
    } else {
        let f = s.frames.last();
        let r = if s.reachable {
            merged(s.ops, f, s.stack)
        } else {
            Ok(s.ops)
        };
        match r {
            Err(e) => Err(e),
            Ok(ops) => {
                let end = ops.len() as usize;
                let ops1 = match f.false_jump {
                    Some(i) => patched(ops, i, end),
                    None => ops,
                };
                let ops2 = patched_all(ops1, f.exits, end);
                let stack = match f.result {
                    Some(reg) => f.stack.push(reg),
                    None => f.stack,
                };
                let ops3 = if f.kind == FrameKind::Function {
                    ops2.push(Op::Return { src: s.result })
                } else {
                    ops2
                };
                Ok(
                    Control {
                        ops: ops3,
                        frames: s.frames.drop_last(),
                        stack,
                        reachable: s.reachable || f.end_reachable || (f.false_jump is Some
                            && f.entry_reachable),
                        ..s
                    },
                )
            },
        }
    }
}

/// `br` or `br_if` to the label `depth` levels out.
pub open spec fn branch(s: Control, depth: u32, conditional: bool) -> Result<Control, IrError> {
    if conditional && s.stack.len() == 0 {
        Err(unsupported_structure())
    } else {
        let condition = s.stack.last();
        let s1 = if conditional {
            drop_top(s)
        } else {
            s
        };
        if depth >= s1.frames.len() {
            Err(unsupported_structure())
        } else {
            let index = s1.frames.len() - 1 - depth;
            let f = s1.frames[index];
            let r = if f.kind == FrameKind::Loop {
                Ok((s1.ops, f.start, s1.frames))
            } else {
                match merged(s1.ops, f, s1.stack) {
                    Err(e) => Err(e),
                    Ok(ops) => Ok(
                        (
                            ops,
                            UNPATCHED,
                            s1.frames.update(
                                index,
                                FrameV {
                                    exits: f.exits.push(ops.len() as usize),
                                    end_reachable: true,
                                    ..f
                                },
                            ),
                        ),
                    ),
                }
            };
            match r {
                Err(e) => Err(e),
                Ok((ops, target, frames)) => Ok(
                    Control {
                        ops: ops.push(
                            if conditional {
                                Op::JumpIf { condition, target }
                            } else {
                                Op::Jump { target }
                            },
                        ),
                        frames,
                        reachable: s1.reachable && conditional,
                        ..s1
                    },
                ),
            }
        }
    }
}

/// The IR operation of a two-operand operator, if the frontend lowers it.
pub open spec fn binary_ir(op: WasmOp, dst: u16, lhs: u16, rhs: u16) -> Option<Op> {
    match op {
        WasmOp::Add => Some(Op::Add { dst, lhs, rhs }),
        WasmOp::Mul => Some(Op::Mul { dst, lhs, rhs }),
        WasmOp::DivS => Some(Op::DivSigned { dst, lhs, rhs }),
        WasmOp::Int32(kind) => Some(Op::Int32 { kind, dst, lhs, rhs }),
        WasmOp::Int64(kind) => Some(Op::Int64 { kind, dst, lhs, rhs }),
        _ => None,
    }
}

/// Pop two operands, take a fresh register, then lower `op` on them.
pub open spec fn binary(s: Control, op: WasmOp) -> Result<Control, IrError> {
    if s.stack.len() < 2 {
        Err(unsupported_structure())
    } else if s.registers > u16::MAX {
        Err(IrError::InvalidRegister)
    } else {
        let rhs = s.stack.last();
        let lhs = s.stack.drop_last().last();
        let t = drop_top(drop_top(s));
        match binary_ir(op, t.registers as u16, lhs, rhs) {
            Some(ir) => produce(t, ir),
            None => Err(unsupported_structure()),
        }
    }
}

/// One operator that is neither structural nor skipped as unreachable.
pub open spec fn simple_op(s: Control, op: WasmOp) -> Result<Control, IrError> {
    let uf = unsupported_structure();
    match op {
        WasmOp::Br(d) => branch(s, d, false),
        WasmOp::BrIf(d) => branch(s, d, true),
        WasmOp::Return => if s.stack.len() == 0 {
            Err(uf)
        } else {
            Ok(
                Control {
                    ops: s.ops.push(Op::Return { src: s.stack.last() }),
                    reachable: false,
                    ..drop_top(s)
                },
            )
        },
        WasmOp::Unreachable => Ok(Control { ops: s.ops.push(Op::Trap), reachable: false, ..s }),
        WasmOp::Nop | WasmOp::ExtendI32U => Ok(s),
        WasmOp::I32Const(v) => produce(s, Op::Const { dst: s.registers as u16, value: v as u32 as u64 }),
        WasmOp::I64Const(v) => produce(s, Op::Const { dst: s.registers as u16, value: v as u64 }),
        WasmOp::Unary(kind) => if s.stack.len() == 0 {
            Err(uf)
        } else {
            produce(drop_top(s), Op::Unary64 { kind, dst: s.registers as u16, src: s.stack.last() })
        },
        WasmOp::LocalGet(i) => produce(s, Op::Copy { dst: s.registers as u16, src: i as u16 }),
        WasmOp::LocalSet(i) => if s.stack.len() == 0 {
            Err(uf)
        } else {
            Ok(
                Control {
                    ops: s.ops.push(Op::Copy { dst: i as u16, src: s.stack.last() }),
                    ..drop_top(s)
                },
            )
        },
        WasmOp::LocalTee(i) => if s.stack.len() == 0 {
            Err(uf)
        } else {
            Ok(Control { ops: s.ops.push(Op::Copy { dst: i as u16, src: s.stack.last() }), ..s })
        },
        WasmOp::Select => if s.stack.len() < 3 {
            Err(uf)
        } else {
            let condition = s.stack.last();
            let if_false = s.stack.drop_last().last();
            let if_true = s.stack.drop_last().drop_last().last();
            let t = drop_top(drop_top(drop_top(s)));
            produce(t, Op::Select { dst: t.registers as u16, condition, if_true, if_false })
        },
        WasmOp::Drop => if s.stack.len() == 0 {
            Err(uf)
        } else {
            Ok(drop_top(s))
        },
        WasmOp::Eqz => if s.stack.len() == 0 {
            Err(uf)
        } else {
            produce(drop_top(s), Op::Eqz { dst: s.registers as u16, src: s.stack.last() })
        },
        _ => binary(s, op),
    }
}

/// One operator, before the operation limit is applied.
pub open spec fn control_op(s: Control, op: WasmOp) -> Result<Control, IrError> {
    match op {
        WasmOp::Unreadable => Err(unsupported_structure()),
        WasmOp::Block(b) => open_label(s, FrameKind::Block, b),
        WasmOp::Loop(b) => open_label(s, FrameKind::Loop, b),
        WasmOp::If(b) => open_label(s, FrameKind::If, b),
        WasmOp::Else => else_arm(s),
        WasmOp::End => end_label(s),
        _ => if !s.reachable {
            Ok(s)
        } else {
            simple_op(s, op)
        },
    }
}

/// One operator; no more than `MAX_LOWERED_OPS` operations are emitted.
pub open spec fn control_step(s: Control, op: WasmOp) -> Result<Control, IrError> {
    match control_op(s, op) {
        Ok(t) => if t.ops.len() > MAX_LOWERED_OPS {
            Err(unsupported_structure())
        } else {
            Ok(t)
        },
        Err(e) => Err(e),
    }
}

pub open spec fn control_run(s: Control, ops: Seq<WasmOp>) -> Result<Control, IrError>
    decreases ops.len(),
{
    if ops.len() == 0 {
        Ok(s)
    } else {
        match control_run(s, ops.drop_last()) {
            Ok(t) => control_step(t, ops.last()),
            Err(e) => Err(e),
        }
    }
}

/// The function's own label, with its result register just above the locals.
pub open spec fn control_start(locals: nat) -> Result<Control, IrError> {
    if locals > u16::MAX {
        Err(IrError::InvalidRegister)
    } else {
        Ok(
            Control {
                registers: locals + 1,
                ops: Seq::empty(),
                stack: Seq::empty(),
                frames: seq![
                    FrameV {
                        kind: FrameKind::Function,
                        start: 0,
                        stack: Seq::empty(),
                        result: Some(locals as u16),
                        exits: Seq::empty(),
                        false_jump: None,
                        entry_reachable: true,
                        end_reachable: false,
                    },
                ],
                reachable: true,
                result: locals as u16,
            },
        )
    }
}

/// The operations and register count a body lowers to, or the refusal.
pub open spec fn control_lowering(ops: Seq<WasmOp>, locals: nat) -> Result<(Seq<Op>, nat), IrError> {
    match control_start(locals) {
        Err(e) => Err(e),
        Ok(s) => match control_run(s, ops) {
            Err(e) => Err(e),
            Ok(t) => if t.frames.len() != 0 {
                Err(unsupported_structure())
            } else {
                Ok((t.ops, t.registers))
            },
        },
    }
}

/// An open label while lowering.
pub struct Frame {
    pub kind: FrameKind,
    pub start: usize,
    pub stack: Vec<u16>,
    pub result: Option<u16>,
    pub exits: Vec<usize>,
    pub false_jump: Option<usize>,
    pub entry_reachable: bool,
    pub end_reachable: bool,
}

impl Frame {
    pub open spec fn view(&self) -> FrameV {
        FrameV {
            kind: self.kind,
            start: self.start,
            stack: self.stack@,
            result: self.result,
            exits: self.exits@,
            false_jump: self.false_jump,
            entry_reachable: self.entry_reachable,
            end_reachable: self.end_reachable,
        }
    }
}

/// Executable lowering state.
pub struct ControlLowering {
    pub registers: usize,
    pub ops: Vec<Op>,
    pub stack: Vec<u16>,
    pub frames: Vec<Frame>,
    pub reachable: bool,
    pub result: u16,
}

pub open spec fn frames_view(frames: Seq<Frame>) -> Seq<FrameV> {
    Seq::new(frames.len(), |i: int| frames[i]@)
}

fn copy_registers(v: &Vec<u16>) -> (r: Vec<u16>)
    ensures
        r@ == v@,
{
    let mut out: Vec<u16> = Vec::new();
    let mut i: usize = 0;
    while i < v.len()
        invariant
            i <= v@.len(),
            out@ == v@.subrange(0, i as int),
        decreases v@.len() - i,
    {
        out.push(v[i]);
        i = i + 1;
        assert(out@ =~= v@.subrange(0, i as int));
    }
    assert(v@.subrange(0, v@.len() as int) =~= v@);
    out
}

fn patch(ops: &mut Vec<Op>, index: usize, dest: usize)
    ensures
        final(ops)@ == patched(old(ops)@, index, dest),
{
    if index < ops.len() {
        match ops[index] {
            Op::Jump { .. } => ops.set(index, Op::Jump { target: dest }),
            Op::JumpIf { condition, .. } => ops.set(index, Op::JumpIf { condition, target: dest }),
            _ => {},
        }
    }
}

fn patch_all(ops: &mut Vec<Op>, exits: &Vec<usize>, dest: usize)
    ensures
        final(ops)@ == patched_all(old(ops)@, exits@, dest),
{
    let mut i: usize = 0;
    while i < exits.len()
        invariant
            i <= exits@.len(),
            ops@ == patched_all(old(ops)@, exits@.subrange(0, i as int), dest),
        decreases exits@.len() - i,
    {
        assert(exits@.subrange(0, i + 1).drop_last() =~= exits@.subrange(0, i as int));
        patch(ops, exits[i], dest);
        i = i + 1;
    }
    assert(exits@.subrange(0, exits@.len() as int) =~= exits@);
}

impl ControlLowering {
    pub open spec fn view(&self) -> Control {
        Control {
            registers: self.registers as nat,
            ops: self.ops@,
            stack: self.stack@,
            frames: frames_view(self.frames@),
            reachable: self.reachable,
            result: self.result,
        }
    }

    /// The function's own label over `locals` locals.
    pub fn new(locals: usize) -> (r: Result<Self, IrError>)
        ensures
            match control_start(locals as nat) {
                Ok(s) => r matches Ok(l) && l@ == s,
                Err(e) => r matches Err(e2) && e2 == e,
            },
    {
        if locals > 65535 {
            return Err(IrError::InvalidRegister);
        }
        let result = locals as u16;
        let mut frames: Vec<Frame> = Vec::new();
        frames.push(
            Frame {
                kind: FrameKind::Function,
                start: 0,
                stack: Vec::new(),
                result: Some(result),
                exits: Vec::new(),
                false_jump: None,
                entry_reachable: true,
                end_reachable: false,
            },
        );
        let l = ControlLowering {
            registers: locals + 1,
            ops: Vec::new(),
            stack: Vec::new(),
            frames,
            reachable: true,
            result,
        };
        assert(l@.frames =~= control_start(locals as nat)->Ok_0.frames);
        assert(l@.ops =~= Seq::<Op>::empty());
        assert(l@.stack =~= Seq::<u16>::empty());
        Ok(l)
    }

    fn fresh(&mut self) -> (r: Result<u16, IrError>)
        ensures
            old(self).registers > u16::MAX ==> r == Err::<u16, IrError>(IrError::InvalidRegister)
                && final(self)@ == old(self)@,
            old(self).registers <= u16::MAX ==> r == Ok::<u16, IrError>(old(self).registers as u16)
                && final(self)@ == (Control { registers: old(self)@.registers + 1, ..old(self)@ }),
    {
        if self.registers > 65535 {
            return Err(IrError::InvalidRegister);
        }
        let r = self.registers as u16;
        self.registers = self.registers + 1;
        Ok(r)
    }

    fn pop(&mut self) -> (r: Result<u16, IrError>)
        ensures
            old(self)@.stack.len() == 0 ==> r == Err::<u16, IrError>(unsupported_structure())
                && final(self)@ == old(self)@,
            old(self)@.stack.len() > 0 ==> r == Ok::<u16, IrError>(old(self)@.stack.last())
                && final(self)@ == drop_top(old(self)@),
    {
        match self.stack.pop() {
            Some(v) => Ok(v),
            None => Err(IrError::InvalidProgram("unsupported structured WASM feature")),
        }
    }

    fn produce(&mut self, op: Op) -> (r: Result<(), IrError>)
        ensures
            match produce(old(self)@, op) {
                Ok(t) => r is Ok && final(self)@ == t,
                Err(e) => r == Err::<(), IrError>(e) && final(self)@ == old(self)@,
            },
    {
        if self.registers > 65535 {
            return Err(IrError::InvalidRegister);
        }
        let dst = self.registers as u16;
        self.ops.push(op);
        self.stack.push(dst);
        self.registers = self.registers + 1;
        Ok(())
    }

    /// Copy the top of the stack into `result`, if there is one.
    fn merge(&mut self, frame: &Frame) -> (r: Result<(), IrError>)
        ensures
            match merged(old(self)@.ops, frame@, old(self)@.stack) {
                Ok(ops) => r is Ok && final(self)@ == (Control { ops, ..old(self)@ }),
                Err(e) => r == Err::<(), IrError>(e),
            },
    {
        if let Some(dst) = frame.result {
            let n = self.stack.len();
            if n == 0 {
                return Err(IrError::InvalidProgram("unsupported structured WASM feature"));
            }
            let src = self.stack[n - 1];
            self.ops.push(Op::Copy { dst, src });
        }
        Ok(())
    }

    fn open_label(&mut self, kind: FrameKind, block: BlockKind) -> (r: Result<(), IrError>)
        ensures
            match open_label(old(self)@, kind, block) {
                Ok(t) => r is Ok && final(self)@ == t,
                Err(e) => r == Err::<(), IrError>(e),
            },
    {
        let result = match block {
            BlockKind::Empty => None,
            BlockKind::Value => match self.fresh() {
                Ok(reg) => Some(reg),
                Err(e) => {
                    return Err(e);
                },
            },
            BlockKind::Other => {
                return Err(IrError::InvalidProgram("unsupported structured WASM feature"));
            },
        };
        let ghost s1 = self@;
        let false_jump = if kind == FrameKind::If && self.reachable {
            let src = match self.pop() {
                Ok(v) => v,
                Err(e) => {
                    return Err(e);
                },
            };
            let condition = match self.fresh() {
                Ok(c) => c,
                Err(e) => {
                    return Err(e);
                },
            };
            self.ops.push(Op::Eqz { dst: condition, src });
            let index = self.ops.len();
            self.ops.push(Op::JumpIf { condition, target: UNPATCHED });
            Some(index)
        } else {
            None
        };
        if self.frames.len() >= MAX_NESTING {
            return Err(IrError::InvalidProgram("control nesting limit"));
        }
        let ghost before = self.frames@;
        let frame = Frame {
            kind,
            start: self.ops.len(),
            stack: copy_registers(&self.stack),
            result,
            exits: Vec::new(),
            false_jump,
            entry_reachable: self.reachable,
            end_reachable: false,
        };
        assert(frame@.exits =~= Seq::<usize>::empty());
        self.frames.push(frame);
        assert(frames_view(self.frames@) =~= frames_view(before).push(frame@));
        Ok(())
    }

    fn else_arm(&mut self) -> (r: Result<(), IrError>)
        ensures
            match else_arm(old(self)@) {
                Ok(t) => r is Ok && final(self)@ == t,
                Err(e) => r == Err::<(), IrError>(e),
            },
    {
        let n = self.frames.len();
        if n == 0 || self.frames[n - 1].kind != FrameKind::If {
            return Err(IrError::InvalidProgram("unsupported structured WASM feature"));
        }
        let ghost s0 = self@;
        let mut frame = self.frames.remove(n - 1);
        assert(frame@ == s0.frames.last());
        let ghost rest = self.frames@;
        assert(frames_view(rest) =~= s0.frames.drop_last());
        if self.reachable {
            match self.merge(&frame) {
                Ok(()) => {},
                Err(e) => {
                    return Err(e);
                },
            }
            frame.exits.push(self.ops.len());
            self.ops.push(Op::Jump { target: UNPATCHED });
            frame.end_reachable = true;
        }
        let end = self.ops.len();
        if let Some(index) = frame.false_jump {
            patch(&mut self.ops, index, end);
        }
        frame.false_jump = None;
        self.stack = copy_registers(&frame.stack);
        self.reachable = frame.entry_reachable;
        let ghost before_push = self.frames@;
        assert(frames_view(before_push) == s0.frames.drop_last());
        self.frames.push(frame);
        assert(frames_view(self.frames@) =~= frames_view(before_push).push(frame@));
        assert(frames_view(self.frames@) =~= s0.frames.update(s0.frames.len() - 1, frame@));
        Ok(())
    }

    fn end_label(&mut self) -> (r: Result<(), IrError>)
        ensures
            match end_label(old(self)@) {
                Ok(t) => r is Ok && final(self)@ == t,
                Err(e) => r == Err::<(), IrError>(e),
            },
    {
        let n = self.frames.len();
        if n == 0 {
            return Err(IrError::InvalidProgram("unsupported structured WASM feature"));
        }
        let ghost s0 = self@;
        let frame = self.frames.remove(n - 1);
        assert(frame@ == s0.frames.last());
        assert(frames_view(self.frames@) =~= s0.frames.drop_last());
        if self.reachable {
            match self.merge(&frame) {
                Ok(()) => {},
                Err(e) => {
                    return Err(e);
                },
            }
        }
        let end = self.ops.len();
        if let Some(index) = frame.false_jump {
            patch(&mut self.ops, index, end);
        }
        patch_all(&mut self.ops, &frame.exits, end);
        self.reachable = self.reachable || frame.end_reachable || (frame.false_jump.is_some()
            && frame.entry_reachable);
        let mut stack = copy_registers(&frame.stack);
        if let Some(reg) = frame.result {
            stack.push(reg);
        }
        self.stack = stack;
        if frame.kind == FrameKind::Function {
            self.ops.push(Op::Return { src: self.result });
        }
        Ok(())
    }

    fn branch(&mut self, depth: u32, conditional: bool) -> (r: Result<(), IrError>)
        ensures
            match branch(old(self)@, depth, conditional) {
                Ok(t) => r is Ok && final(self)@ == t,
                Err(e) => r == Err::<(), IrError>(e),
            },
    {
        let ghost s0 = self@;
        let condition = if conditional {
            match self.pop() {
                Ok(c) => c,
                Err(e) => {
                    return Err(e);
                },
            }
        } else {
            0
        };
        let n = self.frames.len();
        if depth as usize >= n {
            return Err(IrError::InvalidProgram("unsupported structured WASM feature"));
        }
        let index = n - 1 - depth as usize;
        let target = if self.frames[index].kind == FrameKind::Loop {
            self.frames[index].start
        } else {
            let ghost s1 = self@;
            let mut frame = self.frames.remove(index);
            assert(frame@ == s1.frames[index as int]);
            let ghost rest = self.frames@;
            match self.merge(&frame) {
                Ok(()) => {},
                Err(e) => {
                    return Err(e);
                },
            }
            frame.exits.push(self.ops.len());
            frame.end_reachable = true;
            let ghost before_insert = self.frames@;
            assert(frames_view(rest) =~= s1.frames.remove(index as int));
            assert(frames_view(before_insert) == frames_view(rest));
            assert(before_insert.len() == frames_view(before_insert).len());
            self.frames.insert(index, frame);
            assert(frames_view(self.frames@) =~= frames_view(before_insert).insert(index as int, frame@));
            assert(frames_view(self.frames@) =~= s1.frames.update(index as int, frame@));
            UNPATCHED
        };
        if conditional {
            self.ops.push(Op::JumpIf { condition, target });
        } else {
            self.ops.push(Op::Jump { target });
            self.reachable = false;
        }
        Ok(())
    }

    fn binary(&mut self, op: WasmOp) -> (r: Result<(), IrError>)
        ensures
            match binary(old(self)@, op) {
                Ok(t) => r is Ok && final(self)@ == t,
                Err(e) => r == Err::<(), IrError>(e),
            },
    {
        if self.stack.len() < 2 {
            return Err(IrError::InvalidProgram("unsupported structured WASM feature"));
        }
        if self.registers > 65535 {
            return Err(IrError::InvalidRegister);
        }
        let rhs = match self.pop() {
            Ok(v) => v,
            Err(e) => {
                return Err(e);
            },
        };
        let lhs = match self.pop() {
            Ok(v) => v,
            Err(e) => {
                return Err(e);
            },
        };
        let dst = self.registers as u16;
        let ir = match op {
            WasmOp::Add => Op::Add { dst, lhs, rhs },
            WasmOp::Mul => Op::Mul { dst, lhs, rhs },
            WasmOp::DivS => Op::DivSigned { dst, lhs, rhs },
            WasmOp::Int32(kind) => Op::Int32 { kind, dst, lhs, rhs },
            WasmOp::Int64(kind) => Op::Int64 { kind, dst, lhs, rhs },
            _ => {
                return Err(IrError::InvalidProgram("unsupported structured WASM feature"));
            },
        };
        self.produce(ir)
    }

    fn simple_op(&mut self, op: WasmOp) -> (r: Result<(), IrError>)
        ensures
            match simple_op(old(self)@, op) {
                Ok(t) => r is Ok && final(self)@ == t,
                Err(e) => r == Err::<(), IrError>(e),
            },
    {
        match op {
            WasmOp::Br(d) => self.branch(d, false),
            WasmOp::BrIf(d) => self.branch(d, true),
            WasmOp::Return => {
                let src = match self.pop() {
                    Ok(v) => v,
                    Err(e) => {
                        return Err(e);
                    },
                };
                self.ops.push(Op::Return { src });
                self.reachable = false;
                Ok(())
            },
            WasmOp::Unreachable => {
                self.ops.push(Op::Trap);
                self.reachable = false;
                Ok(())
            },
            WasmOp::Nop | WasmOp::ExtendI32U => Ok(()),
            WasmOp::I32Const(v) => {
                let dst = self.registers as u16;
                self.produce(Op::Const { dst, value: v as u32 as u64 })
            },
            WasmOp::I64Const(v) => {
                let dst = self.registers as u16;
                self.produce(Op::Const { dst, value: v as u64 })
            },
            WasmOp::Unary(kind) => {
                let src = match self.pop() {
                    Ok(v) => v,
                    Err(e) => {
                        return Err(e);
                    },
                };
                let dst = self.registers as u16;
                self.produce(Op::Unary64 { kind, dst, src })
            },
            WasmOp::LocalGet(i) => {
                let dst = self.registers as u16;
                self.produce(Op::Copy { dst, src: i as u16 })
            },
            WasmOp::LocalSet(i) => {
                let src = match self.pop() {
                    Ok(v) => v,
                    Err(e) => {
                        return Err(e);
                    },
                };
                self.ops.push(Op::Copy { dst: i as u16, src });
                Ok(())
            },
            WasmOp::LocalTee(i) => {
                let n = self.stack.len();
                if n == 0 {
                    return Err(IrError::InvalidProgram("unsupported structured WASM feature"));
                }
                let src = self.stack[n - 1];
                self.ops.push(Op::Copy { dst: i as u16, src });
                Ok(())
            },
            WasmOp::Select => {
                if self.stack.len() < 3 {
                    return Err(IrError::InvalidProgram("unsupported structured WASM feature"));
                }
                let condition = match self.pop() {
                    Ok(v) => v,
                    Err(e) => {
                        return Err(e);
                    },
                };
                let if_false = match self.pop() {
                    Ok(v) => v,
                    Err(e) => {
                        return Err(e);
                    },
                };
                let if_true = match self.pop() {
                    Ok(v) => v,
                    Err(e) => {
                        return Err(e);
                    },
                };
                let dst = self.registers as u16;
                self.produce(Op::Select { dst, condition, if_true, if_false })
            },
            WasmOp::Drop => match self.pop() {
                Ok(_) => Ok(()),
                Err(e) => Err(e),
            },
            WasmOp::Eqz => {
                let src = match self.pop() {
                    Ok(v) => v,
                    Err(e) => {
                        return Err(e);
                    },
                };
                let dst = self.registers as u16;
                self.produce(Op::Eqz { dst, src })
            },
            _ => self.binary(op),
        }
    }

    /// Lower one operator.
    pub fn step(&mut self, op: WasmOp) -> (r: Result<(), IrError>)
        ensures
            match control_step(old(self)@, op) {
                Ok(t) => r is Ok && final(self)@ == t,
                Err(e) => r == Err::<(), IrError>(e),
            },
    {
        let r = match op {
            WasmOp::Unreadable => Err(IrError::InvalidProgram("unsupported structured WASM feature")),
            WasmOp::Block(b) => self.open_label(FrameKind::Block, b),
            WasmOp::Loop(b) => self.open_label(FrameKind::Loop, b),
            WasmOp::If(b) => self.open_label(FrameKind::If, b),
            WasmOp::Else => self.else_arm(),
            WasmOp::End => self.end_label(),
            _ => if !self.reachable {
                Ok(())
            } else {
                self.simple_op(op)
            },
        };
        match r {
            Ok(()) => {},
            Err(e) => {
                return Err(e);
            },
        }
        if self.ops.len() > MAX_LOWERED_OPS {
            return Err(IrError::InvalidProgram("unsupported structured WASM feature"));
        }
        Ok(())
    }
}

proof fn lemma_run_stops(s: Control, ops: Seq<WasmOp>, k: nat)
    requires
        k <= ops.len(),
        control_run(s, ops.subrange(0, k as int)) is Err,
    ensures
        control_run(s, ops) == control_run(s, ops.subrange(0, k as int)),
    decreases ops.len() - k,
{
    if k < ops.len() {
        assert(ops.subrange(0, k as int + 1).drop_last() =~= ops.subrange(0, k as int));
        lemma_run_stops(s, ops, k + 1);
    } else {
        assert(ops.subrange(0, k as int) =~= ops);
    }
}

/// Lower a structured body over `locals` locals: the operations and the
/// register count, or the first refusal.
pub fn lower_structured(ops: &[WasmOp], locals: usize) -> (r: Result<(Vec<Op>, usize), IrError>)
    ensures
        match control_lowering(ops@, locals as nat) {
            Ok((lowered, registers)) => r matches Ok((v, n)) && v@ == lowered && n == registers,
            Err(e) => r matches Err(e2) && e2 == e,
        },
{
    let mut l = match ControlLowering::new(locals) {
        Ok(l) => l,
        Err(e) => {
            return Err(e);
        },
    };
    let ghost start = l@;
    let mut i: usize = 0;
    while i < ops.len()
        invariant
            i <= ops@.len(),
            control_start(locals as nat) == Ok::<Control, IrError>(start),
            control_run(start, ops@.subrange(0, i as int)) == Ok::<Control, IrError>(l@),
        decreases ops@.len() - i,
    {
        assert(ops@.subrange(0, i + 1).drop_last() =~= ops@.subrange(0, i as int));
        match l.step(ops[i]) {
            Ok(()) => {},
            Err(e) => {
                proof {
                    lemma_run_stops(start, ops@, (i + 1) as nat);
                }
                return Err(e);
            },
        }
        i = i + 1;
    }
    assert(ops@.subrange(0, ops@.len() as int) =~= ops@);
    if l.frames.len() != 0 {
        return Err(IrError::InvalidProgram("unsupported structured WASM feature"));
    }
    Ok((l.ops, l.registers))
}

} // verus!
