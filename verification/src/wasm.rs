//! Experimental pure integer function frontend: one exported WebAssembly
//! function lowered to validated register data. Unsupported features are
//! refused before execution; no guest bytes become native instructions.
pub mod control;
pub mod decode;
pub mod straight;

use crate::runtime::{
    fused_from, lemma_first_fault, program_wf, run_result, Error as IrError, Op, Outcome, Program,
};
use crate::wasm::control::{control_lowering, lower_structured};
use crate::wasm::decode::{
    check_module, decode_export, decode_spec, unsupported_feature, wasm_valid, DecodedFunction,
    DecodedView, ValKind, WasmOp,
};
use crate::wasm::straight::{lower_straight, straight_run, straight_start};
use vstd::prelude::*;

verus! {

/// The integer type of a parameter or result.
#[derive(Clone, Copy, Debug, PartialEq, Eq, Structural)]
pub enum IntegerType {
    I32,
    I64,
}

pub open spec fn integer_type(k: ValKind) -> Option<IntegerType> {
    match k {
        ValKind::I32 => Some(IntegerType::I32),
        ValKind::I64 => Some(IntegerType::I64),
        ValKind::Other => None,
    }
}

/// `value` as a value of type `t`: an i32 keeps its low 32 bits.
pub open spec fn normalized(t: IntegerType, value: u64) -> u64 {
    match t {
        IntegerType::I32 => value as u32 as u64,
        IntegerType::I64 => value,
    }
}

pub open spec fn normalized_args(params: Seq<IntegerType>, args: Seq<u64>) -> Seq<u64> {
    Seq::new(args.len(), |i: int| normalized(params[i], args[i]))
}

impl IntegerType {
    fn from_wasm(value: ValKind) -> (r: Result<Self, IrError>)
        ensures
            match integer_type(value) {
                Some(t) => r == Ok::<IntegerType, IrError>(t),
                None => r == Err::<IntegerType, IrError>(
                    IrError::InvalidProgram("unsupported function value type"),
                ),
            },
    {
        match value {
            ValKind::I32 => Ok(IntegerType::I32),
            ValKind::I64 => Ok(IntegerType::I64),
            ValKind::Other => Err(IrError::InvalidProgram("unsupported function value type")),
        }
    }

    fn normalize(self, value: u64) -> (r: u64)
        ensures
            r == normalized(self, value),
    {
        match self {
            IntegerType::I32 => value as u32 as u64,
            IntegerType::I64 => value,
        }
    }
}

/// The signature of a decoded function: its parameter and result types.
pub open spec fn signature_of(d: DecodedView) -> Result<(Seq<IntegerType>, IntegerType), IrError> {
    if d.results.len() != 1 {
        Err(unsupported_feature())
    } else if integer_type(d.results[0]) is None {
        Err(IrError::InvalidProgram("unsupported function value type"))
    } else if exists|i: int| 0 <= i < d.params.len() && integer_type(#[trigger] d.params[i]) is None {
        Err(IrError::InvalidProgram("unsupported function value type"))
    } else {
        Ok(
            (
                Seq::new(d.params.len(), |i: int| integer_type(d.params[i])->Some_0),
                integer_type(d.results[0])->Some_0,
            ),
        )
    }
}

/// The number of locals after the declarations `decls`, starting from `count`
/// parameters; `None` where a declaration is unreadable, not an integer, or
/// the count passes 65536.
pub open spec fn local_count(decls: Seq<Option<(u32, ValKind)>>, count: nat) -> Option<nat>
    decreases decls.len(),
{
    if decls.len() == 0 {
        Some(count)
    } else {
        match local_count(decls.drop_last(), count) {
            None => None,
            Some(n) => match decls.last() {
                Some((c, k)) => if integer_type(k) is Some && n + c <= 65536 {
                    Some(n + c as nat)
                } else {
                    None
                },
                None => None,
            },
        }
    }
}

/// Whether a body uses structured control.
pub open spec fn structured(ops: Seq<WasmOp>) -> bool {
    exists|i: int|
        0 <= i < ops.len() && (ops[i] is Block || ops[i] is Loop || ops[i] is If || ops[i] is Br
            || ops[i] is BrIf || ops[i] is Unreachable)
}

/// What a decoded function lowers to: its IR operations, register count,
/// parameter types and result type, or the refusal.
pub open spec fn lowering(d: DecodedView) -> Result<
    (Seq<Op>, nat, Seq<IntegerType>, IntegerType),
    IrError,
> {
    match signature_of(d) {
        Err(e) => Err(e),
        Ok((params, result)) => {
            let locals = match d.locals {
                Some(decls) => local_count(decls, params.len()),
                None => None,
            };
            if locals is None || locals->Some_0 > 65536 || d.ops is None {
                Err(unsupported_feature())
            } else {
                let n = locals->Some_0;
                let ops = d.ops->Some_0;
                if structured(ops) {
                    match control_lowering(ops, n) {
                        Err(e) => Err(e),
                        Ok((lowered, registers)) => Ok((lowered, registers, params, result)),
                    }
                } else {
                    match straight_run(straight_start(n), ops) {
                        Err(e) => Err(e),
                        Ok(t) => Ok((t.ops, if t.next == 0 { 1 } else { t.next }, params, result)),
                    }
                }
            }
        },
    }
}

/// One exported WebAssembly function lowered to a register program.
pub struct Function {
    program: Program,
    parameters: Vec<IntegerType>,
    result: IntegerType,
}

impl Function {
    pub closed spec fn ops_view(&self) -> Seq<Op> {
        self.program.ops_view()
    }

    pub closed spec fn registers_view(&self) -> nat {
        self.program.registers_view()
    }

    pub closed spec fn fused_view(&self) -> nat {
        self.program.fused_pairs_view()
    }

    pub closed spec fn parameters_view(&self) -> Seq<IntegerType> {
        self.parameters@
    }

    pub closed spec fn result_view(&self) -> IntegerType {
        self.result
    }

    /// Lower a decoded function. The signature must be integers only, the
    /// locals integers and at most 65536 in all; a body with blocks, loops,
    /// conditionals, branches or traps is lowered with structured control.
    pub fn lower(decoded: &DecodedFunction, fusion: bool) -> (r: Result<Self, IrError>)
        ensures
            lowering(decoded@) matches Err(e) ==> r == Err::<Self, IrError>(e),
            lowering(decoded@) matches Ok((ops, n, params, result)) ==> {
                &&& r is Ok <==> program_wf(ops, n)
                &&& r matches Ok(f) ==> {
                    &&& f.ops_view() == ops
                    &&& f.registers_view() == n
                    &&& f.parameters_view() == params
                    &&& f.result_view() == result
                    &&& f.fused_view() == if fusion {
                        fused_from(ops, 0)
                    } else {
                        0
                    }
                }
            },
    {
        if decoded.results.len() != 1 {
            return Err(IrError::InvalidProgram("unsupported WebAssembly feature in experimental frontend"));
        }
        let result = match IntegerType::from_wasm(decoded.results[0]) {
            Ok(t) => t,
            Err(e) => {
                return Err(e);
            },
        };
        let mut parameters: Vec<IntegerType> = Vec::new();
        let mut i: usize = 0;
        while i < decoded.params.len()
            invariant
                i <= decoded.params@.len(),
                decoded.results@.len() == 1,
                integer_type(decoded.results@[0]) == Some(result),
                parameters@.len() == i,
                forall|k: int|
                    0 <= k < i ==> integer_type(#[trigger] decoded.params@[k]) == Some(
                        parameters@[k],
                    ),
            decreases decoded.params@.len() - i,
        {
            match IntegerType::from_wasm(decoded.params[i]) {
                Ok(t) => parameters.push(t),
                Err(e) => {
                    assert(integer_type(decoded.params@[i as int]) is None);
                    return Err(e);
                },
            }
            i = i + 1;
        }
        assert(!exists|k: int|
            0 <= k < decoded.params@.len() && integer_type(#[trigger] decoded.params@[k]) is None);
        assert(signature_of(decoded@) is Ok);
        assert(parameters@ =~= signature_of(decoded@)->Ok_0.0);
        let ghost params = parameters@;
        let decls = match &decoded.locals {
            Some(decls) => decls,
            None => {
                return Err(IrError::InvalidProgram("unsupported WebAssembly feature in experimental frontend"));
            },
        };
        let mut count: usize = parameters.len();
        let mut j: usize = 0;
        while j < decls.len()
            invariant
                j <= decls@.len(),
                signature_of(decoded@) is Ok,
                params == signature_of(decoded@)->Ok_0.0,
                decoded.locals matches Some(d) && d@ == decls@,
                local_count(decls@.subrange(0, j as int), params.len()) == Some(count as nat),
                count <= 65536 || j == 0,
            decreases decls@.len() - j,
        {
            assert(decls@.subrange(0, j + 1).drop_last() =~= decls@.subrange(0, j as int));
            match decls[j] {
                Some((c, k)) => {
                    if matches!(k, ValKind::Other) || count > 65536 || c as usize > 65536 - count {
                        proof {
                            lemma_count_stops(decls@, params.len(), (j + 1) as nat);
                        }
                        return Err(IrError::InvalidProgram("unsupported WebAssembly feature in experimental frontend"));
                    }
                    count = count + c as usize;
                },
                None => {
                    proof {
                        lemma_count_stops(decls@, params.len(), (j + 1) as nat);
                    }
                    return Err(IrError::InvalidProgram("unsupported WebAssembly feature in experimental frontend"));
                },
            }
            j = j + 1;
        }
        assert(decls@.subrange(0, decls@.len() as int) =~= decls@);
        if count > 65536 {
            return Err(IrError::InvalidProgram("unsupported WebAssembly feature in experimental frontend"));
        }
        let ops = match &decoded.ops {
            Some(ops) => ops,
            None => {
                return Err(IrError::InvalidProgram("unsupported WebAssembly feature in experimental frontend"));
            },
        };
        let (lowered, registers) = if is_structured(ops.as_slice()) {
            match lower_structured(ops.as_slice(), count) {
                Ok(pair) => pair,
                Err(e) => {
                    return Err(e);
                },
            }
        } else {
            match lower_straight(ops.as_slice(), count) {
                Ok(l) => {
                    let registers = if l.next == 0 {
                        1
                    } else {
                        l.next
                    };
                    (l.ops, registers)
                },
                Err(e) => {
                    return Err(e);
                },
            }
        };
        let r = Program::compile(lowered.as_slice(), registers, fusion);
        proof {
            if crate::runtime::limits_ok(lowered@.len(), registers as nat) {
                lemma_first_fault(lowered@, registers as nat, 0);
            }
        }
        match r {
            Ok(program) => Ok(Function { program, parameters, result }),
            Err(e) => Err(e),
        }
    }

    /// Validate the whole module, then lower the function exported as `export`.
    /// Only a module of at most 16 MiB that wasmparser validates is read.
    pub fn compile(bytes: &[u8], export: &str, fusion: bool) -> (r: Result<Self, IrError>)
        ensures
            bytes@.len() > 16 * 1024 * 1024 ==> r == Err::<Self, IrError>(
                IrError::InvalidProgram("module byte limit"),
            ),
            bytes@.len() <= 16 * 1024 * 1024 && !wasm_valid(bytes@) ==> r == Err::<Self, IrError>(
                IrError::InvalidProgram("invalid WebAssembly"),
            ),
            bytes@.len() <= 16 * 1024 * 1024 && wasm_valid(bytes@) ==> match decode_spec(
                bytes@,
                export@,
            ) {
                Err(e) => r == Err::<Self, IrError>(e),
                Ok(d) => match lowering(d) {
                    Err(e) => r == Err::<Self, IrError>(e),
                    Ok((ops, n, params, result)) => {
                        &&& r is Ok <==> program_wf(ops, n)
                        &&& r matches Ok(f) ==> {
                            &&& f.ops_view() == ops
                            &&& f.registers_view() == n
                            &&& f.parameters_view() == params
                            &&& f.result_view() == result
                            &&& f.fused_view() == if fusion {
                                fused_from(ops, 0)
                            } else {
                                0
                            }
                        }
                    },
                },
            },
    {
        match check_module(bytes) {
            Ok(()) => {},
            Err(e) => {
                return Err(e);
            },
        }
        let decoded = match decode_export(bytes, export) {
            Ok(d) => d,
            Err(e) => {
                return Err(e);
            },
        };
        Self::lower(&decoded, fusion)
    }

    pub fn parameter_types(&self) -> (r: &[IntegerType])
        ensures
            r@ == self.parameters_view(),
    {
        self.parameters.as_slice()
    }

    pub fn result_type(&self) -> (r: IntegerType)
        ensures
            r == self.result_view(),
    {
        self.result
    }

    /// Arguments and results carry integer bit patterns: i32 arguments use
    /// their low 32 bits and i32 results are zero extended. Signedness belongs
    /// to each operator, not to the signature.
    pub fn run(&self, args: &[u64], fuel: u64) -> (r: Result<Outcome, IrError>)
        ensures
            args@.len() != self.parameters_view().len() ==> r == Err::<Outcome, IrError>(
                IrError::InvalidArguments,
            ),
            args@.len() == self.parameters_view().len() ==> r == run_result(
                self.ops_view(),
                self.registers_view(),
                normalized_args(self.parameters_view(), args@),
                Seq::empty(),
                fuel,
            ).0,
    {
        if args.len() != self.parameters.len() {
            return Err(IrError::InvalidArguments);
        }
        let mut normalized: Vec<u64> = Vec::new();
        let mut i: usize = 0;
        while i < args.len()
            invariant
                i <= args@.len(),
                args@.len() == self.parameters@.len(),
                normalized@ == normalized_args(self.parameters@, args@).subrange(0, i as int),
            decreases args@.len() - i,
        {
            normalized.push(self.parameters[i].normalize(args[i]));
            i = i + 1;
            assert(normalized@ =~= normalized_args(self.parameters@, args@).subrange(0, i as int));
        }
        assert(normalized@ =~= normalized_args(self.parameters@, args@));
        let mut memory: Vec<u8> = Vec::new();
        assert(memory@ =~= Seq::<u8>::empty());
        self.program.run(normalized.as_slice(), memory.as_mut_slice(), fuel)
    }

    pub fn fused_pairs(&self) -> (r: usize)
        ensures
            r == self.fused_view(),
    {
        self.program.fused_pairs()
    }
}

fn is_structured(ops: &[WasmOp]) -> (r: bool)
    ensures
        r == structured(ops@),
{
    let mut i: usize = 0;
    while i < ops.len()
        invariant
            i <= ops@.len(),
            forall|k: int|
                0 <= k < i ==> !(ops@[k] is Block || ops@[k] is Loop || ops@[k] is If
                    || ops@[k] is Br || ops@[k] is BrIf || ops@[k] is Unreachable),
        decreases ops@.len() - i,
    {
        if matches!(
            ops[i],
            WasmOp::Block(_) | WasmOp::Loop(_) | WasmOp::If(_) | WasmOp::Br(_) | WasmOp::BrIf(_)
                | WasmOp::Unreachable
        ) {
            return true;
        }
        i = i + 1;
    }
    false
}

proof fn lemma_count_stops(decls: Seq<Option<(u32, ValKind)>>, count: nat, k: nat)
    requires
        k <= decls.len(),
        local_count(decls.subrange(0, k as int), count) is None,
    ensures
        local_count(decls, count) is None,
    decreases decls.len() - k,
{
    if k < decls.len() {
        assert(decls.subrange(0, k as int + 1).drop_last() =~= decls.subrange(0, k as int));
        lemma_count_stops(decls, count, k + 1);
    } else {
        assert(decls.subrange(0, k as int) =~= decls);
    }
}

} // verus!
