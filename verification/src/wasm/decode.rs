//! Reading one exported function out of a WebAssembly module with wasmparser.
//!
//! wasmparser validates the module and reads it. Each read below goes back to
//! the module's bytes and turns one item that wasmparser yields, variant for
//! variant, into a plain value; what it yields for given bytes and positions
//! is named, not restated. Which payloads a module may hold, how the export is
//! found, which value types count as integers and how operators map onto the
//! frontend's are decided by the verified code of this module.
use crate::integer::{Int32, Int64, Unary64};
use crate::runtime::Error as IrError;
use crate::text::str_eq;
use vstd::prelude::*;
use wasmparser::{BlockType, ExternalKind, Operator, Parser, Payload, ValType, Validator};

verus! {

/// A wasmparser value type, variant for variant.
#[derive(Clone, Copy, Debug, PartialEq, Eq, Structural)]
pub enum ValView {
    I32,
    I64,
    F32,
    F64,
    V128,
    Ref,
}

/// A wasmparser export kind, variant for variant.
#[derive(Clone, Copy, Debug, PartialEq, Eq, Structural)]
pub enum ExternView {
    Func,
    Table,
    Memory,
    Global,
    Tag,
    FuncExact,
}

/// A wasmparser block type by its variant: empty, one value type, or a type index.
#[derive(Clone, Copy, Debug, PartialEq, Eq, Structural)]
pub enum BlockView {
    Empty,
    Type,
    Func(u32),
}

/// A payload of wasmparser's module parser. The payloads the frontend reads
/// keep their variant, with an entry count for a section; any other carries
/// the section id wasmparser gives it. `Missing` is past the last payload.
#[derive(Clone, Copy, Debug, PartialEq, Eq, Structural)]
pub enum PayloadView {
    Missing,
    Unreadable,
    Version,
    Types(u32),
    Functions(u32),
    Exports(u32),
    Custom,
    CodeStart,
    CodeEntry,
    End,
    Section(Option<u8>),
}

/// The i32-to-i64 extensions and the zero tests, variant for variant.
#[derive(Clone, Copy, Debug, PartialEq, Eq, Structural)]
pub enum MiscOp {
    ExtendI32U,
    ExtendI32S,
    I64Eqz,
    I32Eqz,
}

/// Which structured operator opens a label.
#[derive(Clone, Copy, Debug, PartialEq, Eq, Structural)]
pub enum Opener {
    Block,
    Loop,
    If,
}

/// A value type as the frontend sees it.
#[derive(Clone, Copy, Debug, PartialEq, Eq, Structural)]
pub enum ValKind {
    I32,
    I64,
    Other,
}

/// A block's type: no result, one integer result, or anything else.
#[derive(Clone, Copy, Debug, PartialEq, Eq, Structural)]
pub enum BlockKind {
    Empty,
    Value,
    Other,
}

/// One operator of a function body. `Other` is an operator the frontend does
/// not lower; `Unreadable` is a read that failed.
#[derive(Clone, Copy, Debug, PartialEq, Eq, Structural)]
pub enum WasmOp {
    I64Const(i64),
    I32Const(i32),
    LocalGet(u32),
    LocalSet(u32),
    LocalTee(u32),
    Select,
    Drop,
    Nop,
    ExtendI32U,
    Eqz,
    Add,
    Mul,
    DivS,
    Int64(Int64),
    Int32(Int32),
    Unary(Unary64),
    Block(BlockKind),
    Loop(BlockKind),
    If(BlockKind),
    Else,
    End,
    Br(u32),
    BrIf(u32),
    Return,
    Unreachable,
    Other,
    Unreadable,
}

/// What wasmparser's validator reports of `bytes`: `None` when it accepts them as
/// a module, else the text of its error (message and offset).
pub uninterp spec fn wasm_validation_error(bytes: Seq<u8>) -> Option<Seq<char>>;

/// Whether wasmparser's validator accepts `bytes` as a module.
pub open spec fn wasm_valid(bytes: Seq<u8>) -> bool {
    wasm_validation_error(bytes) is None
}

/// `Validator::validate_all` of wasmparser, with its default features, and the
/// `Display` text of its error. Both depend on `bytes` alone.
#[verifier::external_body]
pub(crate) fn validation_error(bytes: &[u8]) -> (r: Option<String>)
    ensures
        match r {
            Some(text) => wasm_validation_error(bytes@) == Some(text@),
            None => wasm_validation_error(bytes@) is None,
        },
{
    match Validator::new().validate_all(bytes) {
        Ok(_) => None,
        Err(error) => Some(format!("{error}")),
    }
}


/// How many payloads wasmparser's `Parser::parse_all` yields for `bytes`.
pub uninterp spec fn wasm_payload_count(bytes: Seq<u8>) -> usize;

/// The `i`-th payload wasmparser yields for `bytes`.
pub uninterp spec fn wasm_payload(bytes: Seq<u8>, i: usize) -> PayloadView;

/// The parameter and result counts of function type `j` of type section `i`,
/// or `None` where the entry cannot be read as a function type.
pub uninterp spec fn wasm_type_shape(bytes: Seq<u8>, i: usize, j: usize) -> Option<(usize, usize)>;

/// Parameter `k` of function type `j` of type section `i`.
pub uninterp spec fn wasm_param(bytes: Seq<u8>, i: usize, j: usize, k: usize) -> Option<ValView>;

/// Result `k` of function type `j` of type section `i`.
pub uninterp spec fn wasm_result(bytes: Seq<u8>, i: usize, j: usize, k: usize) -> Option<ValView>;

/// Entry `j` of function section `i`: a type index.
pub uninterp spec fn wasm_type_index(bytes: Seq<u8>, i: usize, j: usize) -> Option<u32>;

/// Entry `j` of export section `i`: its name and index.
pub uninterp spec fn wasm_export_entry(bytes: Seq<u8>, i: usize, j: usize) -> Option<(Seq<char>, u32)>;

/// Entry `j` of export section `i`: its kind.
pub uninterp spec fn wasm_export_kind(bytes: Seq<u8>, i: usize, j: usize) -> Option<ExternView>;

/// The number of local declarations of code entry `i`.
pub uninterp spec fn wasm_local_count(bytes: Seq<u8>, i: usize) -> Option<u32>;

/// Local declaration `j` of code entry `i`: a count and a value type.
pub uninterp spec fn wasm_local(bytes: Seq<u8>, i: usize, j: usize) -> Option<(u32, ValView)>;

/// The number of operator reads of code entry `i`.
pub uninterp spec fn wasm_op_count(bytes: Seq<u8>, i: usize) -> Option<usize>;

/// Whether operator read `k` of code entry `i` succeeded.
pub uninterp spec fn wasm_op_ok(bytes: Seq<u8>, i: usize, k: usize) -> bool;

/// Operator `k` of code entry `i`, where it is a constant, local, select, drop or nop.
pub uninterp spec fn wasm_value_op(bytes: Seq<u8>, i: usize, k: usize) -> Option<WasmOp>;

/// Operator `k` of code entry `i`, where it is an extension or a zero test.
pub uninterp spec fn wasm_misc_op(bytes: Seq<u8>, i: usize, k: usize) -> Option<MiscOp>;

/// The type of operator `k` of code entry `i`, where it is a typed select.
pub uninterp spec fn wasm_select_type(bytes: Seq<u8>, i: usize, k: usize) -> Option<ValView>;

/// Operator `k` of code entry `i`, where it opens a block, loop or conditional.
pub uninterp spec fn wasm_opener(bytes: Seq<u8>, i: usize, k: usize) -> Option<Opener>;

/// The block type of operator `k` of code entry `i`, where it opens a label.
pub uninterp spec fn wasm_block_type(bytes: Seq<u8>, i: usize, k: usize) -> Option<BlockView>;

/// The value type of the block type of operator `k` of code entry `i`.
pub uninterp spec fn wasm_block_value(bytes: Seq<u8>, i: usize, k: usize) -> Option<ValView>;

/// Operator `k` of code entry `i`, where it is a branch, end, return or trap.
pub uninterp spec fn wasm_branch_op(bytes: Seq<u8>, i: usize, k: usize) -> Option<WasmOp>;

/// Operator `k` of code entry `i`, where it is i64 add, mul, div_s, sub or and.
pub uninterp spec fn wasm_i64_arith_a(bytes: Seq<u8>, i: usize, k: usize) -> Option<WasmOp>;

/// Operator `k` of code entry `i`, where it is i64 or, xor or a shift.
pub uninterp spec fn wasm_i64_arith_b(bytes: Seq<u8>, i: usize, k: usize) -> Option<Int64>;

/// Operator `k` of code entry `i`, where it is an i64 rotate, div_u, remainder or equality.
pub uninterp spec fn wasm_i64_rest(bytes: Seq<u8>, i: usize, k: usize) -> Option<Int64>;

/// Operator `k` of code entry `i`, where it is an i64 ordering.
pub uninterp spec fn wasm_i64_order(bytes: Seq<u8>, i: usize, k: usize) -> Option<Int64>;

/// Operator `k` of code entry `i`, where it is i32 add, mul, div_s, sub or and.
pub uninterp spec fn wasm_i32_arith_a(bytes: Seq<u8>, i: usize, k: usize) -> Option<Int32>;

/// Operator `k` of code entry `i`, where it is i32 or, xor or a shift.
pub uninterp spec fn wasm_i32_arith_b(bytes: Seq<u8>, i: usize, k: usize) -> Option<Int32>;

/// Operator `k` of code entry `i`, where it is an i32 rotate, div_u, remainder or equality.
pub uninterp spec fn wasm_i32_rest(bytes: Seq<u8>, i: usize, k: usize) -> Option<Int32>;

/// Operator `k` of code entry `i`, where it is an i32 ordering.
pub uninterp spec fn wasm_i32_order(bytes: Seq<u8>, i: usize, k: usize) -> Option<Int32>;

/// Operator `k` of code entry `i`, where it is an i32 bit count, wrap or sign extension.
pub uninterp spec fn wasm_i32_unary(bytes: Seq<u8>, i: usize, k: usize) -> Option<Unary64>;

/// Operator `k` of code entry `i`, where it is an i64 bit count or in-place sign extension.
pub uninterp spec fn wasm_i64_unary(bytes: Seq<u8>, i: usize, k: usize) -> Option<Unary64>;

/// `Parser::parse_all` of wasmparser, counted.
#[verifier::external_body]
fn payload_count(bytes: &[u8]) -> (r: usize)
    ensures
        r == wasm_payload_count(bytes@),
{
    Parser::new(0).parse_all(bytes).count()
}

/// Payload `i` of `Parser::parse_all`, by its variant.
#[verifier::external_body]
fn payload_at(bytes: &[u8], i: usize) -> (r: PayloadView)
    ensures
        r == wasm_payload(bytes@, i),
{
    let payload = match Parser::new(0).parse_all(bytes).nth(i) { None => return PayloadView::Missing, Some(Err(_)) => return PayloadView::Unreadable, Some(Ok(p)) => p };
    match payload {
        Payload::Version { .. } => PayloadView::Version,
        Payload::TypeSection(r) => PayloadView::Types(r.count()),
        Payload::FunctionSection(r) => PayloadView::Functions(r.count()),
        Payload::ExportSection(r) => PayloadView::Exports(r.count()),
        Payload::CustomSection(_) => PayloadView::Custom,
        Payload::CodeSectionStart { .. } => PayloadView::CodeStart,
        Payload::CodeSectionEntry(_) => PayloadView::CodeEntry,
        Payload::End(_) => PayloadView::End,
        other => PayloadView::Section(other.as_section().map(|s| s.0)),
    }
}

/// `into_iter_err_on_gc_types` of type section `i`, entry `j`: its counts.
#[verifier::external_body]
fn type_shape(bytes: &[u8], i: usize, j: usize) -> (r: Option<(usize, usize)>)
    ensures
        r == wasm_type_shape(bytes@, i, j),
{
    let ty = match Parser::new(0).parse_all(bytes).nth(i) { Some(Ok(Payload::TypeSection(r))) => r.into_iter_err_on_gc_types().nth(j), _ => None };
    match ty {
        Some(Ok(t)) => Some((t.params().len(), t.results().len())),
        _ => None,
    }
}

/// `FuncType::params` of type section `i`, entry `j`, item `k`.
#[verifier::external_body]
fn param_at(bytes: &[u8], i: usize, j: usize, k: usize) -> (r: Option<ValView>)
    ensures
        r == wasm_param(bytes@, i, j, k),
{
    let ty = match Parser::new(0).parse_all(bytes).nth(i) { Some(Ok(Payload::TypeSection(r))) => r.into_iter_err_on_gc_types().nth(j), _ => None };
    let t = match ty { Some(Ok(t)) => t, _ => return None };
    Some(match t.params().get(k)? {
        ValType::I32 => ValView::I32,
        ValType::I64 => ValView::I64,
        ValType::F32 => ValView::F32,
        ValType::F64 => ValView::F64,
        ValType::V128 => ValView::V128,
        ValType::Ref(_) => ValView::Ref,
    })
}

/// `FuncType::results` of type section `i`, entry `j`, item `k`.
#[verifier::external_body]
fn result_at(bytes: &[u8], i: usize, j: usize, k: usize) -> (r: Option<ValView>)
    ensures
        r == wasm_result(bytes@, i, j, k),
{
    let ty = match Parser::new(0).parse_all(bytes).nth(i) { Some(Ok(Payload::TypeSection(r))) => r.into_iter_err_on_gc_types().nth(j), _ => None };
    let t = match ty { Some(Ok(t)) => t, _ => return None };
    Some(match t.results().get(k)? {
        ValType::I32 => ValView::I32,
        ValType::I64 => ValView::I64,
        ValType::F32 => ValView::F32,
        ValType::F64 => ValView::F64,
        ValType::V128 => ValView::V128,
        ValType::Ref(_) => ValView::Ref,
    })
}

/// Entry `j` of function section `i`.
#[verifier::external_body]
fn type_index_at(bytes: &[u8], i: usize, j: usize) -> (r: Option<u32>)
    ensures
        r == wasm_type_index(bytes@, i, j),
{
    match Parser::new(0).parse_all(bytes).nth(i) {
        Some(Ok(Payload::FunctionSection(r))) => r.into_iter().nth(j)?.ok(),
        _ => None,
    }
}

/// Entry `j` of export section `i`: `Export::name` and `Export::index`.
#[verifier::external_body]
fn export_entry_at(bytes: &[u8], i: usize, j: usize) -> (r: Option<(String, u32)>)
    ensures
        match r {
            Some((name, index)) => wasm_export_entry(bytes@, i, j) == Some((name@, index)),
            None => wasm_export_entry(bytes@, i, j) is None,
        },
{
    match Parser::new(0).parse_all(bytes).nth(i) {
        Some(Ok(Payload::ExportSection(r))) => r.into_iter().nth(j)?.ok().map(|e| (e.name.to_string(), e.index)),
        _ => None,
    }
}

/// Entry `j` of export section `i`: `Export::kind`.
#[verifier::external_body]
fn export_kind_at(bytes: &[u8], i: usize, j: usize) -> (r: Option<ExternView>)
    ensures
        r == wasm_export_kind(bytes@, i, j),
{
    let entry = match Parser::new(0).parse_all(bytes).nth(i) { Some(Ok(Payload::ExportSection(r))) => r.into_iter().nth(j)?.ok()?, _ => return None };
    Some(match entry.kind {
        ExternalKind::Func => ExternView::Func,
        ExternalKind::Table => ExternView::Table,
        ExternalKind::Memory => ExternView::Memory,
        ExternalKind::Global => ExternView::Global,
        ExternalKind::Tag => ExternView::Tag,
        ExternalKind::FuncExact => ExternView::FuncExact,
    })
}

/// `LocalsReader::get_count` of code entry `i`.
#[verifier::external_body]
fn local_count_at(bytes: &[u8], i: usize) -> (r: Option<u32>)
    ensures
        r == wasm_local_count(bytes@, i),
{
    match Parser::new(0).parse_all(bytes).nth(i) {
        Some(Ok(Payload::CodeSectionEntry(b))) => b.get_locals_reader().ok().map(|r| r.get_count()),
        _ => None,
    }
}

/// Local declaration `j` of code entry `i`.
#[verifier::external_body]
fn local_at(bytes: &[u8], i: usize, j: usize) -> (r: Option<(u32, ValView)>)
    ensures
        r == wasm_local(bytes@, i, j),
{
    let entry = match Parser::new(0).parse_all(bytes).nth(i) { Some(Ok(Payload::CodeSectionEntry(b))) => b.get_locals_reader().ok()?.into_iter().nth(j)?.ok()?, _ => return None };
    Some((entry.0, match entry.1 {
        ValType::I32 => ValView::I32,
        ValType::I64 => ValView::I64,
        ValType::F32 => ValView::F32,
        ValType::F64 => ValView::F64,
        ValType::V128 => ValView::V128,
        ValType::Ref(_) => ValView::Ref,
    }))
}

/// The number of items the operators reader of code entry `i` yields.
#[verifier::external_body]
fn op_count_at(bytes: &[u8], i: usize) -> (r: Option<usize>)
    ensures
        r == wasm_op_count(bytes@, i),
{
    match Parser::new(0).parse_all(bytes).nth(i) {
        Some(Ok(Payload::CodeSectionEntry(b))) => b.get_operators_reader().ok().map(|r| r.into_iter().count()),
        _ => None,
    }
}

/// Whether item `k` of the operators reader of code entry `i` is an operator.
#[verifier::external_body]
fn op_ok_at(bytes: &[u8], i: usize, k: usize) -> (r: bool)
    ensures
        r == wasm_op_ok(bytes@, i, k),
{
    let reader = match Parser::new(0).parse_all(bytes).nth(i) { Some(Ok(Payload::CodeSectionEntry(b))) => b.get_operators_reader().ok(), _ => None };
    matches!(reader.and_then(|r| r.into_iter().nth(k)), Some(Ok(_)))
}

/// Operator `k` of code entry `i`, by its variant: Constants, locals, select, drop and nop.
#[verifier::external_body]
fn value_op_at(bytes: &[u8], i: usize, k: usize) -> (r: Option<WasmOp>)
    ensures
        r == wasm_value_op(bytes@, i, k),
{
    let reader = match Parser::new(0).parse_all(bytes).nth(i) { Some(Ok(Payload::CodeSectionEntry(b))) => b.get_operators_reader().ok(), _ => None };
    let op = match reader.and_then(|r| r.into_iter().nth(k)) { Some(Ok(op)) => op, _ => return None };
    Some(match op {
        Operator::I64Const { value } => WasmOp::I64Const(value),
        Operator::I32Const { value } => WasmOp::I32Const(value),
        Operator::LocalGet { local_index } => WasmOp::LocalGet(local_index),
        Operator::LocalSet { local_index } => WasmOp::LocalSet(local_index),
        Operator::LocalTee { local_index } => WasmOp::LocalTee(local_index),
        Operator::Select => WasmOp::Select,
        Operator::Drop => WasmOp::Drop,
        Operator::Nop => WasmOp::Nop,
        _ => return None,
    })
}

/// Operator `k` of code entry `i`, by its variant: Extensions and zero tests.
#[verifier::external_body]
fn misc_op_at(bytes: &[u8], i: usize, k: usize) -> (r: Option<MiscOp>)
    ensures
        r == wasm_misc_op(bytes@, i, k),
{
    let reader = match Parser::new(0).parse_all(bytes).nth(i) { Some(Ok(Payload::CodeSectionEntry(b))) => b.get_operators_reader().ok(), _ => None };
    let op = match reader.and_then(|r| r.into_iter().nth(k)) { Some(Ok(op)) => op, _ => return None };
    Some(match op {
        Operator::I64ExtendI32U => MiscOp::ExtendI32U,
        Operator::I64ExtendI32S => MiscOp::ExtendI32S,
        Operator::I64Eqz => MiscOp::I64Eqz,
        Operator::I32Eqz => MiscOp::I32Eqz,
        _ => return None,
    })
}

/// Operator `k` of code entry `i`, by its variant: The type of a typed select.
#[verifier::external_body]
fn select_type_at(bytes: &[u8], i: usize, k: usize) -> (r: Option<ValView>)
    ensures
        r == wasm_select_type(bytes@, i, k),
{
    let reader = match Parser::new(0).parse_all(bytes).nth(i) { Some(Ok(Payload::CodeSectionEntry(b))) => b.get_operators_reader().ok(), _ => None };
    let op = match reader.and_then(|r| r.into_iter().nth(k)) { Some(Ok(op)) => op, _ => return None };
    Some(match op {
        Operator::TypedSelect { ty: ValType::I32 } => ValView::I32,
        Operator::TypedSelect { ty: ValType::I64 } => ValView::I64,
        Operator::TypedSelect { ty: ValType::F32 } => ValView::F32,
        Operator::TypedSelect { ty: ValType::F64 } => ValView::F64,
        Operator::TypedSelect { ty: ValType::V128 } => ValView::V128,
        Operator::TypedSelect { ty: ValType::Ref(_) } => ValView::Ref,
        _ => return None,
    })
}

/// Operator `k` of code entry `i`, by its variant: Blocks, loops and conditionals.
#[verifier::external_body]
fn opener_at(bytes: &[u8], i: usize, k: usize) -> (r: Option<Opener>)
    ensures
        r == wasm_opener(bytes@, i, k),
{
    let reader = match Parser::new(0).parse_all(bytes).nth(i) { Some(Ok(Payload::CodeSectionEntry(b))) => b.get_operators_reader().ok(), _ => None };
    let op = match reader.and_then(|r| r.into_iter().nth(k)) { Some(Ok(op)) => op, _ => return None };
    Some(match op {
        Operator::Block { .. } => Opener::Block,
        Operator::Loop { .. } => Opener::Loop,
        Operator::If { .. } => Opener::If,
        _ => return None,
    })
}

/// Operator `k` of code entry `i`, by its variant: Branches, ends, returns and traps.
#[verifier::external_body]
fn branch_op_at(bytes: &[u8], i: usize, k: usize) -> (r: Option<WasmOp>)
    ensures
        r == wasm_branch_op(bytes@, i, k),
{
    let reader = match Parser::new(0).parse_all(bytes).nth(i) { Some(Ok(Payload::CodeSectionEntry(b))) => b.get_operators_reader().ok(), _ => None };
    let op = match reader.and_then(|r| r.into_iter().nth(k)) { Some(Ok(op)) => op, _ => return None };
    Some(match op {
        Operator::Else => WasmOp::Else,
        Operator::End => WasmOp::End,
        Operator::Br { relative_depth } => WasmOp::Br(relative_depth),
        Operator::BrIf { relative_depth } => WasmOp::BrIf(relative_depth),
        Operator::Return => WasmOp::Return,
        Operator::Unreachable => WasmOp::Unreachable,
        _ => return None,
    })
}

/// Operator `k` of code entry `i`, by its variant: i64 add, mul, div_s, sub and and.
#[verifier::external_body]
fn i64_arith_a_at(bytes: &[u8], i: usize, k: usize) -> (r: Option<WasmOp>)
    ensures
        r == wasm_i64_arith_a(bytes@, i, k),
{
    let reader = match Parser::new(0).parse_all(bytes).nth(i) { Some(Ok(Payload::CodeSectionEntry(b))) => b.get_operators_reader().ok(), _ => None };
    let op = match reader.and_then(|r| r.into_iter().nth(k)) { Some(Ok(op)) => op, _ => return None };
    Some(match op {
        Operator::I64Add => WasmOp::Add,
        Operator::I64Mul => WasmOp::Mul,
        Operator::I64DivS => WasmOp::DivS,
        Operator::I64Sub => WasmOp::Int64(Int64::Sub),
        Operator::I64And => WasmOp::Int64(Int64::And),
        _ => return None,
    })
}

/// Operator `k` of code entry `i`, by its variant: i64 or, xor and shifts.
#[verifier::external_body]
fn i64_arith_b_at(bytes: &[u8], i: usize, k: usize) -> (r: Option<Int64>)
    ensures
        r == wasm_i64_arith_b(bytes@, i, k),
{
    let reader = match Parser::new(0).parse_all(bytes).nth(i) { Some(Ok(Payload::CodeSectionEntry(b))) => b.get_operators_reader().ok(), _ => None };
    let op = match reader.and_then(|r| r.into_iter().nth(k)) { Some(Ok(op)) => op, _ => return None };
    Some(match op {
        Operator::I64Or => Int64::Or,
        Operator::I64Xor => Int64::Xor,
        Operator::I64Shl => Int64::Shl,
        Operator::I64ShrS => Int64::ShrS,
        Operator::I64ShrU => Int64::ShrU,
        _ => return None,
    })
}

/// Operator `k` of code entry `i`, by its variant: i64 rotates, unsigned division, remainders and equality.
#[verifier::external_body]
fn i64_rest_at(bytes: &[u8], i: usize, k: usize) -> (r: Option<Int64>)
    ensures
        r == wasm_i64_rest(bytes@, i, k),
{
    let reader = match Parser::new(0).parse_all(bytes).nth(i) { Some(Ok(Payload::CodeSectionEntry(b))) => b.get_operators_reader().ok(), _ => None };
    let op = match reader.and_then(|r| r.into_iter().nth(k)) { Some(Ok(op)) => op, _ => return None };
    Some(match op {
        Operator::I64Rotl => Int64::Rotl,
        Operator::I64Rotr => Int64::Rotr,
        Operator::I64DivU => Int64::DivU,
        Operator::I64RemS => Int64::RemS,
        Operator::I64RemU => Int64::RemU,
        Operator::I64Eq => Int64::Eq,
        Operator::I64Ne => Int64::Ne,
        _ => return None,
    })
}

/// Operator `k` of code entry `i`, by its variant: i64 orderings.
#[verifier::external_body]
fn i64_order_at(bytes: &[u8], i: usize, k: usize) -> (r: Option<Int64>)
    ensures
        r == wasm_i64_order(bytes@, i, k),
{
    let reader = match Parser::new(0).parse_all(bytes).nth(i) { Some(Ok(Payload::CodeSectionEntry(b))) => b.get_operators_reader().ok(), _ => None };
    let op = match reader.and_then(|r| r.into_iter().nth(k)) { Some(Ok(op)) => op, _ => return None };
    Some(match op {
        Operator::I64LtS => Int64::LtS,
        Operator::I64LtU => Int64::LtU,
        Operator::I64GtS => Int64::GtS,
        Operator::I64GtU => Int64::GtU,
        Operator::I64LeS => Int64::LeS,
        Operator::I64LeU => Int64::LeU,
        Operator::I64GeS => Int64::GeS,
        Operator::I64GeU => Int64::GeU,
        _ => return None,
    })
}

/// Operator `k` of code entry `i`, by its variant: i32 add, mul, div_s, sub and and.
#[verifier::external_body]
fn i32_arith_a_at(bytes: &[u8], i: usize, k: usize) -> (r: Option<Int32>)
    ensures
        r == wasm_i32_arith_a(bytes@, i, k),
{
    let reader = match Parser::new(0).parse_all(bytes).nth(i) { Some(Ok(Payload::CodeSectionEntry(b))) => b.get_operators_reader().ok(), _ => None };
    let op = match reader.and_then(|r| r.into_iter().nth(k)) { Some(Ok(op)) => op, _ => return None };
    Some(match op {
        Operator::I32Add => Int32::Add,
        Operator::I32Mul => Int32::Mul,
        Operator::I32DivS => Int32::DivS,
        Operator::I32Sub => Int32::Sub,
        Operator::I32And => Int32::And,
        _ => return None,
    })
}

/// Operator `k` of code entry `i`, by its variant: i32 or, xor and shifts.
#[verifier::external_body]
fn i32_arith_b_at(bytes: &[u8], i: usize, k: usize) -> (r: Option<Int32>)
    ensures
        r == wasm_i32_arith_b(bytes@, i, k),
{
    let reader = match Parser::new(0).parse_all(bytes).nth(i) { Some(Ok(Payload::CodeSectionEntry(b))) => b.get_operators_reader().ok(), _ => None };
    let op = match reader.and_then(|r| r.into_iter().nth(k)) { Some(Ok(op)) => op, _ => return None };
    Some(match op {
        Operator::I32Or => Int32::Or,
        Operator::I32Xor => Int32::Xor,
        Operator::I32Shl => Int32::Shl,
        Operator::I32ShrS => Int32::ShrS,
        Operator::I32ShrU => Int32::ShrU,
        _ => return None,
    })
}

/// Operator `k` of code entry `i`, by its variant: i32 rotates, unsigned division, remainders and equality.
#[verifier::external_body]
fn i32_rest_at(bytes: &[u8], i: usize, k: usize) -> (r: Option<Int32>)
    ensures
        r == wasm_i32_rest(bytes@, i, k),
{
    let reader = match Parser::new(0).parse_all(bytes).nth(i) { Some(Ok(Payload::CodeSectionEntry(b))) => b.get_operators_reader().ok(), _ => None };
    let op = match reader.and_then(|r| r.into_iter().nth(k)) { Some(Ok(op)) => op, _ => return None };
    Some(match op {
        Operator::I32Rotl => Int32::Rotl,
        Operator::I32Rotr => Int32::Rotr,
        Operator::I32DivU => Int32::DivU,
        Operator::I32RemS => Int32::RemS,
        Operator::I32RemU => Int32::RemU,
        Operator::I32Eq => Int32::Eq,
        Operator::I32Ne => Int32::Ne,
        _ => return None,
    })
}

/// Operator `k` of code entry `i`, by its variant: i32 orderings.
#[verifier::external_body]
fn i32_order_at(bytes: &[u8], i: usize, k: usize) -> (r: Option<Int32>)
    ensures
        r == wasm_i32_order(bytes@, i, k),
{
    let reader = match Parser::new(0).parse_all(bytes).nth(i) { Some(Ok(Payload::CodeSectionEntry(b))) => b.get_operators_reader().ok(), _ => None };
    let op = match reader.and_then(|r| r.into_iter().nth(k)) { Some(Ok(op)) => op, _ => return None };
    Some(match op {
        Operator::I32LtS => Int32::LtS,
        Operator::I32LtU => Int32::LtU,
        Operator::I32GtS => Int32::GtS,
        Operator::I32GtU => Int32::GtU,
        Operator::I32LeS => Int32::LeS,
        Operator::I32LeU => Int32::LeU,
        Operator::I32GeS => Int32::GeS,
        Operator::I32GeU => Int32::GeU,
        _ => return None,
    })
}

/// Operator `k` of code entry `i`, by its variant: i32 bit counts, wrap and sign extensions.
#[verifier::external_body]
fn i32_unary_at(bytes: &[u8], i: usize, k: usize) -> (r: Option<Unary64>)
    ensures
        r == wasm_i32_unary(bytes@, i, k),
{
    let reader = match Parser::new(0).parse_all(bytes).nth(i) { Some(Ok(Payload::CodeSectionEntry(b))) => b.get_operators_reader().ok(), _ => None };
    let op = match reader.and_then(|r| r.into_iter().nth(k)) { Some(Ok(op)) => op, _ => return None };
    Some(match op {
        Operator::I32WrapI64 => Unary64::Wrap32,
        Operator::I32Clz => Unary64::Clz32,
        Operator::I32Ctz => Unary64::Ctz32,
        Operator::I32Popcnt => Unary64::Popcnt32,
        Operator::I32Extend8S => Unary64::Extend8S32,
        Operator::I32Extend16S => Unary64::Extend16S32,
        _ => return None,
    })
}

/// Operator `k` of code entry `i`, by its variant: i64 bit counts and in-place sign extensions.
#[verifier::external_body]
fn i64_unary_at(bytes: &[u8], i: usize, k: usize) -> (r: Option<Unary64>)
    ensures
        r == wasm_i64_unary(bytes@, i, k),
{
    let reader = match Parser::new(0).parse_all(bytes).nth(i) { Some(Ok(Payload::CodeSectionEntry(b))) => b.get_operators_reader().ok(), _ => None };
    let op = match reader.and_then(|r| r.into_iter().nth(k)) { Some(Ok(op)) => op, _ => return None };
    Some(match op {
        Operator::I64Clz => Unary64::Clz,
        Operator::I64Ctz => Unary64::Ctz,
        Operator::I64Popcnt => Unary64::Popcnt,
        Operator::I64Extend8S => Unary64::Extend8S,
        Operator::I64Extend16S => Unary64::Extend16S,
        Operator::I64Extend32S => Unary64::Extend32S,
        _ => return None,
    })
}

/// The block type of operator `k` of code entry `i`, where it opens a label,
/// by its variant.
#[verifier::external_body]
fn block_type_at(bytes: &[u8], i: usize, k: usize) -> (r: Option<BlockView>)
    ensures
        r == wasm_block_type(bytes@, i, k),
{
    let reader = match Parser::new(0).parse_all(bytes).nth(i) { Some(Ok(Payload::CodeSectionEntry(b))) => b.get_operators_reader().ok(), _ => None };
    let ty = match reader.and_then(|r| r.into_iter().nth(k)) { Some(Ok(Operator::Block { blockty } | Operator::Loop { blockty } | Operator::If { blockty })) => blockty, _ => return None };
    Some(match ty {
        BlockType::Empty => BlockView::Empty,
        BlockType::Type(_) => BlockView::Type,
        BlockType::FuncType(n) => BlockView::Func(n),
    })
}

/// The value type of the block type of operator `k` of code entry `i`, where
/// it opens a label with one value.
#[verifier::external_body]
fn block_value_at(bytes: &[u8], i: usize, k: usize) -> (r: Option<ValView>)
    ensures
        r == wasm_block_value(bytes@, i, k),
{
    let reader = match Parser::new(0).parse_all(bytes).nth(i) { Some(Ok(Payload::CodeSectionEntry(b))) => b.get_operators_reader().ok(), _ => None };
    let ty = match reader.and_then(|r| r.into_iter().nth(k)) { Some(Ok(Operator::Block { blockty: BlockType::Type(t) } | Operator::Loop { blockty: BlockType::Type(t) } | Operator::If { blockty: BlockType::Type(t) })) => t, _ => return None };
    Some(match ty {
        ValType::I32 => ValView::I32,
        ValType::I64 => ValView::I64,
        ValType::F32 => ValView::F32,
        ValType::F64 => ValView::F64,
        ValType::V128 => ValView::V128,
        ValType::Ref(_) => ValView::Ref,
    })
}

/// One exported function as read from a module: its signature, its local
/// declarations (`None` where a read failed) and its operators.
pub struct DecodedFunction {
    pub params: Vec<ValKind>,
    pub results: Vec<ValKind>,
    pub locals: Option<Vec<Option<(u32, ValKind)>>>,
    pub ops: Option<Vec<WasmOp>>,
}

/// The frontend's refusal of anything it does not lower.
pub open spec fn unsupported_feature() -> IrError {
    IrError::InvalidProgram("unsupported WebAssembly feature in experimental frontend")
}

fn unsupported() -> (r: IrError)
    ensures
        r == unsupported_feature(),
{
    IrError::InvalidProgram("unsupported WebAssembly feature in experimental frontend")
}

/// What the frontend makes of a value type: i32 and i64 are integers.
pub open spec fn val_kind_spec(v: ValView) -> ValKind {
    match v {
        ValView::I32 => ValKind::I32,
        ValView::I64 => ValKind::I64,
        _ => ValKind::Other,
    }
}

fn val_kind(v: ValView) -> (r: ValKind)
    ensures
        r == val_kind_spec(v),
{
    match v {
        ValView::I32 => ValKind::I32,
        ValView::I64 => ValKind::I64,
        _ => ValKind::Other,
    }
}

/// What the frontend makes of a block type: empty, one integer, or anything else.
pub open spec fn block_kind_spec(b: Option<BlockView>, v: Option<ValView>) -> BlockKind {
    match (b, v) {
        (Some(BlockView::Empty), _) => BlockKind::Empty,
        (Some(BlockView::Type), Some(ValView::I32)) => BlockKind::Value,
        (Some(BlockView::Type), Some(ValView::I64)) => BlockKind::Value,
        _ => BlockKind::Other,
    }
}

fn block_kind(b: Option<BlockView>, v: Option<ValView>) -> (r: BlockKind)
    ensures
        r == block_kind_spec(b, v),
{
    match (b, v) {
        (Some(BlockView::Empty), _) => BlockKind::Empty,
        (Some(BlockView::Type), Some(ValView::I32)) => BlockKind::Value,
        (Some(BlockView::Type), Some(ValView::I64)) => BlockKind::Value,
        _ => BlockKind::Other,
    }
}

/// Operator `k` of code entry `i` of `b` as the frontend sees it: an
/// unreadable item, one of the operators it lowers, or `Other`. Both zero
/// tests are `Eqz`, a typed select of an integer type is `Select`, and the
/// i32-to-i64 sign extension is the 32-bit in-place one.
pub open spec fn op_spec(b: Seq<u8>, i: usize, k: usize) -> WasmOp {
    if !wasm_op_ok(b, i, k) {
        WasmOp::Unreadable
    } else if wasm_value_op(b, i, k) is Some {
        wasm_value_op(b, i, k)->Some_0
    } else if wasm_misc_op(b, i, k) is Some {
        match wasm_misc_op(b, i, k)->Some_0 {
            MiscOp::ExtendI32U => WasmOp::ExtendI32U,
            MiscOp::ExtendI32S => WasmOp::Unary(Unary64::Extend32S),
            MiscOp::I64Eqz => WasmOp::Eqz,
            MiscOp::I32Eqz => WasmOp::Eqz,
        }
    } else if wasm_select_type(b, i, k) is Some {
        let t = wasm_select_type(b, i, k)->Some_0;
        if t == ValView::I32 || t == ValView::I64 {
            WasmOp::Select
        } else {
            WasmOp::Other
        }
    } else if wasm_opener(b, i, k) is Some {
        let kind = block_kind_spec(wasm_block_type(b, i, k), wasm_block_value(b, i, k));
        match wasm_opener(b, i, k)->Some_0 {
            Opener::Block => WasmOp::Block(kind),
            Opener::Loop => WasmOp::Loop(kind),
            Opener::If => WasmOp::If(kind),
        }
    } else if wasm_branch_op(b, i, k) is Some {
        wasm_branch_op(b, i, k)->Some_0
    } else if wasm_i64_arith_a(b, i, k) is Some {
        wasm_i64_arith_a(b, i, k)->Some_0
    } else if wasm_i64_arith_b(b, i, k) is Some {
        WasmOp::Int64(wasm_i64_arith_b(b, i, k)->Some_0)
    } else if wasm_i64_rest(b, i, k) is Some {
        WasmOp::Int64(wasm_i64_rest(b, i, k)->Some_0)
    } else if wasm_i64_order(b, i, k) is Some {
        WasmOp::Int64(wasm_i64_order(b, i, k)->Some_0)
    } else if wasm_i32_arith_a(b, i, k) is Some {
        WasmOp::Int32(wasm_i32_arith_a(b, i, k)->Some_0)
    } else if wasm_i32_arith_b(b, i, k) is Some {
        WasmOp::Int32(wasm_i32_arith_b(b, i, k)->Some_0)
    } else if wasm_i32_rest(b, i, k) is Some {
        WasmOp::Int32(wasm_i32_rest(b, i, k)->Some_0)
    } else if wasm_i32_order(b, i, k) is Some {
        WasmOp::Int32(wasm_i32_order(b, i, k)->Some_0)
    } else if wasm_i32_unary(b, i, k) is Some {
        WasmOp::Unary(wasm_i32_unary(b, i, k)->Some_0)
    } else if wasm_i64_unary(b, i, k) is Some {
        WasmOp::Unary(wasm_i64_unary(b, i, k)->Some_0)
    } else {
        WasmOp::Other
    }
}

/// Operator `k` of code entry `i`, as the frontend sees it.
fn convert(bytes: &[u8], i: usize, k: usize) -> (r: WasmOp)
    ensures
        r == op_spec(bytes@, i, k),
{
    if !op_ok_at(bytes, i, k) {
        return WasmOp::Unreadable;
    }
    if let Some(w) = value_op_at(bytes, i, k) {
        return w;
    }
    if let Some(m) = misc_op_at(bytes, i, k) {
        return match m {
            MiscOp::ExtendI32U => WasmOp::ExtendI32U,
            MiscOp::ExtendI32S => WasmOp::Unary(Unary64::Extend32S),
            MiscOp::I64Eqz => WasmOp::Eqz,
            MiscOp::I32Eqz => WasmOp::Eqz,
        };
    }
    if let Some(t) = select_type_at(bytes, i, k) {
        return match t {
            ValView::I32 | ValView::I64 => WasmOp::Select,
            _ => WasmOp::Other,
        };
    }
    if let Some(opener) = opener_at(bytes, i, k) {
        let kind = block_kind(block_type_at(bytes, i, k), block_value_at(bytes, i, k));
        return match opener {
            Opener::Block => WasmOp::Block(kind),
            Opener::Loop => WasmOp::Loop(kind),
            Opener::If => WasmOp::If(kind),
        };
    }
    if let Some(w) = branch_op_at(bytes, i, k) {
        return w;
    }
    if let Some(w) = i64_arith_a_at(bytes, i, k) {
        return w;
    }
    if let Some(x) = i64_arith_b_at(bytes, i, k) {
        return WasmOp::Int64(x);
    }
    if let Some(x) = i64_rest_at(bytes, i, k) {
        return WasmOp::Int64(x);
    }
    if let Some(x) = i64_order_at(bytes, i, k) {
        return WasmOp::Int64(x);
    }
    if let Some(x) = i32_arith_a_at(bytes, i, k) {
        return WasmOp::Int32(x);
    }
    if let Some(x) = i32_arith_b_at(bytes, i, k) {
        return WasmOp::Int32(x);
    }
    if let Some(x) = i32_rest_at(bytes, i, k) {
        return WasmOp::Int32(x);
    }
    if let Some(x) = i32_order_at(bytes, i, k) {
        return WasmOp::Int32(x);
    }
    if let Some(x) = i32_unary_at(bytes, i, k) {
        return WasmOp::Unary(x);
    }
    if let Some(x) = i64_unary_at(bytes, i, k) {
        return WasmOp::Unary(x);
    }
    WasmOp::Other
}

/// A function as read from a module, as plain values.
pub struct DecodedView {
    pub params: Seq<ValKind>,
    pub results: Seq<ValKind>,
    pub locals: Option<Seq<Option<(u32, ValKind)>>>,
    pub ops: Option<Seq<WasmOp>>,
}

impl View for DecodedFunction {
    type V = DecodedView;

    open spec fn view(&self) -> DecodedView {
        DecodedView {
            params: self.params@,
            results: self.results@,
            locals: match self.locals {
                Some(l) => Some(l@),
                None => None,
            },
            ops: match self.ops {
                Some(o) => Some(o@),
                None => None,
            },
        }
    }
}

/// The value types of function type `j` of type section `i`, parameters or
/// results, from item `k` on, after `acc`.
pub open spec fn kinds_from(
    b: Seq<u8>,
    i: usize,
    j: usize,
    result: bool,
    k: nat,
    n: nat,
    acc: Seq<ValKind>,
) -> Option<Seq<ValKind>>
    decreases n - k,
{
    if k >= n {
        Some(acc)
    } else {
        let v = if result {
            wasm_result(b, i, j, k as usize)
        } else {
            wasm_param(b, i, j, k as usize)
        };
        match v {
            None => None,
            Some(t) => kinds_from(b, i, j, result, k + 1, n, acc.push(val_kind_spec(t))),
        }
    }
}

/// Signatures as plain values.
pub open spec fn sigs(v: Seq<(Vec<ValKind>, Vec<ValKind>)>) -> Seq<(Seq<ValKind>, Seq<ValKind>)> {
    Seq::new(v.len(), |k: int| (v[k].0@, v[k].1@))
}

/// The function types of type section `i` from entry `j` on, after `acc`.
pub open spec fn types_from(
    b: Seq<u8>,
    i: usize,
    j: nat,
    n: nat,
    acc: Seq<(Seq<ValKind>, Seq<ValKind>)>,
) -> Option<Seq<(Seq<ValKind>, Seq<ValKind>)>>
    decreases n - j,
{
    if j >= n {
        Some(acc)
    } else {
        match wasm_type_shape(b, i, j as usize) {
            None => None,
            Some((p, q)) => match (
                kinds_from(b, i, j as usize, false, 0, p as nat, Seq::empty()),
                kinds_from(b, i, j as usize, true, 0, q as nat, Seq::empty()),
            ) {
                (Some(ps), Some(qs)) => types_from(b, i, j + 1, n, acc.push((ps, qs))),
                _ => None,
            },
        }
    }
}

/// The type indices of function section `i` from entry `j` on, after `acc`.
pub open spec fn functions_from(b: Seq<u8>, i: usize, j: nat, n: nat, acc: Seq<u32>) -> Option<Seq<u32>>
    decreases n - j,
{
    if j >= n {
        Some(acc)
    } else {
        match wasm_type_index(b, i, j as usize) {
            None => None,
            Some(t) => functions_from(b, i, j + 1, n, acc.push(t)),
        }
    }
}

/// The function exported as `export` after export section `i` from entry `j`
/// on, `sel` before it: the last function export of that name wins.
pub open spec fn exports_from(
    b: Seq<u8>,
    i: usize,
    j: nat,
    n: nat,
    export: Seq<char>,
    sel: Option<u32>,
) -> Option<Option<u32>>
    decreases n - j,
{
    if j >= n {
        Some(sel)
    } else {
        match (wasm_export_entry(b, i, j as usize), wasm_export_kind(b, i, j as usize)) {
            (Some((name, index)), Some(kind)) => exports_from(
                b,
                i,
                j + 1,
                n,
                export,
                if kind == ExternView::Func && name == export {
                    Some(index)
                } else {
                    sel
                },
            ),
            _ => None,
        }
    }
}

/// What the frontend has gathered from the payloads read so far.
pub struct Scan {
    pub types: Seq<(Seq<ValKind>, Seq<ValKind>)>,
    pub functions: Seq<u32>,
    pub selected: Option<u32>,
    pub bodies: Seq<usize>,
}

/// Payload `i` read into `s`: the header, end, custom sections and the code
/// section's start are passed over; type, function and export sections and
/// code entries are gathered; anything else is unsupported.
pub open spec fn scan_step(b: Seq<u8>, export: Seq<char>, i: usize, s: Scan) -> Result<Scan, IrError> {
    match wasm_payload(b, i) {
        PayloadView::Version => Ok(s),
        PayloadView::End => Ok(s),
        PayloadView::Custom => Ok(s),
        PayloadView::CodeStart => Ok(s),
        PayloadView::Types(c) => match types_from(b, i, 0, c as nat, s.types) {
            Some(t) => Ok(Scan { types: t, ..s }),
            None => Err(unsupported_feature()),
        },
        PayloadView::Functions(c) => match functions_from(b, i, 0, c as nat, s.functions) {
            Some(f) => Ok(Scan { functions: f, ..s }),
            None => Err(unsupported_feature()),
        },
        PayloadView::Exports(c) => match exports_from(b, i, 0, c as nat, export, s.selected) {
            Some(sel) => Ok(Scan { selected: sel, ..s }),
            None => Err(unsupported_feature()),
        },
        PayloadView::CodeEntry => Ok(Scan { bodies: s.bodies.push(i), ..s }),
        _ => Err(unsupported_feature()),
    }
}

/// The payloads from `i` on read into `s`.
pub open spec fn scan_from(b: Seq<u8>, export: Seq<char>, i: nat, n: nat, s: Scan) -> Result<Scan, IrError>
    decreases n - i,
{
    if i >= n {
        Ok(s)
    } else {
        match scan_step(b, export, i as usize, s) {
            Err(e) => Err(e),
            Ok(t) => scan_from(b, export, i + 1, n, t),
        }
    }
}

pub open spec fn empty_scan() -> Scan {
    Scan { types: Seq::empty(), functions: Seq::empty(), selected: None, bodies: Seq::empty() }
}

/// The local declarations of code entry `i`, each `None` where it cannot be read.
pub open spec fn locals_read(b: Seq<u8>, i: usize) -> Option<Seq<Option<(u32, ValKind)>>> {
    match wasm_local_count(b, i) {
        None => None,
        Some(c) => Some(
            Seq::new(
                c as nat,
                |j: int|
                    match wasm_local(b, i, j as usize) {
                        Some((n, v)) => Some((n, val_kind_spec(v))),
                        None => None,
                    },
            ),
        ),
    }
}

/// The operators of code entry `i`, as the frontend sees them.
pub open spec fn ops_read(b: Seq<u8>, i: usize) -> Option<Seq<WasmOp>> {
    match wasm_op_count(b, i) {
        None => None,
        Some(c) => Some(Seq::new(c as nat, |k: int| op_spec(b, i, k as usize))),
    }
}

/// The function exported as `export` from the module `b`, as the frontend
/// reads it, or why it is refused.
pub open spec fn decode_spec(b: Seq<u8>, export: Seq<char>) -> Result<DecodedView, IrError> {
    match scan_from(b, export, 0, wasm_payload_count(b) as nat, empty_scan()) {
        Err(e) => Err(e),
        Ok(s) => match s.selected {
            None => Err(IrError::InvalidProgram("missing function export")),
            Some(index) => if index >= s.functions.len() || index >= s.bodies.len()
                || s.functions[index as int] >= s.types.len() {
                Err(unsupported_feature())
            } else {
                let t = s.types[s.functions[index as int] as int];
                let body = s.bodies[index as int];
                Ok(
                    DecodedView {
                        params: t.0,
                        results: t.1,
                        locals: locals_read(b, body),
                        ops: ops_read(b, body),
                    },
                )
            },
        },
    }
}

fn read_kinds(bytes: &[u8], i: usize, j: usize, result: bool, n: usize) -> (r: Option<Vec<ValKind>>)
    ensures
        match kinds_from(bytes@, i, j, result, 0, n as nat, Seq::empty()) {
            Some(s) => r matches Some(v) && v@ == s,
            None => r is None,
        },
{
    let mut out: Vec<ValKind> = Vec::new();
    let mut k: usize = 0;
    while k < n
        invariant
            k <= n,
            kinds_from(bytes@, i, j, result, 0, n as nat, Seq::empty()) == kinds_from(
                bytes@,
                i,
                j,
                result,
                k as nat,
                n as nat,
                out@,
            ),
        decreases n - k,
    {
        let v = if result {
            result_at(bytes, i, j, k)
        } else {
            param_at(bytes, i, j, k)
        };
        match v {
            None => {
                return None;
            },
            Some(t) => {
                out.push(val_kind(t));
            },
        }
        k = k + 1;
    }
    Some(out)
}

fn read_types(bytes: &[u8], i: usize, count: u32, types: &mut Vec<(Vec<ValKind>, Vec<ValKind>)>) -> (ok: bool)
    ensures
        match types_from(bytes@, i, 0, count as nat, sigs(old(types)@)) {
            Some(t) => ok && sigs(final(types)@) == t,
            None => !ok,
        },
{
    let ghost start = sigs(types@);
    let mut j: u32 = 0;
    while j < count
        invariant
            j <= count,
            start == sigs(old(types)@),
            types_from(bytes@, i, 0, count as nat, start) == types_from(
                bytes@,
                i,
                j as nat,
                count as nat,
                sigs(types@),
            ),
        decreases count - j,
    {
        let (p, q) = match type_shape(bytes, i, j as usize) {
            Some(shape) => shape,
            None => {
                return false;
            },
        };
        let params = match read_kinds(bytes, i, j as usize, false, p) {
            Some(v) => v,
            None => {
                return false;
            },
        };
        let results = match read_kinds(bytes, i, j as usize, true, q) {
            Some(v) => v,
            None => {
                return false;
            },
        };
        let ghost before = sigs(types@);
        let ghost pair = (params@, results@);
        types.push((params, results));
        assert(sigs(types@) =~= before.push(pair));
        j = j + 1;
    }
    true
}

fn read_functions(bytes: &[u8], i: usize, count: u32, functions: &mut Vec<u32>) -> (ok: bool)
    ensures
        match functions_from(bytes@, i, 0, count as nat, old(functions)@) {
            Some(f) => ok && final(functions)@ == f,
            None => !ok,
        },
{
    let mut j: u32 = 0;
    while j < count
        invariant
            j <= count,
            functions_from(bytes@, i, 0, count as nat, old(functions)@) == functions_from(
                bytes@,
                i,
                j as nat,
                count as nat,
                functions@,
            ),
        decreases count - j,
    {
        match type_index_at(bytes, i, j as usize) {
            Some(t) => functions.push(t),
            None => {
                return false;
            },
        }
        j = j + 1;
    }
    true
}

fn read_exports(bytes: &[u8], i: usize, count: u32, export: &str, selected: Option<u32>) -> (r: Option<
    Option<u32>,
>)
    ensures
        r == exports_from(bytes@, i, 0, count as nat, export@, selected),
{
    let mut sel = selected;
    let mut j: u32 = 0;
    while j < count
        invariant
            j <= count,
            exports_from(bytes@, i, 0, count as nat, export@, selected) == exports_from(
                bytes@,
                i,
                j as nat,
                count as nat,
                export@,
                sel,
            ),
        decreases count - j,
    {
        let (name, index) = match export_entry_at(bytes, i, j as usize) {
            Some(entry) => entry,
            None => {
                return None;
            },
        };
        let kind = match export_kind_at(bytes, i, j as usize) {
            Some(k) => k,
            None => {
                return None;
            },
        };
        if matches!(kind, ExternView::Func) && str_eq(name.as_str(), export) {
            sel = Some(index);
        }
        j = j + 1;
    }
    Some(sel)
}

fn read_locals(bytes: &[u8], i: usize) -> (r: Option<Vec<Option<(u32, ValKind)>>>)
    ensures
        match locals_read(bytes@, i) {
            Some(s) => r matches Some(v) && v@ == s,
            None => r is None,
        },
{
    let count = match local_count_at(bytes, i) {
        Some(c) => c,
        None => {
            return None;
        },
    };
    let ghost want = locals_read(bytes@, i)->Some_0;
    let mut out: Vec<Option<(u32, ValKind)>> = Vec::new();
    let mut j: u32 = 0;
    while j < count
        invariant
            j <= count,
            want.len() == count,
            want == locals_read(bytes@, i)->Some_0,
            wasm_local_count(bytes@, i) == Some(count),
            out@ == want.subrange(0, j as int),
        decreases count - j,
    {
        let entry = match local_at(bytes, i, j as usize) {
            Some((n, v)) => Some((n, val_kind(v))),
            None => None,
        };
        out.push(entry);
        j = j + 1;
        assert(out@ =~= want.subrange(0, j as int));
    }
    assert(want.subrange(0, count as int) =~= want);
    Some(out)
}

fn read_ops(bytes: &[u8], i: usize) -> (r: Option<Vec<WasmOp>>)
    ensures
        match ops_read(bytes@, i) {
            Some(s) => r matches Some(v) && v@ == s,
            None => r is None,
        },
{
    let count = match op_count_at(bytes, i) {
        Some(c) => c,
        None => {
            return None;
        },
    };
    let ghost want = ops_read(bytes@, i)->Some_0;
    let mut out: Vec<WasmOp> = Vec::new();
    let mut k: usize = 0;
    while k < count
        invariant
            k <= count,
            want.len() == count,
            want == ops_read(bytes@, i)->Some_0,
            wasm_op_count(bytes@, i) == Some(count),
            out@ == want.subrange(0, k as int),
        decreases count - k,
    {
        out.push(convert(bytes, i, k));
        k = k + 1;
        assert(out@ =~= want.subrange(0, k as int));
    }
    assert(want.subrange(0, count as int) =~= want);
    Some(out)
}

/// Read the function exported as `export` from a module of type, function,
/// export and code sections. Any other section, and any entry that cannot be
/// read, is unsupported; a module without that export is refused.
pub fn decode_export(bytes: &[u8], export: &str) -> (r: Result<DecodedFunction, IrError>)
    ensures
        match decode_spec(bytes@, export@) {
            Ok(v) => r matches Ok(d) && d@ == v,
            Err(e) => r == Err::<DecodedFunction, IrError>(e),
        },
{
    let count = payload_count(bytes);
    let mut types: Vec<(Vec<ValKind>, Vec<ValKind>)> = Vec::new();
    let mut functions: Vec<u32> = Vec::new();
    let mut selected: Option<u32> = None;
    let mut bodies: Vec<usize> = Vec::new();
    let mut i: usize = 0;
    assert(sigs(types@) =~= Seq::<(Seq<ValKind>, Seq<ValKind>)>::empty());
    while i < count
        invariant
            i <= count,
            count == wasm_payload_count(bytes@),
            scan_from(bytes@, export@, 0, count as nat, empty_scan()) == scan_from(
                bytes@,
                export@,
                i as nat,
                count as nat,
                Scan { types: sigs(types@), functions: functions@, selected, bodies: bodies@ },
            ),
        decreases count - i,
    {
        match payload_at(bytes, i) {
            PayloadView::Version => {},
            PayloadView::End => {},
            PayloadView::Custom => {},
            PayloadView::CodeStart => {},
            PayloadView::Types(c) => {
                if !read_types(bytes, i, c, &mut types) {
                    return Err(unsupported());
                }
            },
            PayloadView::Functions(c) => {
                if !read_functions(bytes, i, c, &mut functions) {
                    return Err(unsupported());
                }
            },
            PayloadView::Exports(c) => {
                match read_exports(bytes, i, c, export, selected) {
                    Some(s) => {
                        selected = s;
                    },
                    None => {
                        return Err(unsupported());
                    },
                }
            },
            PayloadView::CodeEntry => {
                bodies.push(i);
            },
            _ => {
                return Err(unsupported());
            },
        }
        i = i + 1;
    }
    let index = match selected {
        Some(index) => index as usize,
        None => {
            return Err(IrError::InvalidProgram("missing function export"));
        },
    };
    if index >= functions.len() || index >= bodies.len() {
        return Err(unsupported());
    }
    let type_index = functions[index] as usize;
    if type_index >= types.len() {
        return Err(unsupported());
    }
    let params = clone_kinds(&types[type_index].0);
    let results = clone_kinds(&types[type_index].1);
    let body = bodies[index];
    let locals = read_locals(bytes, body);
    let ops = read_ops(bytes, body);
    Ok(DecodedFunction { params, results, locals, ops })
}

fn clone_kinds(kinds: &Vec<ValKind>) -> (r: Vec<ValKind>)
    ensures
        r@ == kinds@,
{
    let mut out: Vec<ValKind> = Vec::new();
    let mut i: usize = 0;
    while i < kinds.len()
        invariant
            i <= kinds@.len(),
            out@ == kinds@.subrange(0, i as int),
        decreases kinds@.len() - i,
    {
        out.push(kinds[i]);
        i = i + 1;
        assert(out@ =~= kinds@.subrange(0, i as int));
    }
    assert(kinds@.subrange(0, kinds@.len() as int) =~= kinds@);
    out
}

/// Whether `bytes` may be lowered: at most 16 MiB and valid WebAssembly.
pub fn check_module(bytes: &[u8]) -> (r: Result<(), IrError>)
    ensures
        bytes@.len() > 16 * 1024 * 1024 ==> r == Err::<(), IrError>(
            IrError::InvalidProgram("module byte limit"),
        ),
        bytes@.len() <= 16 * 1024 * 1024 ==> r == (if wasm_valid(bytes@) {
            Ok::<(), IrError>(())
        } else {
            Err(IrError::InvalidProgram("invalid WebAssembly"))
        }),
{
    if bytes.len() > 16 * 1024 * 1024 {
        return Err(IrError::InvalidProgram("module byte limit"));
    }
    if validation_error(bytes).is_some() {
        return Err(IrError::InvalidProgram("invalid WebAssembly"));
    }
    Ok(())
}

} // verus!
