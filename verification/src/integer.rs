//! WebAssembly integer operator semantics over 64-bit registers.
//!
//! Every operation wraps, masks shift counts to the operand width and traps
//! exactly where WebAssembly traps. 32-bit operators read the low half of a
//! register and leave a zero-extended result.
use vstd::prelude::*;

use crate::runtime::Error;
use vstd::std_specs::bits::{u32_leading_zeros, u32_trailing_zeros, u64_leading_zeros, u64_trailing_zeros};

verus! {

/// WASM i64 binary operations with wrapping, shift masking, and exact integer traps.
#[derive(Clone, Copy, Debug, PartialEq, Eq, Structural)]
pub enum Int64 {
    Sub,
    And,
    Or,
    Xor,
    Shl,
    ShrS,
    ShrU,
    Rotl,
    Rotr,
    Eq,
    Ne,
    LtS,
    LtU,
    GtS,
    GtU,
    LeS,
    LeU,
    GeS,
    GeU,
    DivU,
    RemS,
    RemU,
}

/// WASM i32 binary operations evaluated on the low 32 bits of each register.
#[derive(Clone, Copy, Debug, PartialEq, Eq, Structural)]
pub enum Int32 {
    Add,
    Mul,
    DivS,
    Sub,
    And,
    Or,
    Xor,
    Shl,
    ShrS,
    ShrU,
    Rotl,
    Rotr,
    Eq,
    Ne,
    LtS,
    LtU,
    GtS,
    GtU,
    LeS,
    LeU,
    GeS,
    GeU,
    DivU,
    RemS,
    RemU,
}

/// Integer bit counts, wraps and sign extensions.
#[derive(Clone, Copy, Debug, PartialEq, Eq, Structural)]
pub enum Unary64 {
    Clz,
    Ctz,
    Popcnt,
    Extend8S,
    Extend16S,
    Extend32S,
    Wrap32,
    Clz32,
    Ctz32,
    Popcnt32,
    Extend8S32,
    Extend16S32,
}

pub open spec fn flag(b: bool) -> u64 {
    if b {
        1
    } else {
        0
    }
}

pub open spec fn rotl64(a: u64, s: u64) -> u64 {
    if s == 0 {
        a
    } else {
        (a << s) | (a >> ((64 - s) as u64))
    }
}

pub open spec fn rotr64(a: u64, s: u64) -> u64 {
    if s == 0 {
        a
    } else {
        (a >> s) | (a << ((64 - s) as u64))
    }
}

pub open spec fn rotl32(a: u32, s: u32) -> u32 {
    if s == 0 {
        a
    } else {
        (a << s) | (a >> ((32 - s) as u32))
    }
}

pub open spec fn rotr32(a: u32, s: u32) -> u32 {
    if s == 0 {
        a
    } else {
        (a >> s) | (a << ((32 - s) as u32))
    }
}

/// Number of set bits among the lowest `n` bits of `x`.
pub open spec fn popcount_upto(x: u64, n: nat) -> nat
    decreases n,
{
    if n == 0 {
        0
    } else {
        popcount_upto(x, (n - 1) as nat) + ((x >> ((n - 1) as u64)) & 1) as nat
    }
}

/// Magnitude of a two's-complement 64-bit value.
pub open spec fn uabs64(a: u64) -> u64 {
    if (a as i64) < 0 {
        0u64.wrapping_sub(a)
    } else {
        a
    }
}

pub open spec fn uabs32(a: u32) -> u32 {
    if (a as i32) < 0 {
        0u32.wrapping_sub(a)
    } else {
        a
    }
}

/// Signed division truncating toward zero, as bits; `b` non-zero and not
/// the overflowing `MIN / -1`.
pub open spec fn sdiv64(a: u64, b: u64) -> u64 {
    let q = uabs64(a) / uabs64(b);
    if ((a as i64) < 0) != ((b as i64) < 0) {
        0u64.wrapping_sub(q)
    } else {
        q
    }
}

/// Signed remainder with the sign of the dividend, as bits.
pub open spec fn srem64(a: u64, b: u64) -> u64 {
    let r = uabs64(a) % uabs64(b);
    if (a as i64) < 0 {
        0u64.wrapping_sub(r)
    } else {
        r
    }
}

pub open spec fn sdiv32(a: u32, b: u32) -> u32 {
    let q = uabs32(a) / uabs32(b);
    if ((a as i32) < 0) != ((b as i32) < 0) {
        0u32.wrapping_sub(q)
    } else {
        q
    }
}

pub open spec fn srem32(a: u32, b: u32) -> u32 {
    let r = uabs32(a) % uabs32(b);
    if (a as i32) < 0 {
        0u32.wrapping_sub(r)
    } else {
        r
    }
}

/// The value of a 64-bit WASM binary operator, or its trap.
pub open spec fn int64_value(kind: Int64, a: u64, b: u64) -> Result<u64, Error> {
    let s = b & 63;
    match kind {
        Int64::Sub => Ok(a.wrapping_sub(b)),
        Int64::And => Ok(a & b),
        Int64::Or => Ok(a | b),
        Int64::Xor => Ok(a ^ b),
        Int64::Shl => Ok(a << s),
        Int64::ShrS => Ok(((a as i64) >> s) as u64),
        Int64::ShrU => Ok(a >> s),
        Int64::Rotl => Ok(rotl64(a, s)),
        Int64::Rotr => Ok(rotr64(a, s)),
        Int64::Eq => Ok(flag(a == b)),
        Int64::Ne => Ok(flag(a != b)),
        Int64::LtS => Ok(flag((a as i64) < (b as i64))),
        Int64::LtU => Ok(flag(a < b)),
        Int64::GtS => Ok(flag((a as i64) > (b as i64))),
        Int64::GtU => Ok(flag(a > b)),
        Int64::LeS => Ok(flag((a as i64) <= (b as i64))),
        Int64::LeU => Ok(flag(a <= b)),
        Int64::GeS => Ok(flag((a as i64) >= (b as i64))),
        Int64::GeU => Ok(flag(a >= b)),
        Int64::DivU => if b == 0 {
            Err(Error::DivisionByZero)
        } else {
            Ok(a / b)
        },
        Int64::RemU => if b == 0 {
            Err(Error::DivisionByZero)
        } else {
            Ok(a % b)
        },
        Int64::RemS => if b == 0 {
            Err(Error::DivisionByZero)
        } else {
            Ok(srem64(a, b))
        },
    }
}

/// The value of a 32-bit WASM binary operator on the low halves, zero extended.
pub open spec fn int32_value(kind: Int32, a64: u64, b64: u64) -> Result<u64, Error> {
    let a = a64 as u32;
    let b = b64 as u32;
    let s = b & 31;
    match kind {
        Int32::Add => Ok(a.wrapping_add(b) as u64),
        Int32::Mul => Ok(a.wrapping_mul(b) as u64),
        Int32::DivS => if b == 0 {
            Err(Error::DivisionByZero)
        } else if a == 0x8000_0000 && b == 0xffff_ffff {
            Err(Error::IntegerOverflow)
        } else {
            Ok(sdiv32(a, b) as u64)
        },
        Int32::Sub => Ok(a.wrapping_sub(b) as u64),
        Int32::And => Ok((a & b) as u64),
        Int32::Or => Ok((a | b) as u64),
        Int32::Xor => Ok((a ^ b) as u64),
        Int32::Shl => Ok((a << s) as u64),
        Int32::ShrS => Ok(((a as i32) >> s) as u32 as u64),
        Int32::ShrU => Ok((a >> s) as u64),
        Int32::Rotl => Ok(rotl32(a, s) as u64),
        Int32::Rotr => Ok(rotr32(a, s) as u64),
        Int32::Eq => Ok(flag(a == b)),
        Int32::Ne => Ok(flag(a != b)),
        Int32::LtS => Ok(flag((a as i32) < (b as i32))),
        Int32::LtU => Ok(flag(a < b)),
        Int32::GtS => Ok(flag((a as i32) > (b as i32))),
        Int32::GtU => Ok(flag(a > b)),
        Int32::LeS => Ok(flag((a as i32) <= (b as i32))),
        Int32::LeU => Ok(flag(a <= b)),
        Int32::GeS => Ok(flag((a as i32) >= (b as i32))),
        Int32::GeU => Ok(flag(a >= b)),
        Int32::DivU => if b == 0 {
            Err(Error::DivisionByZero)
        } else {
            Ok((a / b) as u64)
        },
        Int32::RemU => if b == 0 {
            Err(Error::DivisionByZero)
        } else {
            Ok((a % b) as u64)
        },
        Int32::RemS => if b == 0 {
            Err(Error::DivisionByZero)
        } else {
            Ok(srem32(a, b) as u64)
        },
    }
}

/// The value of a unary operator.
pub open spec fn unary_value(kind: Unary64, a: u64) -> u64 {
    match kind {
        Unary64::Clz => u64_leading_zeros(a) as u64,
        Unary64::Ctz => u64_trailing_zeros(a) as u64,
        Unary64::Popcnt => popcount_upto(a, 64) as u64,
        Unary64::Extend8S => a as i8 as i64 as u64,
        Unary64::Extend16S => a as i16 as i64 as u64,
        Unary64::Extend32S => a as i32 as i64 as u64,
        Unary64::Wrap32 => a as u32 as u64,
        Unary64::Clz32 => u32_leading_zeros(a as u32) as u64,
        Unary64::Ctz32 => u32_trailing_zeros(a as u32) as u64,
        Unary64::Popcnt32 => popcount_upto(a as u32 as u64, 32) as u64,
        Unary64::Extend8S32 => a as i8 as i32 as u32 as u64,
        Unary64::Extend16S32 => a as i16 as i32 as u32 as u64,
    }
}

fn rotate_left64(a: u64, s: u64) -> (r: u64)
    requires
        s < 64,
    ensures
        r == rotl64(a, s),
{
    if s == 0 {
        a
    } else {
        (a << s) | (a >> (64 - s))
    }
}

fn rotate_right64(a: u64, s: u64) -> (r: u64)
    requires
        s < 64,
    ensures
        r == rotr64(a, s),
{
    if s == 0 {
        a
    } else {
        (a >> s) | (a << (64 - s))
    }
}

fn rotate_left32(a: u32, s: u32) -> (r: u32)
    requires
        s < 32,
    ensures
        r == rotl32(a, s),
{
    if s == 0 {
        a
    } else {
        (a << s) | (a >> (32 - s))
    }
}

fn rotate_right32(a: u32, s: u32) -> (r: u32)
    requires
        s < 32,
    ensures
        r == rotr32(a, s),
{
    if s == 0 {
        a
    } else {
        (a >> s) | (a << (32 - s))
    }
}

/// Counts the set bits among the lowest `width` bits of `x`.
pub fn count_ones(x: u64, width: u64) -> (r: u64)
    requires
        width <= 64,
    ensures
        r as nat == popcount_upto(x, width as nat),
{
    let mut count: u64 = 0;
    let mut i: u64 = 0;
    while i < width
        invariant
            i <= width <= 64,
            count as nat == popcount_upto(x, i as nat),
            count <= i,
        decreases width - i,
    {
        let bit = (x >> i) & 1;
        assert(bit <= 1) by (bit_vector)
            requires
                bit == (x >> i) & 1,
        ;
        count = count + bit;
        i = i + 1;
    }
    count
}

/// Evaluates a 64-bit binary operator.
pub fn int64_execute(kind: Int64, a: u64, b: u64) -> (r: Result<u64, Error>)
    ensures
        r == int64_value(kind, a, b),
{
    let s = b & 63;
    assert(s < 64) by (bit_vector)
        requires
            s == b & 63,
    ;
    match kind {
        Int64::Sub => Ok(a.wrapping_sub(b)),
        Int64::And => Ok(a & b),
        Int64::Or => Ok(a | b),
        Int64::Xor => Ok(a ^ b),
        Int64::Shl => Ok(a << s),
        Int64::ShrS => Ok(((a as i64) >> s) as u64),
        Int64::ShrU => Ok(a >> s),
        Int64::Rotl => Ok(rotate_left64(a, s)),
        Int64::Rotr => Ok(rotate_right64(a, s)),
        Int64::Eq => Ok(if a == b { 1 } else { 0 }),
        Int64::Ne => Ok(if a != b { 1 } else { 0 }),
        Int64::LtS => Ok(if (a as i64) < (b as i64) { 1 } else { 0 }),
        Int64::LtU => Ok(if a < b { 1 } else { 0 }),
        Int64::GtS => Ok(if (a as i64) > (b as i64) { 1 } else { 0 }),
        Int64::GtU => Ok(if a > b { 1 } else { 0 }),
        Int64::LeS => Ok(if (a as i64) <= (b as i64) { 1 } else { 0 }),
        Int64::LeU => Ok(if a <= b { 1 } else { 0 }),
        Int64::GeS => Ok(if (a as i64) >= (b as i64) { 1 } else { 0 }),
        Int64::GeU => Ok(if a >= b { 1 } else { 0 }),
        Int64::DivU => if b == 0 {
            Err(Error::DivisionByZero)
        } else {
            Ok(a / b)
        },
        Int64::RemU => if b == 0 {
            Err(Error::DivisionByZero)
        } else {
            Ok(a % b)
        },
        Int64::RemS => rem_s64(a, b),
    }
}

fn abs64(a: u64) -> (r: u64)
    ensures
        r == uabs64(a),
{
    if (a as i64) < 0 {
        0u64.wrapping_sub(a)
    } else {
        a
    }
}

fn abs32(a: u32) -> (r: u32)
    ensures
        r == uabs32(a),
{
    if (a as i32) < 0 {
        0u32.wrapping_sub(a)
    } else {
        a
    }
}

/// Signed 64-bit division truncating toward zero.
pub fn div_s64(a: u64, b: u64) -> (r: u64)
    requires
        b != 0,
    ensures
        r == sdiv64(a, b),
{
    let q = abs64(a) / abs64(b);
    if ((a as i64) < 0) != ((b as i64) < 0) {
        0u64.wrapping_sub(q)
    } else {
        q
    }
}

fn rem_s64(a: u64, b: u64) -> (r: Result<u64, Error>)
    ensures
        r == int64_value(Int64::RemS, a, b),
{
    if b == 0 {
        Err(Error::DivisionByZero)
    } else {
        let r = abs64(a) % abs64(b);
        if (a as i64) < 0 {
            Ok(0u64.wrapping_sub(r))
        } else {
            Ok(r)
        }
    }
}

/// Evaluates a 32-bit binary operator on the low halves of both operands.
pub fn int32_execute(kind: Int32, a64: u64, b64: u64) -> (r: Result<u64, Error>)
    ensures
        r == int32_value(kind, a64, b64),
{
    let a = a64 as u32;
    let b = b64 as u32;
    let s = b & 31;
    assert(s < 32) by (bit_vector)
        requires
            s == b & 31,
    ;
    match kind {
        Int32::Add => Ok(a.wrapping_add(b) as u64),
        Int32::Mul => Ok(a.wrapping_mul(b) as u64),
        Int32::DivS => if b == 0 {
            Err(Error::DivisionByZero)
        } else if a == 0x8000_0000 && b == 0xffff_ffff {
            Err(Error::IntegerOverflow)
        } else {
            let q = abs32(a) / abs32(b);
            if ((a as i32) < 0) != ((b as i32) < 0) {
                Ok(0u32.wrapping_sub(q) as u64)
            } else {
                Ok(q as u64)
            }
        },
        Int32::Sub => Ok(a.wrapping_sub(b) as u64),
        Int32::And => Ok((a & b) as u64),
        Int32::Or => Ok((a | b) as u64),
        Int32::Xor => Ok((a ^ b) as u64),
        Int32::Shl => Ok((a << s) as u64),
        Int32::ShrS => Ok(((a as i32) >> s) as u32 as u64),
        Int32::ShrU => Ok((a >> s) as u64),
        Int32::Rotl => Ok(rotate_left32(a, s) as u64),
        Int32::Rotr => Ok(rotate_right32(a, s) as u64),
        Int32::Eq => Ok(if a == b { 1 } else { 0 }),
        Int32::Ne => Ok(if a != b { 1 } else { 0 }),
        Int32::LtS => Ok(if (a as i32) < (b as i32) { 1 } else { 0 }),
        Int32::LtU => Ok(if a < b { 1 } else { 0 }),
        Int32::GtS => Ok(if (a as i32) > (b as i32) { 1 } else { 0 }),
        Int32::GtU => Ok(if a > b { 1 } else { 0 }),
        Int32::LeS => Ok(if (a as i32) <= (b as i32) { 1 } else { 0 }),
        Int32::LeU => Ok(if a <= b { 1 } else { 0 }),
        Int32::GeS => Ok(if (a as i32) >= (b as i32) { 1 } else { 0 }),
        Int32::GeU => Ok(if a >= b { 1 } else { 0 }),
        Int32::DivU => if b == 0 {
            Err(Error::DivisionByZero)
        } else {
            Ok((a / b) as u64)
        },
        Int32::RemU => if b == 0 {
            Err(Error::DivisionByZero)
        } else {
            Ok((a % b) as u64)
        },
        Int32::RemS => if b == 0 {
            Err(Error::DivisionByZero)
        } else {
            let r = abs32(a) % abs32(b);
            if (a as i32) < 0 {
                Ok(0u32.wrapping_sub(r) as u64)
            } else {
                Ok(r as u64)
            }
        },
    }
}

/// Evaluates a unary operator.
pub fn unary_execute(kind: Unary64, a: u64) -> (r: u64)
    ensures
        r == unary_value(kind, a),
{
    match kind {
        Unary64::Clz => a.leading_zeros() as u64,
        Unary64::Ctz => a.trailing_zeros() as u64,
        Unary64::Popcnt => count_ones(a, 64),
        Unary64::Extend8S => a as i8 as i64 as u64,
        Unary64::Extend16S => a as i16 as i64 as u64,
        Unary64::Extend32S => a as i32 as i64 as u64,
        Unary64::Wrap32 => a as u32 as u64,
        Unary64::Clz32 => (a as u32).leading_zeros() as u64,
        Unary64::Ctz32 => (a as u32).trailing_zeros() as u64,
        Unary64::Popcnt32 => count_ones(a as u32 as u64, 32),
        Unary64::Extend8S32 => a as i8 as i32 as u32 as u64,
        Unary64::Extend16S32 => a as i16 as i32 as u32 as u64,
    }
}


/// i64.rotr by `b` moves bit `(i + s) mod 64` of `a` to bit `i`, and i64.rotl
/// moves bit `i` of `a` to bit `(i + s) mod 64`, where `s` is `b mod 64`; a
/// rotate right by `b` undoes a rotate left by `b`.
pub proof fn lemma_rotations(a: u64, b: u64, i: u64)
    requires
        i < 64,
    ensures
        int64_value(Int64::Rotr, a, b) is Ok,
        int64_value(Int64::Rotl, a, b) is Ok,
        (int64_value(Int64::Rotr, a, b)->Ok_0 >> i) & 1 == (a >> ((i + (b & 63)) % 64)) & 1,
        (int64_value(Int64::Rotl, a, b)->Ok_0 >> ((i + (b & 63)) % 64)) & 1 == (a >> i) & 1,
        int64_value(Int64::Rotr, int64_value(Int64::Rotl, a, b)->Ok_0, b) == Ok::<u64, Error>(a),
{
    let s = b & 63;
    let r = if s == 0 { a } else { (a >> s) | (a << ((64 - s) as u64)) };
    let l = if s == 0 { a } else { (a << s) | (a >> ((64 - s) as u64)) };
    let back = if s == 0 { l } else { (l >> s) | (l << ((64 - s) as u64)) };
    assert(s < 64 && (r >> i) & 1 == (a >> ((i + s) % 64)) & 1 && (l >> ((i + s) % 64)) & 1 == (a
        >> i) & 1 && back == a) by (bit_vector)
        requires
            s == b & 63,
            i < 64,
            r == if s == 0 { a } else { (a >> s) | (a << ((64 - s) as u64)) },
            l == if s == 0 { a } else { (a << s) | (a >> ((64 - s) as u64)) },
            back == if s == 0 { l } else { (l >> s) | (l << ((64 - s) as u64)) },
    ;
    assert(int64_value(Int64::Rotr, a, b) == Ok::<u64, Error>(r));
    assert(int64_value(Int64::Rotl, a, b) == Ok::<u64, Error>(l));
    assert(int64_value(Int64::Rotr, l, b) == Ok::<u64, Error>(back));
}

/// The 64-bit shifts by `s = b mod 64`: bit `i` of i64.shl is bit `i - s` of
/// `a` (zero below `s`); bit `i` of i64.shr_u is bit `i + s` of `a` (zero past
/// the top), and of i64.shr_s the same with the sign bit past the top.
pub proof fn lemma_int64_shifts(a: u64, b: u64, i: u64)
    requires
        i < 64,
    ensures
        int64_value(Int64::Shl, a, b) is Ok,
        int64_value(Int64::ShrU, a, b) is Ok,
        int64_value(Int64::ShrS, a, b) is Ok,
        (int64_value(Int64::Shl, a, b)->Ok_0 >> i) & 1 == if i >= b % 64 {
            (a >> ((i - b % 64) as u64)) & 1
        } else {
            0
        },
        (int64_value(Int64::ShrU, a, b)->Ok_0 >> i) & 1 == if i + b % 64 < 64 {
            (a >> ((i + b % 64) as u64)) & 1
        } else {
            0
        },
        (int64_value(Int64::ShrS, a, b)->Ok_0 >> i) & 1 == if i + b % 64 < 64 {
            (a >> ((i + b % 64) as u64)) & 1
        } else {
            (a >> 63u64) & 1
        },
{
    let s = b & 63;
    let l = a << s;
    let r = a >> s;
    let sr = ((a as i64) >> s) as u64;
    assert(s == b % 64 && (l >> i) & 1 == (if i >= s { (a >> ((i - s) as u64)) & 1 } else { 0 }) && (r
        >> i) & 1 == (if i + s < 64 { (a >> ((i + s) as u64)) & 1 } else { 0 }) && (sr >> i) & 1 == (if i
        + s < 64 { (a >> ((i + s) as u64)) & 1 } else { (a >> 63u64) & 1 })) by (bit_vector)
        requires
            i < 64,
            s == b & 63,
            l == a << s,
            r == a >> s,
            sr == ((a as i64) >> s) as u64,
    ;
}

/// The 32-bit shifts by `s = b mod 32` on the low halves: bit `i` of i32.shl
/// is bit `i - s` of `a` (zero below `s`); bit `i` of i32.shr_u is bit `i + s`
/// of `a` (zero past the top), and of i32.shr_s the same with the sign bit
/// past the top; each result fits in 32 bits.
pub proof fn lemma_int32_shifts(a: u32, b: u32, i: u32)
    requires
        i < 32,
    ensures
        int32_value(Int32::Shl, a as u64, b as u64) matches Ok(v) && v <= u32::MAX && (v >> i) & 1 == (
        if i >= b % 32 {
            (a >> ((i - b % 32) as u32)) & 1
        } else {
            0
        }) as u64,
        int32_value(Int32::ShrU, a as u64, b as u64) matches Ok(v) && v <= u32::MAX && (v >> i) & 1 == (
        if i + b % 32 < 32 {
            (a >> ((i + b % 32) as u32)) & 1
        } else {
            0
        }) as u64,
        int32_value(Int32::ShrS, a as u64, b as u64) matches Ok(v) && v <= u32::MAX && (v >> i) & 1 == (
        if i + b % 32 < 32 {
            (a >> ((i + b % 32) as u32)) & 1
        } else {
            (a >> 31u32) & 1
        }) as u64,
{
    let s = b & 31;
    let l = (a << s) as u64;
    let r = (a >> s) as u64;
    let sr = ((a as i32) >> s) as u32 as u64;
    assert(s == b % 32 && l <= 0xffff_ffff && r <= 0xffff_ffff && sr <= 0xffff_ffff && (l >> i) & 1 == (
    if i >= s {
        (a >> ((i - s) as u32)) & 1
    } else {
        0
    }) as u64 && (r >> i) & 1 == (if i + s < 32 {
        (a >> ((i + s) as u32)) & 1
    } else {
        0
    }) as u64 && (sr >> i) & 1 == (if i + s < 32 {
        (a >> ((i + s) as u32)) & 1
    } else {
        (a >> 31u32) & 1
    }) as u64) by (bit_vector)
        requires
            i < 32,
            s == b & 31,
            l == (a << s) as u64,
            r == (a >> s) as u64,
            sr == ((a as i32) >> s) as u32 as u64,
    ;
}

/// i64.sub is `a - b` modulo 2^64; i64.div_u and i64.rem_u give the
/// quotient `q` and remainder `r` with `a == q * b + r` and `r < b`, and trap
/// with a division by zero when `b` is zero, as i64.rem_s does.
pub proof fn lemma_int64_arithmetic(a: u64, b: u64)
    ensures
        int64_value(Int64::Sub, a, b) matches Ok(v) && v as int == (a - b) % 0x1_0000_0000_0000_0000,
        b == 0 ==> int64_value(Int64::DivU, a, b) == Err::<u64, Error>(Error::DivisionByZero)
            && int64_value(Int64::RemU, a, b) == Err::<u64, Error>(Error::DivisionByZero)
            && int64_value(Int64::RemS, a, b) == Err::<u64, Error>(Error::DivisionByZero),
        b != 0 ==> (int64_value(Int64::DivU, a, b) matches Ok(q) && int64_value(Int64::RemU, a, b) matches Ok(r)
            && a == q * b + r && r < b),
{
    if b != 0 {
        vstd::arithmetic::div_mod::lemma_fundamental_div_mod(a as int, b as int);
        vstd::arithmetic::div_mod::lemma_mod_pos_bound(a as int, b as int);
        assert(a as int == b * (a / b) + a % b);
        assert(a as int == (a / b) * b + a % b) by (nonlinear_arith)
            requires
                a as int == b * (a / b) + a % b,
        ;
    }
}

/// i32.add, i32.sub and i32.mul are `a + b`, `a - b` and `a * b` modulo
/// 2^32, zero extended; i32.div_u and i32.rem_u give the quotient `q` and
/// remainder `r` with `a == q * b + r` and `r < b`, and trap with a division by
/// zero when `b` is zero, as i32.div_s and i32.rem_s do.
pub proof fn lemma_int32_arithmetic(a: u32, b: u32)
    ensures
        int32_value(Int32::Add, a as u64, b as u64) matches Ok(v) && v as int == (a + b) % 0x1_0000_0000,
        int32_value(Int32::Sub, a as u64, b as u64) matches Ok(v) && v as int == (a - b) % 0x1_0000_0000,
        int32_value(Int32::Mul, a as u64, b as u64) matches Ok(v) && v as int == (a * b) % 0x1_0000_0000,
        b == 0 ==> int32_value(Int32::DivU, a as u64, b as u64) == Err::<u64, Error>(Error::DivisionByZero)
            && int32_value(Int32::RemU, a as u64, b as u64) == Err::<u64, Error>(Error::DivisionByZero)
            && int32_value(Int32::DivS, a as u64, b as u64) == Err::<u64, Error>(Error::DivisionByZero)
            && int32_value(Int32::RemS, a as u64, b as u64) == Err::<u64, Error>(Error::DivisionByZero),
        b != 0 ==> (int32_value(Int32::DivU, a as u64, b as u64) matches Ok(q) && int32_value(
            Int32::RemU,
            a as u64,
            b as u64,
        ) matches Ok(r) && a == q * b + r && r < b),
{
    assert(0 <= a * b < 0x1_0000_0000 * 0x1_0000_0000) by (nonlinear_arith);
    if b != 0 {
        vstd::arithmetic::div_mod::lemma_fundamental_div_mod(a as int, b as int);
        vstd::arithmetic::div_mod::lemma_mod_pos_bound(a as int, b as int);
        assert(a as int == (a / b) * b + a % b) by (nonlinear_arith)
            requires
                a as int == b * (a / b) + a % b,
        ;
    }
}

/// i32.rotr by `b` moves bit `(i + s) mod 32` of `a` to bit `i`, and i32.rotl
/// moves bit `i` of `a` to bit `(i + s) mod 32`, where `s` is `b mod 32`; the
/// result stays within 32 bits, and a rotate right by `b` undoes a rotate
/// left by `b`.
pub proof fn lemma_rotations32(a: u32, b: u32, i: u32)
    requires
        i < 32,
    ensures
        int32_value(Int32::Rotr, a as u64, b as u64) is Ok,
        int32_value(Int32::Rotl, a as u64, b as u64) is Ok,
        int32_value(Int32::Rotr, a as u64, b as u64)->Ok_0 <= u32::MAX,
        int32_value(Int32::Rotl, a as u64, b as u64)->Ok_0 <= u32::MAX,
        (int32_value(Int32::Rotr, a as u64, b as u64)->Ok_0 >> i) & 1 == ((a >> ((i + (b & 31)) % 32))
            & 1) as u64,
        (int32_value(Int32::Rotl, a as u64, b as u64)->Ok_0 >> ((i + (b & 31)) % 32)) & 1 == ((a >> i)
            & 1) as u64,
        int32_value(Int32::Rotr, int32_value(Int32::Rotl, a as u64, b as u64)->Ok_0, b as u64) == Ok::<
            u64,
            Error,
        >(a as u64),
{
    let s = b & 31;
    let r = if s == 0 { a } else { (a >> s) | (a << ((32 - s) as u32)) };
    let l = if s == 0 { a } else { (a << s) | (a >> ((32 - s) as u32)) };
    let back = if s == 0 { l } else { (l >> s) | (l << ((32 - s) as u32)) };
    assert(s < 32 && ((r as u64) >> i) & 1 == ((a >> ((i + s) % 32)) & 1) as u64 && ((l as u64) >> ((i
        + s) % 32)) & 1 == ((a >> i) & 1) as u64 && back == a) by (bit_vector)
        requires
            s == b & 31,
            i < 32,
            r == if s == 0 { a } else { (a >> s) | (a << ((32 - s) as u32)) },
            l == if s == 0 { a } else { (a << s) | (a >> ((32 - s) as u32)) },
            back == if s == 0 { l } else { (l >> s) | (l << ((32 - s) as u32)) },
    ;
    assert(int32_value(Int32::Rotr, a as u64, b as u64) == Ok::<u64, Error>(r as u64));
    assert(int32_value(Int32::Rotl, a as u64, b as u64) == Ok::<u64, Error>(l as u64));
    assert(int32_value(Int32::Rotr, l as u64, b as u64) == Ok::<u64, Error>(back as u64));
}

} // verus!
