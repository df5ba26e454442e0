//! Jitless, handler-shaped AArch64 EL1 core for guest boot. The CPU owns one
//! `GuestMemory` arena and never allocates guest RAM in `step`. Decoder misses
//! are terminal and name the guest PC and the instruction word.
use crate::relay_core::{error_text, failure, only_failed, RelayError};
use crate::runtime::{load_le, read_le};
use crate::text::{hex, push_hex};
use crate::vm::bus::{in_pl011, Bus, PL011_BASE, PL011_SIZE};
use crate::vm::cpu_bits::{
    condition, condition_holds, decode_logical_immediate, logical_immediate, low_mask, mask, rev16,
    reverse_bytes_in_halfwords, sext, sext_width, sign_extend, sign_extend_width,
};
use crate::vm::guest::{fits, refusal, written, GuestMemory, Ram};
use crate::vm::mmu::{stage1, walk_stage1};
use crate::vm::sysregs::{read_only, unimplemented, writable, SysRegs, SPSEL};
use crate::vm::virtio_block::{le16_at, le32};
use vstd::prelude::*;

verus! {

/// One EL1 core: general registers, stack pointer, flags, PC, guest RAM,
/// MMIO bus and system registers.
pub struct StaticCpu {
    pub x: [u64; 31],
    pub sp: u64,
    pub nzcv: u8,
    pub pc: u64,
    pub memory: GuestMemory,
    pub bus: Bus,
    pub sysregs: SysRegs,
}

/// `{:#010x}`: `0x` and eight hexadecimal digits.
pub open spec fn word_text(w: u32) -> Seq<char> {
    "0x"@ + Seq::new((8 - hex(w as nat).len()) as nat, |i: int| '0') + hex(w as nat)
}

/// `"<pc=0x..> word=0x........"` suffix of decoder messages.
pub open spec fn at_text(pc: u64, w: u32) -> Seq<char> {
    "pc=0x"@ + hex(pc as nat) + " word="@ + word_text(w)
}

pub open spec fn unsupported_text(pc: u64, w: u32) -> Seq<char> {
    "StaticCpu EL1 first unimplemented insn "@ + at_text(pc, w)
}

proof fn lemma_hex_len_u32(n: nat)
    requires
        n < 0x1_0000_0000,
    ensures
        1 <= hex(n).len() <= 8,
{
    if n >= 16 {
        lemma_hex_len_small(n / 16);
    }
}

proof fn lemma_hex_len_small(n: nat)
    requires
        n < 0x1000_0000,
    ensures
        hex(n).len() <= 7,
    decreases n,
{
    reveal_with_fuel(hex, 8);
    assert(n / 16 < 0x100_0000);
    assert(n / 16 / 16 < 0x10_0000);
    assert(n / 16 / 16 / 16 < 0x1_0000);
    assert(n / 16 / 16 / 16 / 16 < 0x1000);
    assert(n / 16 / 16 / 16 / 16 / 16 < 0x100);
    assert(n / 16 / 16 / 16 / 16 / 16 / 16 < 0x10);
}

/// Append `0x` and the eight hexadecimal digits of `w`.
pub fn push_word(out: &mut String, w: u32)
    ensures
        final(out)@ == old(out)@ + word_text(w),
{
    proof {
        lemma_hex_len_u32(w as nat);
        reveal_strlit("0x");
    }
    out.append("0x");
    let mut digits = String::new();
    push_hex(&mut digits, w as u64);
    let n = digits.as_str().unicode_len();
    let ghost start = out@;
    let mut k = n;
    while k < 8
        invariant
            n <= k <= 8,
            n == hex(w as nat).len(),
            digits@ == hex(w as nat),
            out@ == start + Seq::new((k - n) as nat, |i: int| '0'),
        decreases 8 - k,
    {
        out.append("0");
        proof {
            reveal_strlit("0");
        }
        assert(Seq::new((k + 1 - n) as nat, |i: int| '0') =~= Seq::new((k - n) as nat, |i: int| '0')
            + "0"@);
        k = k + 1;
    }
    out.append(digits.as_str());
    assert(out@ =~= old(out)@ + word_text(w));
}

/// Append `pc=0x<pc> word=0x<word, eight digits>`.
fn push_at(out: &mut String, pc: u64, w: u32)
    ensures
        final(out)@ == old(out)@ + at_text(pc, w),
{
    out.append("pc=0x");
    push_hex(out, pc);
    out.append(" word=");
    push_word(out, w);
    assert(out@ =~= old(out)@ + at_text(pc, w));
}

fn decoder_error(prefix: &str, pc: u64, w: u32) -> (r: RelayError)
    ensures
        r is Failed,
        error_text(r) == prefix@ + at_text(pc, w),
{
    let mut out = String::from_str(prefix);
    push_at(&mut out, pc, w);
    RelayError::Failed(out)
}

/// The register file that instructions read and write.
#[verifier::ext_equal]
pub struct Machine {
    pub x: Seq<u64>,
    pub sp: u64,
    pub nzcv: u8,
    pub pc: u64,
}

/// General register `r`, with 31 reading as zero.
pub open spec fn xr(x: Seq<u64>, r: u32) -> u64 {
    if r == 31 {
        0
    } else {
        x[r as int]
    }
}

/// `x` after writing `v` to `r`; writes to register 31 are discarded.
pub open spec fn set_xr(x: Seq<u64>, r: u32, v: u64) -> Seq<u64> {
    if r == 31 {
        x
    } else {
        x.update(r as int, v)
    }
}

/// The physical address of `address`: identity while the MMU is off, else a
/// stage-1 walk through TTBR1 (upper half) or TTBR0.
pub open spec fn phys_in(ram: Ram, sys: SysRegs, page: u32, address: u64) -> Result<u64, Seq<char>> {
    if sys.sctlr_el1 & 1 == 0 {
        Ok(address)
    } else {
        stage1(ram, address, if address >> 63u64 != 0 { sys.ttbr1_el1 } else { sys.ttbr0_el1 }, page)
    }
}

/// `n` little-endian bytes of RAM at `p`, or why they cannot be read.
pub open spec fn ram_read(ram: Ram, p: u64, n: nat) -> Result<u64, Seq<char>> {
    if !fits(ram, p, n) {
        Err(refusal(ram, p, n))
    } else if n == 1 {
        Ok(ram.bytes[p as int] as u64)
    } else if n == 2 {
        Ok(le16_at(ram.bytes, p as int) as u64)
    } else if n == 4 {
        Ok(le32(ram.bytes, p as int) as u64)
    } else {
        Ok(load_le(ram.bytes, p as int))
    }
}

/// A load of `n` bytes at a virtual address: RAM, or the PL011 window (which
/// reads as zero) for words.
pub open spec fn load_in(ram: Ram, sys: SysRegs, page: u32, address: u64, n: nat) -> Result<u64, Seq<char>> {
    match phys_in(ram, sys, page, address) {
        Err(e) => Err(e),
        Ok(p) => if n == 4 && in_pl011(p) {
            if p % 4 != 0 {
                Err(crate::vm::bus::unmapped("read"@, p))
            } else {
                Ok(0)
            }
        } else {
            ram_read(ram, p, n)
        },
    }
}

impl StaticCpu {
    pub open spec fn machine(&self) -> Machine {
        Machine { x: self.x@, sp: self.sp, nzcv: self.nzcv, pc: self.pc }
    }

    /// Register `r`, or the stack pointer for 31.
    pub open spec fn xsp(&self, r: u32) -> u64 {
        if r == 31 {
            self.sp
        } else {
            self.x@[r as int]
        }
    }

    /// The physical address of `address` (see `phys_in`).
    pub open spec fn phys(&self, address: u64) -> Result<u64, Seq<char>> {
        phys_in(self.memory.ram(), self.sysregs, self.memory.page().0, address)
    }

    pub open spec fn ram(&self, p: u64, n: nat) -> Result<u64, Seq<char>> {
        ram_read(self.memory.ram(), p, n)
    }

    pub open spec fn load(&self, address: u64, n: nat) -> Result<u64, Seq<char>> {
        load_in(self.memory.ram(), self.sysregs, self.memory.page().0, address, n)
    }

    /// The instruction word at the PC.
    pub open spec fn fetch(&self) -> Result<u32, Seq<char>> {
        match self.phys(self.pc) {
            Err(e) => Err(e),
            Ok(p) => match self.ram(p, 4) {
                Err(e) => Err(e),
                Ok(v) => Ok(v as u32),
            },
        }
    }
}


/// The little-endian bytes of the low `n` bytes of `v`.
pub open spec fn le_bytes(v: u64, n: nat) -> Seq<u8> {
    Seq::new(n, |i: int| ((v >> ((8 * i) as u64)) & 0xff) as u8)
}

/// What a store of the low `n` bytes of `v` at a virtual address leaves in
/// RAM and on the console, and whether it succeeds.
pub open spec fn store_in(ram: Ram, console: Seq<u8>, sys: SysRegs, page: u32, address: u64, n: nat, v: u64) -> (
    Seq<u8>,
    Seq<u8>,
    Result<(), Seq<char>>,
) {
    match phys_in(ram, sys, page, address) {
        Err(e) => (ram.bytes, console, Err(e)),
        Ok(p) => if n == 4 && in_pl011(p) {
            if p % 4 != 0 {
                (ram.bytes, console, Err(crate::vm::bus::unmapped("write"@, p)))
            } else if p == PL011_BASE {
                (ram.bytes, console.push(v as u8), Ok(()))
            } else {
                (ram.bytes, console, Ok(()))
            }
        } else if !fits(ram, p, n) {
            (ram.bytes, console, Err(refusal(ram, p, n)))
        } else {
            (written(ram.bytes, p as int, le_bytes(v, n)), console, Ok(()))
        },
    }
}

pub open spec fn store_outcome(cpu: StaticCpu, address: u64, n: nat, v: u64) -> (Seq<u8>, Seq<u8>, Result<(), Seq<char>>) {
    store_in(cpu.memory.ram(), cpu.bus.console_view(), cpu.sysregs, cpu.memory.page().0, address, n, v)
}

/// Everything but RAM, the console and the register file is left alone.
pub open spec fn frame(a: StaticCpu, b: StaticCpu) -> bool {
    &&& b.sysregs == a.sysregs
    &&& b.bus.transport() == a.bus.transport()
    &&& b.bus.disk() == a.bus.disk()
    &&& b.memory.size() == a.memory.size()
    &&& b.memory.page() == a.memory.page()
    &&& b.memory.geometry() == a.memory.geometry()
}

/// Only the register file may differ.
pub open spec fn same_devices(a: StaticCpu, b: StaticCpu) -> bool {
    &&& frame(a, b)
    &&& b.memory@ == a.memory@
    &&& b.bus.console_view() == a.bus.console_view()
}

fn le_bytes_of(v: u64, n: usize) -> (r: Vec<u8>)
    requires
        n <= 8,
    ensures
        r@ == le_bytes(v, n as nat),
{
    let mut out: Vec<u8> = Vec::new();
    let mut i: usize = 0;
    while i < n
        invariant
            i <= n <= 8,
            out@ == le_bytes(v, i as nat),
        decreases n - i,
    {
        out.push(((v >> ((8 * i) as u64)) & 0xff) as u8);
        assert(out@ =~= le_bytes(v, (i + 1) as nat));
        i = i + 1;
    }
    out
}

impl StaticCpu {
    /// A core at `entry_pc` over `memory`, with a 24 MHz counter.
    pub fn new(memory: GuestMemory, entry_pc: u64) -> (r: Result<Self, RelayError>)
        ensures
            r matches Ok(c) && c.pc == entry_pc && c.sp == 0 && c.nzcv == 0 && c.x@ == Seq::new(
                31,
                |i: int| 0u64,
            ) && c.memory == memory && c.bus.wf() && c.bus.console_view() == Seq::<u8>::empty()
                && c.bus.transport() is None && c.bus.disk() is None && c.sysregs.sctlr_el1 == 0,
    {
        let sysregs = match SysRegs::new(24_000_000) {
            Ok(s) => s,
            Err(e) => {
                return Err(e);
            },
        };
        let c = StaticCpu {
            x: [0u64; 31],
            sp: 0,
            nzcv: 0,
            pc: entry_pc,
            memory,
            bus: Bus::new(),
            sysregs,
        };
        assert(c.x@ =~= Seq::new(31, |i: int| 0u64));
        Ok(c)
    }

    /// Set general register `register`; 31 and above are ignored.
    pub fn set_x(&mut self, register: u8, value: u64)
        ensures
            final(self).x@ == (if register < 31 {
                old(self).x@.update(register as int, value)
            } else {
                old(self).x@
            }),
            final(self).sp == old(self).sp,
            final(self).pc == old(self).pc,
            final(self).nzcv == old(self).nzcv,
            same_devices(*old(self), *final(self)),
    {
        if register < 31 {
            self.x[register as usize] = value;
        }
    }

    /// General register `register`, with 31 reading as zero.
    pub fn x(&self, register: u32) -> (r: u64)
        requires
            register <= 31,
        ensures
            r == xr(self.x@, register),
    {
        if register == 31 {
            0
        } else {
            self.x[register as usize]
        }
    }

    fn set(&mut self, register: u32, value: u64)
        requires
            register <= 31,
        ensures
            final(self).x@ == set_xr(old(self).x@, register, value),
            final(self).sp == old(self).sp,
            final(self).pc == old(self).pc,
            final(self).nzcv == old(self).nzcv,
            same_devices(*old(self), *final(self)),
    {
        if register != 31 {
            self.x[register as usize] = value;
        }
    }

    fn x_or_sp(&self, register: u32) -> (r: u64)
        requires
            register <= 31,
        ensures
            r == self.xsp(register),
    {
        if register == 31 {
            self.sp
        } else {
            self.x[register as usize]
        }
    }

    fn set_x_or_sp(&mut self, register: u32, value: u64)
        requires
            register <= 31,
        ensures
            register == 31 ==> final(self).sp == value && final(self).x@ == old(self).x@,
            register != 31 ==> final(self).sp == old(self).sp && final(self).x@ == old(self).x@.update(
                register as int,
                value,
            ),
            final(self).pc == old(self).pc,
            final(self).nzcv == old(self).nzcv,
            same_devices(*old(self), *final(self)),
    {
        if register == 31 {
            self.sp = value;
        } else {
            self.x[register as usize] = value;
        }
    }

    fn physical(&self, address: u64) -> (r: Result<u64, RelayError>)
        ensures
            only_failed(r),
            failure(r) == self.phys(address),
    {
        if self.sysregs.sctlr_el1 & 1 == 0 {
            Ok(address)
        } else {
            let table = if address >> 63 != 0 {
                self.sysregs.ttbr1_el1
            } else {
                self.sysregs.ttbr0_el1
            };
            walk_stage1(&self.memory, address, table, self.memory.page_size())
        }
    }

    fn read_ram(&self, p: u64, n: usize) -> (r: Result<u64, RelayError>)
        requires
            n == 1 || n == 2 || n == 4 || n == 8,
        ensures
            only_failed(r),
            failure(r) == self.ram(p, n as nat),
    {
        if n == 1 {
            let mut raw = [0u8; 1];
            match self.memory.read(p, &mut raw) {
                Ok(()) => {},
                Err(e) => {
                    return Err(e);
                },
            }
            Ok(raw[0] as u64)
        } else if n == 2 {
            let mut raw = [0u8; 2];
            match self.memory.read(p, &mut raw) {
                Ok(()) => {},
                Err(e) => {
                    return Err(e);
                },
            }
            Ok(((raw[0] as u16) | ((raw[1] as u16) << 8)) as u64)
        } else if n == 4 {
            let mut raw = [0u8; 4];
            match self.memory.read(p, &mut raw) {
                Ok(()) => {},
                Err(e) => {
                    return Err(e);
                },
            }
            Ok(
                ((raw[0] as u32) | ((raw[1] as u32) << 8) | ((raw[2] as u32) << 16) | ((raw[3] as u32)
                    << 24)) as u64,
            )
        } else {
            let mut raw = [0u8; 8];
            match self.memory.read(p, &mut raw) {
                Ok(()) => {},
                Err(e) => {
                    return Err(e);
                },
            }
            Ok(read_le(&raw, 0))
        }
    }

    /// Load `n` bytes at a virtual address; words in the PL011 window go to the bus.
    fn load_at(&self, address: u64, n: usize) -> (r: Result<u64, RelayError>)
        requires
            n == 1 || n == 2 || n == 4 || n == 8,
        ensures
            only_failed(r),
            failure(r) == self.load(address, n as nat),
    {
        let p = match self.physical(address) {
            Ok(p) => p,
            Err(e) => {
                return Err(e);
            },
        };
        if n == 4 && PL011_BASE <= p && p < PL011_BASE + PL011_SIZE {
            return match self.bus.read32(p) {
                Ok(v) => Ok(v as u64),
                Err(e) => Err(e),
            };
        }
        self.read_ram(p, n)
    }

    /// Store the low `n` bytes of `v` at a virtual address; words in the
    /// PL011 window go to the bus.
    fn store_at(&mut self, address: u64, n: usize, v: u64) -> (r: Result<(), RelayError>)
        requires
            n == 1 || n == 2 || n == 4 || n == 8,
            old(self).bus.wf(),
        ensures
            final(self).bus.wf(),
            only_failed(r),
            frame(*old(self), *final(self)),
            final(self).machine() == old(self).machine(),
            ({
                let (m, c, out) = store_outcome(*old(self), address, n as nat, v);
                &&& final(self).memory@ == m
                &&& final(self).bus.console_view() == c
                &&& failure(r) == out
            }),
    {
        let p = match self.physical(address) {
            Ok(p) => p,
            Err(e) => {
                return Err(e);
            },
        };
        if n == 4 && PL011_BASE <= p && p < PL011_BASE + PL011_SIZE {
            proof {
                assert(p % 4 == 0 && p == PL011_BASE ==> p - PL011_BASE == 0);
                assert((v as u32) as u8 == v as u8) by (bit_vector);
            }
            return self.bus.write32(p, v as u32);
        }
        let bytes = le_bytes_of(v, n);
        self.memory.write(p, bytes.as_slice())
    }
}


// ---------------------------------------------------------------------------
// Instruction semantics
// ---------------------------------------------------------------------------

pub open spec fn next_pc(pc: u64) -> u64 {
    pc.wrapping_add(4)
}

pub open spec fn width_mask(is_64: bool) -> u64 {
    if is_64 {
        u64::MAX
    } else {
        0xffff_ffff
    }
}

/// NZCV packed as the CPU keeps it.
pub open spec fn pack_flags(n: bool, z: bool, c: bool, v: bool) -> u8 {
    ((if n { 8u8 } else { 0u8 }) | (if z { 4u8 } else { 0u8 }) | (if c { 2u8 } else { 0u8 }) | (if v {
        1u8
    } else {
        0u8
    })) as u8
}

/// Result and flags of `left ± right` at a 32- or 64-bit width (operands
/// already masked to the width).
pub open spec fn add_sub(left: u64, right: u64, subtract: bool, is_64: bool) -> (u64, u8) {
    let m = width_mask(is_64);
    let sign: u64 = if is_64 { 63 } else { 31 };
    let result = (if subtract { left.wrapping_sub(right) } else { left.wrapping_add(right) }) & m;
    let n = result >> sign != 0;
    let z = result == 0;
    let c = if subtract { left >= right } else { left + right > m };
    let v = if subtract {
        (((left ^ right) & (left ^ result)) >> sign) != 0
    } else {
        ((!(left ^ right) & (left ^ result)) >> sign) != 0
    };
    (result, pack_flags(n, z, c, v))
}

/// The sign bit, and the two overflow tests of `add_sub`, as comparisons with
/// the half-range `half` at a width whose sign bit is `sign`.
proof fn lemma_sign_bits(left: u64, right: u64, result: u64, sign: u64, half: u64)
    by (bit_vector)
    requires
        (sign == 63 && half == 0x8000_0000_0000_0000) || (sign == 31 && half == 0x8000_0000 && left
            <= 0xffff_ffff && right <= 0xffff_ffff && result <= 0xffff_ffff),
    ensures
        (result >> sign != 0) == (result >= half),
        (((!(left ^ right) & (left ^ result)) >> sign) != 0) == ((left >= half) == (right >= half) && (
        result >= half) != (left >= half)),
        ((((left ^ right) & (left ^ result)) >> sign) != 0) == ((left >= half) != (right >= half) && (
        result >= half) != (left >= half)),
{
}

/// `left ± right` at width `2^w` (64 or 32 bits) keeps the sum or difference
/// modulo `2^w` and sets N to its sign bit, Z when it is zero, C on a carry
/// out of an addition or on a subtraction without borrow (`left >= right`),
/// and V when operands of equal sign (for a subtraction, of opposite signs)
/// give a result of the other sign.
pub proof fn lemma_add_sub(left: u64, right: u64, subtract: bool, is_64: bool)
    requires
        left <= width_mask(is_64),
        right <= width_mask(is_64),
    ensures
        ({
            let size: int = if is_64 { 0x1_0000_0000_0000_0000 } else { 0x1_0000_0000 };
            let half: int = size / 2;
            let value = add_sub(left, right, subtract, is_64).0;
            &&& value as int == (if subtract { left - right } else { left + right }) % size
            &&& add_sub(left, right, subtract, is_64).1 == pack_flags(
                value >= half,
                value == 0,
                if subtract { left >= right } else { left + right >= size },
                (left >= half) == (if subtract { right < half } else { right >= half }) && (value >= half)
                    != (left >= half),
            )
        }),
{
    let m = width_mask(is_64);
    let raw = if subtract { left.wrapping_sub(right) } else { left.wrapping_add(right) };
    let value = raw & m;
    lemma_width_mask(raw);
    if is_64 {
        lemma_sign_bits(left, right, value, 63, 0x8000_0000_0000_0000);
    } else {
        assert(value <= 0xffff_ffff);
        lemma_sign_bits(left, right, value, 31, 0x8000_0000);
        if subtract && left < right {
            assert(raw as int == left - right + 0x1_0000_0000_0000_0000);
            assert((left - right + 0x1_0000_0000_0000_0000) % 0x1_0000_0000 == (left - right)
                % 0x1_0000_0000) by {
                vstd::arithmetic::div_mod::lemma_mod_multiples_vanish(
                    0x1_0000_0000,
                    left - right,
                    0x1_0000_0000,
                );
            }
        }
    }
}

/// Each flag of `pack_flags` sits in its own bit.
proof fn lemma_pack_flags(n: bool, z: bool, c: bool, v: bool)
    by (bit_vector)
    ensures
        (pack_flags(n, z, c, v) & 8 != 0) == n,
        (pack_flags(n, z, c, v) & 4 != 0) == z,
        (pack_flags(n, z, c, v) & 2 != 0) == c,
        (pack_flags(n, z, c, v) & 1 != 0) == v,
{
}

/// After a comparison (SUBS, CMP) of `left` with `right` at width `2^w`, each
/// condition tests the comparison: EQ and NE equality, HS and LO unsigned
/// `>=` and `<`, HI and LS unsigned `>` and `<=`, GE and LT signed `>=` and
/// `<`, GT and LE signed `>` and `<=`, where a value of the top half reads as
/// itself minus `2^w`.
pub proof fn lemma_compare_conditions(left: u64, right: u64, is_64: bool)
    requires
        left <= width_mask(is_64),
        right <= width_mask(is_64),
    ensures
        ({
            let f = add_sub(left, right, true, is_64).1;
            let size: int = if is_64 { 0x1_0000_0000_0000_0000 } else { 0x1_0000_0000 };
            let half: int = size / 2;
            let sl: int = if left >= half { left - size } else { left as int };
            let sr: int = if right >= half { right - size } else { right as int };
            &&& condition(f, 0) == (left == right)
            &&& condition(f, 1) == (left != right)
            &&& condition(f, 2) == (left >= right)
            &&& condition(f, 3) == (left < right)
            &&& condition(f, 8) == (left > right)
            &&& condition(f, 9) == (left <= right)
            &&& condition(f, 10) == (sl >= sr)
            &&& condition(f, 11) == (sl < sr)
            &&& condition(f, 12) == (sl > sr)
            &&& condition(f, 13) == (sl <= sr)
        }),
{
    lemma_add_sub(left, right, true, is_64);
    let size: int = if is_64 { 0x1_0000_0000_0000_0000 } else { 0x1_0000_0000 };
    let half: int = size / 2;
    let value = add_sub(left, right, true, is_64).0;
    assert(value as int == if left >= right { left - right } else { left - right + size });
    lemma_pack_flags(
        value >= half,
        value == 0,
        left >= right,
        (left >= half) == (right < half) && (value >= half) != (left >= half),
    );
}

fn flags(n: bool, z: bool, c: bool, v: bool) -> (r: u8)
    ensures
        r == pack_flags(n, z, c, v),
{
    (if n {
        8u8
    } else {
        0u8
    }) | (if z {
        4u8
    } else {
        0u8
    }) | (if c {
        2u8
    } else {
        0u8
    }) | (if v {
        1u8
    } else {
        0u8
    })
}

fn add_sub_exec(left: u64, right: u64, subtract: bool, is_64: bool) -> (r: (u64, u8))
    ensures
        r == add_sub(left, right, subtract, is_64),
{
    let m: u64 = if is_64 {
        u64::MAX
    } else {
        0xffff_ffff
    };
    let sign: u64 = if is_64 {
        63
    } else {
        31
    };
    let result = (if subtract {
        left.wrapping_sub(right)
    } else {
        left.wrapping_add(right)
    }) & m;
    let n = result >> sign != 0;
    let z = result == 0;
    let c = if subtract {
        left >= right
    } else {
        (left as u128) + (right as u128) > (m as u128)
    };
    let v = if subtract {
        (((left ^ right) & (left ^ result)) >> sign) != 0
    } else {
        ((!(left ^ right) & (left ^ result)) >> sign) != 0
    };
    (result, flags(n, z, c, v))
}

/// Which handler an instruction word reaches, in decoder order.
#[derive(Debug, Clone, Copy, PartialEq, Eq, Structural)]
pub enum InsnClass {
    ImageHeader,
    Branch,
    SystemRegister,
    StackSelect,
    ExceptionReturn,
    BranchCond,
    CompareBranch,
    PcRelative,
    CondSelect,
    CondCompare,
    TestBranch,
    BranchRegister,
    AddSubImmediate,
    AddSubShifted,
    AddSubExtended,
    LogicalImmediate,
    LogicalShifted,
    ShiftVariable,
    Unary,
    MultiplyAdd,
    MoveWide,
    Bitfield,
    LoadLiteral,
    LoadStoreUnsigned,
    LoadStoreIndexed,
    LoadStoreRegister,
    LoadStorePair,
    Hint,
    Barrier,
    CacheMaintenance,
    ZeroBlock,
    TlbInvalidate,
    Unsupported,
}

pub open spec fn class_of(w: u32) -> InsnClass {
    if w == 0xfa40_5a4d {
        InsnClass::ImageHeader
    } else if w & 0x7c00_0000 == 0x1400_0000 {
        InsnClass::Branch
    } else if w & 0xfff0_0000 == 0xd530_0000 || w & 0xfff0_0000 == 0xd510_0000 {
        InsnClass::SystemRegister
    } else if w == 0xd500_40bf || w == 0xd500_41bf {
        InsnClass::StackSelect
    } else if w == 0xd69f_03e0 {
        InsnClass::ExceptionReturn
    } else if w & 0xff00_0010 == 0x5400_0000 {
        InsnClass::BranchCond
    } else if w & 0x7e00_0000 == 0x3400_0000 {
        InsnClass::CompareBranch
    } else if w & 0x1f00_0000 == 0x1000_0000 {
        InsnClass::PcRelative
    } else if w & 0x1fe0_0000 == 0x1a80_0000 {
        InsnClass::CondSelect
    } else if w & 0x1fe0_0000 == 0x1a40_0000 {
        InsnClass::CondCompare
    } else if w & 0x7e00_0000 == 0x3600_0000 {
        InsnClass::TestBranch
    } else if w & 0xffff_fc1f == 0xd61f_0000 || w & 0xffff_fc1f == 0xd63f_0000 || w & 0xffff_fc1f
        == 0xd65f_0000 {
        InsnClass::BranchRegister
    } else if w & 0x1f00_0000 == 0x1100_0000 {
        InsnClass::AddSubImmediate
    } else if w & 0x1f20_0000 == 0x0b00_0000 {
        InsnClass::AddSubShifted
    } else if w & 0x1fe0_0000 == 0x0b20_0000 {
        InsnClass::AddSubExtended
    } else if w & 0x1f80_0000 == 0x1200_0000 {
        InsnClass::LogicalImmediate
    } else if w & 0x1f00_0000 == 0x0a00_0000 {
        InsnClass::LogicalShifted
    } else if w & 0x1fe0_f000 == 0x1ac0_2000 {
        InsnClass::ShiftVariable
    } else if w & 0x7fff_c000 == 0x5ac0_0000 {
        InsnClass::Unary
    } else if w & 0x1fe0_0000 == 0x1b00_0000 {
        InsnClass::MultiplyAdd
    } else if w & 0x1f80_0000 == 0x1280_0000 {
        InsnClass::MoveWide
    } else if w & 0x1f80_0000 == 0x1300_0000 {
        InsnClass::Bitfield
    } else if w & 0xff00_0000 == 0x1800_0000 || w & 0xff00_0000 == 0x5800_0000 {
        InsnClass::LoadLiteral
    } else if w & 0x3b00_0000 == 0x3900_0000 {
        InsnClass::LoadStoreUnsigned
    } else if w & 0x3b20_0000 == 0x3800_0000 && (w >> 10u32) & 3 != 2 {
        InsnClass::LoadStoreIndexed
    } else if w & 0x3b20_0c00 == 0x3820_0800 {
        InsnClass::LoadStoreRegister
    } else if w & 0x3e00_0000 == 0x2800_0000 && w >> 30u32 == 2 && 1 <= (w >> 23u32) & 3 <= 3 {
        InsnClass::LoadStorePair
    } else if w & 0xffff_f01f == 0xd503_201f {
        InsnClass::Hint
    } else if w & 0xffff_f0ff == 0xd503_309f || w & 0xffff_f0ff == 0xd503_30bf || w & 0xffff_f0ff
        == 0xd503_30df {
        InsnClass::Barrier
    } else if w & 0xffff_ffe0 == 0xd508_7620 || w & 0xffff_ffe0 == 0xd50b_7e20 {
        InsnClass::CacheMaintenance
    } else if w & 0xffff_ffe0 == 0xd50b_7420 {
        InsnClass::ZeroBlock
    } else if w == 0xd508_871f || w == 0xd508_751f {
        InsnClass::TlbInvalidate
    } else {
        InsnClass::Unsupported
    }
}

fn classify(w: u32) -> (c: InsnClass)
    ensures
        c == class_of(w),
{
    if w == 0xfa40_5a4d {
        InsnClass::ImageHeader
    } else if w & 0x7c00_0000 == 0x1400_0000 {
        InsnClass::Branch
    } else if w & 0xfff0_0000 == 0xd530_0000 || w & 0xfff0_0000 == 0xd510_0000 {
        InsnClass::SystemRegister
    } else if w == 0xd500_40bf || w == 0xd500_41bf {
        InsnClass::StackSelect
    } else if w == 0xd69f_03e0 {
        InsnClass::ExceptionReturn
    } else if w & 0xff00_0010 == 0x5400_0000 {
        InsnClass::BranchCond
    } else if w & 0x7e00_0000 == 0x3400_0000 {
        InsnClass::CompareBranch
    } else if w & 0x1f00_0000 == 0x1000_0000 {
        InsnClass::PcRelative
    } else if w & 0x1fe0_0000 == 0x1a80_0000 {
        InsnClass::CondSelect
    } else if w & 0x1fe0_0000 == 0x1a40_0000 {
        InsnClass::CondCompare
    } else if w & 0x7e00_0000 == 0x3600_0000 {
        InsnClass::TestBranch
    } else if w & 0xffff_fc1f == 0xd61f_0000 || w & 0xffff_fc1f == 0xd63f_0000 || w & 0xffff_fc1f
        == 0xd65f_0000 {
        InsnClass::BranchRegister
    } else if w & 0x1f00_0000 == 0x1100_0000 {
        InsnClass::AddSubImmediate
    } else if w & 0x1f20_0000 == 0x0b00_0000 {
        InsnClass::AddSubShifted
    } else if w & 0x1fe0_0000 == 0x0b20_0000 {
        InsnClass::AddSubExtended
    } else if w & 0x1f80_0000 == 0x1200_0000 {
        InsnClass::LogicalImmediate
    } else if w & 0x1f00_0000 == 0x0a00_0000 {
        InsnClass::LogicalShifted
    } else if w & 0x1fe0_f000 == 0x1ac0_2000 {
        InsnClass::ShiftVariable
    } else if w & 0x7fff_c000 == 0x5ac0_0000 {
        InsnClass::Unary
    } else if w & 0x1fe0_0000 == 0x1b00_0000 {
        InsnClass::MultiplyAdd
    } else if w & 0x1f80_0000 == 0x1280_0000 {
        InsnClass::MoveWide
    } else if w & 0x1f80_0000 == 0x1300_0000 {
        InsnClass::Bitfield
    } else if w & 0xff00_0000 == 0x1800_0000 || w & 0xff00_0000 == 0x5800_0000 {
        InsnClass::LoadLiteral
    } else if w & 0x3b00_0000 == 0x3900_0000 {
        InsnClass::LoadStoreUnsigned
    } else if w & 0x3b20_0000 == 0x3800_0000 && (w >> 10) & 3 != 2 {
        InsnClass::LoadStoreIndexed
    } else if w & 0x3b20_0c00 == 0x3820_0800 {
        InsnClass::LoadStoreRegister
    } else if w & 0x3e00_0000 == 0x2800_0000 && w >> 30 == 2 && 1 <= (w >> 23) & 3 && (w >> 23) & 3
        <= 3 {
        InsnClass::LoadStorePair
    } else if w & 0xffff_f01f == 0xd503_201f {
        InsnClass::Hint
    } else if w & 0xffff_f0ff == 0xd503_309f || w & 0xffff_f0ff == 0xd503_30bf || w & 0xffff_f0ff
        == 0xd503_30df {
        InsnClass::Barrier
    } else if w & 0xffff_ffe0 == 0xd508_7620 || w & 0xffff_ffe0 == 0xd50b_7e20 {
        InsnClass::CacheMaintenance
    } else if w & 0xffff_ffe0 == 0xd50b_7420 {
        InsnClass::ZeroBlock
    } else if w == 0xd508_871f || w == 0xd508_751f {
        InsnClass::TlbInvalidate
    } else {
        InsnClass::Unsupported
    }
}


/// Each field extracted from an instruction word stays within its width.
pub proof fn lemma_fields(w: u32)
    ensures
        w & 31 <= 31,
        (w >> 5u32) & 0xffff <= 0xffff,
        (w >> 5u32) & 31 <= 31,
        (w >> 10u32) & 31 <= 31,
        (w >> 16u32) & 31 <= 31,
        (w >> 10u32) & 63 <= 63,
        (w >> 16u32) & 63 <= 63,
        (w >> 22u32) & 1 <= 1,
        (w >> 29u32) & 3 <= 3,
        (w >> 30u32) <= 3,
        (w >> 12u32) & 15 <= 15,
        (w >> 13u32) & 7 <= 7,
        (w >> 10u32) & 7 <= 7,
        (w >> 22u32) & 3 <= 3,
        (w >> 10u32) & 3 <= 3,
        (w >> 21u32) & 3 <= 3,
        (w >> 23u32) & 3 <= 3,
{
    assert({
        &&& w & 31 <= 31
        &&& (w >> 5u32) & 31 <= 31
        &&& (w >> 10u32) & 31 <= 31
        &&& (w >> 16u32) & 31 <= 31
        &&& (w >> 10u32) & 63 <= 63
        &&& (w >> 16u32) & 63 <= 63
        &&& (w >> 22u32) & 1 <= 1
        &&& (w >> 29u32) & 3 <= 3
        &&& (w >> 30u32) <= 3
        &&& (w >> 12u32) & 15 <= 15
        &&& (w >> 13u32) & 7 <= 7
        &&& (w >> 10u32) & 7 <= 7
        &&& (w >> 22u32) & 3 <= 3
        &&& (w >> 10u32) & 3 <= 3
        &&& (w >> 21u32) & 3 <= 3
        &&& (w >> 23u32) & 3 <= 3
        &&& (w >> 5u32) & 0xffff <= 0xffff
    }) by (bit_vector);
}

/// The branch-offset fields of `w` as `branch_offset` reads them.
proof fn lemma_offset_fields(w: u32)
    by (bit_vector)
    ensures
        ((w >> 0u32) as u64) & mask(26) == (w & 0x03ff_ffff) as u64,
        ((w >> 5u32) as u64) & mask(19) == ((w >> 5u32) & 0x7ffff) as u64,
        ((w >> 5u32) as u64) & mask(14) == ((w >> 5u32) & 0x3fff) as u64,
{
}

pub open spec fn rd(w: u32) -> u32 {
    w & 31
}

pub open spec fn rn(w: u32) -> u32 {
    (w >> 5u32) & 31
}

pub open spec fn rm(w: u32) -> u32 {
    (w >> 16u32) & 31
}

pub open spec fn wide(w: u32) -> bool {
    w & 0x8000_0000 != 0
}

/// A handler's effect on the register file: the new registers, or the
/// failure that leaves them alone.
pub open spec fn reg_outcome(
    old: StaticCpu,
    new: StaticCpu,
    r: Result<(), RelayError>,
    out: Result<Machine, Seq<char>>,
) -> bool {
    &&& same_devices(old, new)
    &&& only_failed(r)
    &&& match out {
        Ok(m) => r is Ok && new.machine() == m,
        Err(e) => failure(r) == Err::<(), Seq<char>>(e) && new.machine() == old.machine(),
    }
}

pub open spec fn advance(m: Machine) -> Machine {
    Machine { pc: next_pc(m.pc), ..m }
}

pub open spec fn with_x(m: Machine, r: u32, v: u64) -> Machine {
    Machine { x: set_xr(m.x, r, v), pc: next_pc(m.pc), ..m }
}

/// Write `v` to `r`, where 31 names the stack pointer, and advance.
pub open spec fn with_xsp(m: Machine, r: u32, v: u64) -> Machine {
    if r == 31 {
        Machine { sp: v, pc: next_pc(m.pc), ..m }
    } else {
        Machine { x: m.x.update(r as int, v), pc: next_pc(m.pc), ..m }
    }
}

pub open spec fn reg_or_sp(m: Machine, r: u32) -> u64 {
    if r == 31 {
        m.sp
    } else {
        m.x[r as int]
    }
}

/// Branch-offset immediates: `bits` wide at `shift`, scaled by four.
pub open spec fn branch_offset(w: u32, shift: u32, bits: u64) -> u64 {
    ((sext((((w >> shift) as u64) & mask(bits)), bits) as u64) << 2u64)
}

/// B, BL, B.cond, CBZ/CBNZ, TBZ/TBNZ, BR/BLR/RET, ERET-free control flow.
pub open spec fn control(m: Machine, w: u32, class: InsnClass) -> Machine {
    let next = next_pc(m.pc);
    match class {
        InsnClass::Branch => Machine {
            x: if w & 0x8000_0000 != 0 { set_xr(m.x, 30, next) } else { m.x },
            pc: m.pc.wrapping_add(branch_offset(w, 0, 26)),
            ..m
        },
        InsnClass::BranchCond => Machine {
            pc: if condition(m.nzcv, w & 15) { m.pc.wrapping_add(branch_offset(w, 5, 19)) } else { next },
            ..m
        },
        InsnClass::CompareBranch => {
            let value = if wide(w) { xr(m.x, rd(w)) } else { xr(m.x, rd(w)) as u32 as u64 };
            let take = (value == 0) == (w & 0x0100_0000 == 0);
            Machine { pc: if take { m.pc.wrapping_add(branch_offset(w, 5, 19)) } else { next }, ..m }
        },
        InsnClass::TestBranch => {
            let bit = ((w >> 19u32) & 31) | ((w >> 26u32) & 32);
            let take = (((xr(m.x, rd(w)) >> bit) & 1) != 0) == (w & 0x0100_0000 != 0);
            Machine { pc: if take { m.pc.wrapping_add(branch_offset(w, 5, 14)) } else { next }, ..m }
        },
        InsnClass::BranchRegister => {
            let x = if w & 0xffff_fc1f == 0xd63f_0000 { set_xr(m.x, 30, next) } else { m.x };
            Machine { x, pc: xr(x, rn(w)), ..m }
        },
        _ => advance(m),
    }
}

impl StaticCpu {
    fn exec_control(&mut self, w: u32, class: InsnClass) -> (r: Result<(), RelayError>)
        requires
            class == class_of(w),
            class == InsnClass::Branch || class == InsnClass::BranchCond || class
                == InsnClass::CompareBranch || class == InsnClass::TestBranch || class
                == InsnClass::BranchRegister || class == InsnClass::ImageHeader || class
                == InsnClass::Hint || class == InsnClass::Barrier || class
                == InsnClass::CacheMaintenance || class == InsnClass::TlbInvalidate,
        ensures
            reg_outcome(*old(self), *final(self), r, Ok(control(old(self).machine(), w, class))),
    {
        let pc = self.pc;
        let next = pc.wrapping_add(4);
        proof {
            lemma_fields(w);
        }
        match class {
            InsnClass::Branch => {
                let imm = (sign_extend((w & 0x03ff_ffff) as u64, 26) as u64) << 2;
                proof {
                    lemma_offset_fields(w);
                }
                if w & 0x8000_0000 != 0 {
                    self.set(30, next);
                }
                self.pc = pc.wrapping_add(imm);
            },
            InsnClass::BranchCond => {
                let imm = (sign_extend(((w >> 5) & 0x7ffff) as u64, 19) as u64) << 2;
                proof {
                    lemma_offset_fields(w);
                }
                self.pc = if condition_holds(self.nzcv, w & 15) {
                    pc.wrapping_add(imm)
                } else {
                    next
                };
            },
            InsnClass::CompareBranch => {
                let value = if w & 0x8000_0000 != 0 {
                    self.x(w & 31)
                } else {
                    self.x(w & 31) as u32 as u64
                };
                let take = (value == 0) == (w & 0x0100_0000 == 0);
                let imm = (sign_extend(((w >> 5) & 0x7ffff) as u64, 19) as u64) << 2;
                proof {
                    lemma_offset_fields(w);
                }
                self.pc = if take {
                    pc.wrapping_add(imm)
                } else {
                    next
                };
            },
            InsnClass::TestBranch => {
                let bit = ((w >> 19) & 31) | ((w >> 26) & 32);
                assert(bit < 64) by (bit_vector)
                    requires
                        bit == ((w >> 19u32) & 31) | ((w >> 26u32) & 32),
                ;
                let value = self.x(w & 31);
                let take = (((value >> bit) & 1) != 0) == (w & 0x0100_0000 != 0);
                let imm = (sign_extend(((w >> 5) & 0x3fff) as u64, 14) as u64) << 2;
                proof {
                    lemma_offset_fields(w);
                }
                self.pc = if take {
                    pc.wrapping_add(imm)
                } else {
                    next
                };
            },
            InsnClass::BranchRegister => {
                if w & 0xffff_fc1f == 0xd63f_0000 {
                    self.set(30, next);
                }
                self.pc = self.x((w >> 5) & 31);
            },
            _ => {
                self.pc = next;
            },
        }
        Ok(())
    }
}


/// ADR and ADRP.
pub open spec fn pc_relative(m: Machine, w: u32) -> Machine {
    let imm = sext(((((w >> 5u32) & 0x7ffff) << 2u32) | ((w >> 29u32) & 3)) as u64, 21);
    let page = w & 0x8000_0000 != 0;
    let base = if page { m.pc & !0xfffu64 } else { m.pc };
    let displacement = if page { ((imm as u64) << 12u64) } else { imm as u64 };
    with_x(m, rd(w), base.wrapping_add(displacement))
}

/// CSEL, CSINC, CSINV and CSNEG.
pub open spec fn cond_select(m: Machine, w: u32) -> Machine {
    let value = if condition(m.nzcv, (w >> 12u32) & 15) {
        xr(m.x, rn(w))
    } else {
        let alternate = xr(m.x, rm(w));
        if (w >> 30u32) & 1 == 0 {
            if (w >> 10u32) & 1 == 0 { alternate } else { alternate.wrapping_add(1) }
        } else {
            if (w >> 10u32) & 1 == 0 { !alternate } else { 0u64.wrapping_sub(alternate) }
        }
    };
    with_x(m, rd(w), value & width_mask(wide(w)))
}

/// CSEL, CSINC, CSINV and CSNEG write `Xn` when the condition holds, and
/// otherwise `Xm`, `Xm + 1`, the complement of `Xm` or `-Xm`, modulo `2^n`
/// at the width `n`; every other register keeps its value and the pc moves on.
pub proof fn lemma_cond_select(m: Machine, w: u32)
    requires
        m.x.len() == 31,
    ensures
        ({
            let size: int = if wide(w) { 0x1_0000_0000_0000_0000 } else { 0x1_0000_0000 };
            let n = cond_select(m, w);
            let alternate = xr(m.x, rm(w)) as int;
            let op = (w >> 30u32) & 1;
            let inc = (w >> 10u32) & 1;
            &&& rd(w) != 31 ==> xr(n.x, rd(w)) as int == if condition(m.nzcv, (w >> 12u32) & 15) {
                xr(m.x, rn(w)) as int % size
            } else if op == 0 && inc == 0 {
                alternate % size
            } else if op == 0 {
                (alternate + 1) % size
            } else if inc == 0 {
                size - 1 - alternate % size
            } else {
                (0 - alternate) % size
            }
            &&& forall|j: u32| j < 31 && j != rd(w) ==> xr(#[trigger] n.x, j) == xr(m.x, j)
            &&& n.pc == next_pc(m.pc)
        }),
{
    lemma_fields(w);
    let alternate = xr(m.x, rm(w));
    let size: int = if wide(w) { 0x1_0000_0000_0000_0000 } else { 0x1_0000_0000 };
    let value = if condition(m.nzcv, (w >> 12u32) & 15) {
        xr(m.x, rn(w))
    } else {
        if (w >> 30u32) & 1 == 0 {
            if (w >> 10u32) & 1 == 0 { alternate } else { alternate.wrapping_add(1) }
        } else {
            if (w >> 10u32) & 1 == 0 { !alternate } else { 0u64.wrapping_sub(alternate) }
        }
    };
    let mk = width_mask(wide(w));
    lemma_width_mask(value);
    lemma_width_mask(alternate);
    assert(!alternate & 0xffff_ffffu64 == 0xffff_ffffu64 - (alternate & 0xffff_ffffu64) && !alternate
        == 0xffff_ffff_ffff_ffffu64 - alternate) by (bit_vector);
    if !wide(w) {
        assert(((alternate + 1) % 0x1_0000_0000_0000_0000) % 0x1_0000_0000 == (alternate as int + 1)
            % 0x1_0000_0000) by {
            vstd::arithmetic::div_mod::lemma_mod_mod(alternate as int + 1, 0x1_0000_0000, 0x1_0000_0000);
        }
        assert(((0 - alternate) % 0x1_0000_0000_0000_0000) % 0x1_0000_0000 == (0 - alternate as int)
            % 0x1_0000_0000) by {
            vstd::arithmetic::div_mod::lemma_mod_mod(0 - alternate as int, 0x1_0000_0000, 0x1_0000_0000);
        }
    }
    let n = cond_select(m, w);
    assert(n.x == set_xr(m.x, rd(w), value & mk));
    assert forall|j: u32| j < 31 && j != rd(w) implies xr(#[trigger] n.x, j) == xr(m.x, j) by {}
}

/// CCMP and CCMN: compare when the condition holds, else install the literal flags.
pub open spec fn cond_compare(m: Machine, w: u32) -> Machine {
    let nzcv = if condition(m.nzcv, (w >> 12u32) & 15) {
        let mk = width_mask(wide(w));
        let left = xr(m.x, rn(w)) & mk;
        let right = if w & 0x800 != 0 { rm(w) as u64 } else { xr(m.x, rm(w)) & mk };
        add_sub(left, right, w & 0x4000_0000 != 0, wide(w)).1
    } else {
        (w & 15) as u8
    };
    Machine { nzcv, pc: next_pc(m.pc), ..m }
}

/// ADD, ADDS, SUB, SUBS with a 12-bit immediate; 31 names SP except as a flag-setting destination.
pub open spec fn add_sub_immediate(m: Machine, w: u32) -> Machine {
    let is_64 = wide(w);
    let shift: u64 = if w & 0x0040_0000 != 0 { 12 } else { 0 };
    let imm = (((w >> 10u32) & 0xfff) as u64) << shift;
    let left = reg_or_sp(m, rn(w)) & width_mask(is_64);
    let (value, f) = add_sub(left, imm, w & 0x4000_0000 != 0, is_64);
    if w & 0x2000_0000 != 0 {
        Machine { nzcv: f, ..with_x(m, rd(w), value) }
    } else {
        with_xsp(m, rd(w), value)
    }
}

/// ADD and SUB with an immediate compute `Xn ± imm12 * 4096^sh` modulo `2^n`
/// at the width `n`, where register 31 names the stack pointer as the source
/// and, unless the flags are set, as the destination too; without S the flags
/// are kept. Every other register keeps its value and the pc moves on.
pub proof fn lemma_add_sub_immediate(m: Machine, w: u32)
    requires
        m.x.len() == 31,
    ensures
        ({
            let size: int = if wide(w) { 0x1_0000_0000_0000_0000 } else { 0x1_0000_0000 };
            let imm: int = ((w >> 10u32) & 0xfff) * (if w & 0x0040_0000 != 0 { 4096int } else { 1int });
            let left: int = reg_or_sp(m, rn(w)) as int % size;
            let expected: int = (if w & 0x4000_0000 != 0 { left - imm } else { left + imm }) % size;
            let n = add_sub_immediate(m, w);
            &&& rd(w) != 31 ==> xr(n.x, rd(w)) as int == expected
            &&& w & 0x2000_0000 == 0 && rd(w) == 31 ==> n.sp as int == expected
            &&& w & 0x2000_0000 == 0 ==> n.nzcv == m.nzcv
            &&& forall|j: u32| j < 31 && j != rd(w) ==> xr(#[trigger] n.x, j) == xr(m.x, j)
            &&& n.pc == next_pc(m.pc)
        }),
{
    lemma_fields(w);
    let is_64 = wide(w);
    let shift: u64 = if w & 0x0040_0000 != 0 { 12 } else { 0 };
    let imm12 = ((w >> 10u32) & 0xfff) as u64;
    let imm = imm12 << shift;
    assert(imm12 <= 0xfff) by (bit_vector)
        requires
            imm12 == ((w >> 10u32) & 0xfff) as u64,
    ;
    vstd::arithmetic::power2::lemma2_to64();
    vstd::bits::lemma_u64_shl_is_mul(imm12, shift);
    let left = reg_or_sp(m, rn(w)) & width_mask(is_64);
    lemma_width_mask(reg_or_sp(m, rn(w)));
    assert(imm <= width_mask(is_64));
    lemma_add_sub(left, imm, w & 0x4000_0000 != 0, is_64);
    let n = add_sub_immediate(m, w);
    let value = add_sub(left, imm, w & 0x4000_0000 != 0, is_64).0;
    let size: int = if is_64 { 0x1_0000_0000_0000_0000 } else { 0x1_0000_0000 };
    assert(left as int == reg_or_sp(m, rn(w)) as int % size);
    if w & 0x2000_0000 != 0 {
        assert(n.x == set_xr(m.x, rd(w), value));
    } else if rd(w) != 31 {
        assert(n.x == m.x.update(rd(w) as int, value));
    }
    assert forall|j: u32| j < 31 && j != rd(w) implies xr(#[trigger] n.x, j) == xr(m.x, j) by {}
}

/// The shifted second operand of register-form data processing, or `None`
/// for a reserved shift.
pub open spec fn shifted(source: u64, kind: u32, amount: u32, is_64: bool) -> Option<u64> {
    if kind == 0 {
        Some(source << amount)
    } else if kind == 1 {
        Some(source >> amount)
    } else if kind == 2 {
        Some(
            if is_64 {
                ((source as i64) >> amount) as u64
            } else {
                ((source as u32 as i32) >> amount) as u32 as u64
            },
        )
    } else {
        None
    }
}

/// ADD/SUB (shifted register), including CMP; 31 is XZR here.
pub open spec fn add_sub_shifted(m: Machine, w: u32) -> Result<Machine, Seq<char>> {
    let is_64 = wide(w);
    let mk = width_mask(is_64);
    let amount = (w >> 10u32) & 63;
    if !is_64 && amount >= 32 {
        Err(unsupported_text(m.pc, w))
    } else {
        match shifted(xr(m.x, rm(w)) & mk, (w >> 22u32) & 3, amount, is_64) {
            None => Err(unsupported_text(m.pc, w)),
            Some(right) => {
                let left = xr(m.x, rn(w)) & mk;
                let (result, f) = add_sub(left, right & mk, w & 0x4000_0000 != 0, is_64);
                let n = with_x(m, rd(w), result);
                Ok(if w & 0x2000_0000 != 0 { Machine { nzcv: f, ..n } } else { n })
            },
        }
    }
}

/// The extended register operand, or `None` for a reserved option.
pub open spec fn extended(source: u64, option: u32, is_64: bool) -> Option<u64> {
    if option == 0 {
        Some(source as u8 as u64)
    } else if option == 1 {
        Some(source as u16 as u64)
    } else if option == 2 {
        Some(source as u32 as u64)
    } else if option == 3 && is_64 {
        Some(source)
    } else if option == 4 {
        Some(source as u8 as i8 as i64 as u64)
    } else if option == 5 {
        Some(source as u16 as i16 as i64 as u64)
    } else if option == 6 {
        Some(source as u32 as i32 as i64 as u64)
    } else if option == 7 && is_64 {
        Some(source)
    } else {
        None
    }
}

/// ADD/SUB (extended register), as Linux uses for SXTW-indexed pointers.
pub open spec fn add_sub_extended(m: Machine, w: u32) -> Result<Machine, Seq<char>> {
    let is_64 = wide(w);
    let mk = width_mask(is_64);
    let amount = (w >> 10u32) & 7;
    if amount > 4 {
        Err(unsupported_text(m.pc, w))
    } else {
        match extended(xr(m.x, rm(w)), (w >> 13u32) & 7, is_64) {
            None => Err(unsupported_text(m.pc, w)),
            Some(e) => {
                let right = (e << amount) & mk;
                let left = reg_or_sp(m, rn(w)) & mk;
                let (result, f) = add_sub(left, right, w & 0x4000_0000 != 0, is_64);
                Ok(
                    if w & 0x2000_0000 != 0 {
                        Machine { nzcv: f, ..with_x(m, rd(w), result) }
                    } else {
                        with_xsp(m, rd(w), result)
                    },
                )
            },
        }
    }
}

/// AND, ORR, EOR or ANDS of two operands at a width; ANDS sets N and Z.
pub open spec fn logical(m: Machine, w: u32, left: u64, right: u64) -> Machine {
    let is_64 = wide(w);
    let opc = (w >> 29u32) & 3;
    let result = (if opc == 1 { left | right } else if opc == 2 { left ^ right } else { left & right })
        & width_mask(is_64);
    let n = with_x(m, rd(w), result);
    if opc == 3 {
        let sign: u64 = if is_64 { 63 } else { 31 };
        Machine { nzcv: pack_flags(result >> sign != 0, result == 0, false, false), ..n }
    } else {
        n
    }
}

pub open spec fn logical_immediate_insn(m: Machine, w: u32) -> Result<Machine, Seq<char>> {
    match logical_immediate(wide(w), (w >> 22u32) & 1, (w >> 16u32) & 63, (w >> 10u32) & 63) {
        None => Err("StaticCpu invalid logical immediate "@ + at_text(m.pc, w)),
        Some(imm) => Ok(logical(m, w, xr(m.x, rn(w)), imm)),
    }
}

pub open spec fn logical_shifted(m: Machine, w: u32) -> Result<Machine, Seq<char>> {
    let is_64 = wide(w);
    let amount = (w >> 10u32) & 63;
    let source = xr(m.x, rm(w));
    let kind = (w >> 22u32) & 3;
    if !is_64 && amount >= 32 {
        Err(unsupported_text(m.pc, w))
    } else if kind == 3 {
        Err(unsupported_text(m.pc, w))
    } else {
        let shifted = if kind == 0 {
            source << amount
        } else if kind == 1 {
            source >> amount
        } else {
            ((source as i64) >> amount) as u64
        };
        let right = if w & 0x0020_0000 != 0 { !shifted } else { shifted };
        Ok(logical(m, w, xr(m.x, rn(w)), right))
    }
}

pub open spec fn rotr64(v: u64, amount: u32) -> u64 {
    if amount == 0 { v } else { (v >> amount) | (v << ((64 - amount) as u32)) }
}

pub open spec fn rotr32(v: u32, amount: u32) -> u32 {
    if amount == 0 { v } else { (v >> amount) | (v << ((32 - amount) as u32)) }
}

/// LSLV, LSRV, ASRV and RORV.
pub open spec fn shift_variable(m: Machine, w: u32) -> Machine {
    let is_64 = wide(w);
    let mk = width_mask(is_64);
    let amount = (xr(m.x, rm(w)) & (if is_64 { 63u64 } else { 31u64 })) as u32;
    let source = xr(m.x, rn(w)) & mk;
    let kind = (w >> 10u32) & 3;
    let result = if kind == 0 {
        source << amount
    } else if kind == 1 {
        source >> amount
    } else if kind == 2 {
        if is_64 {
            ((source as i64) >> amount) as u64
        } else {
            ((source as u32 as i32) >> amount) as u32 as u64
        }
    } else {
        if is_64 { rotr64(source, amount) } else { rotr32(source as u32, amount) as u64 }
    };
    with_x(m, rd(w), result & mk)
}

/// Bit `i` of a 64-bit variable shift of `source` by `x mod 64`.
#[verifier::rlimit(100)]
proof fn lemma_shift_bits64(source: u64, x: u64, amount: u32, kind: u32, i: u64, result: u64)
    by (bit_vector)
    requires
        i < 64,
        amount == (x & 63u64) as u32,
        result == (if kind == 0 {
            source << amount
        } else if kind == 1 {
            source >> amount
        } else if kind == 2 {
            ((source as i64) >> amount) as u64
        } else {
            rotr64(source, amount)
        }) & 0xffff_ffff_ffff_ffffu64,
    ensures
        amount == x % 64,
        kind == 0 ==> (result >> i) & 1 == if i >= amount { (source >> ((i - amount) as u64)) & 1 } else { 0 },
        kind == 1 ==> (result >> i) & 1 == if i + amount < 64 { (source >> ((i + amount) as u64)) & 1 } else { 0 },
        kind == 2 ==> (result >> i) & 1 == if i + amount < 64 {
            (source >> ((i + amount) as u64)) & 1
        } else {
            (source >> 63u64) & 1
        },
        kind == 3 ==> (result >> i) & 1 == (source >> (((i + amount) % 64) as u64)) & 1,
{
}

/// Bit `i` of a 32-bit variable shift of `source` by `x mod 32`.
#[verifier::rlimit(100)]
proof fn lemma_shift_bits32(source: u64, x: u64, amount: u32, kind: u32, i: u64, result: u64)
    by (bit_vector)
    requires
        i < 32,
        source <= 0xffff_ffff,
        amount == (x & 31u64) as u32,
        result == (if kind == 0 {
            source << amount
        } else if kind == 1 {
            source >> amount
        } else if kind == 2 {
            ((source as u32 as i32) >> amount) as u32 as u64
        } else {
            rotr32(source as u32, amount) as u64
        }) & 0xffff_ffffu64,
    ensures
        amount == x % 32,
        result <= 0xffff_ffff,
        kind == 0 ==> (result >> i) & 1 == if i >= amount { (source >> ((i - amount) as u64)) & 1 } else { 0 },
        kind == 1 ==> (result >> i) & 1 == if i + amount < 32 { (source >> ((i + amount) as u64)) & 1 } else { 0 },
        kind == 2 ==> (result >> i) & 1 == if i + amount < 32 {
            (source >> ((i + amount) as u64)) & 1
        } else {
            (source >> 31u64) & 1
        },
        kind == 3 ==> (result >> i) & 1 == (source >> (((i + amount) % 32) as u64)) & 1,
{
}

/// LSLV, LSRV, ASRV and RORV at width `n` (64 with bit 31 set, else 32) shift
/// the low `n` bits of `Xn` by `Xm mod n`: bit `i` of the result is bit
/// `i - s` of the source for a left shift (zero below `s`), bit `i + s` for a
/// right shift (zero, or for ASRV the sign bit, past the top), and bit
/// `(i + s) mod n` for a rotation right. The result fits in `n` bits, every
/// other register keeps its value and the pc moves on.
pub proof fn lemma_shift_variable(m: Machine, w: u32, i: u64)
    requires
        m.x.len() == 31,
        i < (if wide(w) { 64u64 } else { 32u64 }),
    ensures
        ({
            let bits: u64 = if wide(w) { 64 } else { 32 };
            let source = xr(m.x, rn(w)) & width_mask(wide(w));
            let s = (xr(m.x, rm(w)) % bits) as u64;
            let v = xr(shift_variable(m, w).x, rd(w));
            let kind = (w >> 10u32) & 3;
            rd(w) != 31 ==> {
                &&& v <= width_mask(wide(w))
                &&& kind == 0 ==> (v >> i) & 1 == if i >= s { (source >> (i - s) as u64) & 1 } else { 0 }
                &&& kind == 1 ==> (v >> i) & 1 == if i + s < bits { (source >> (i + s) as u64) & 1 } else { 0 }
                &&& kind == 2 ==> (v >> i) & 1 == if i + s < bits {
                    (source >> (i + s) as u64) & 1
                } else {
                    (source >> (bits - 1) as u64) & 1
                }
                &&& kind == 3 ==> (v >> i) & 1 == (source >> ((i + s) % bits as int) as u64) & 1
            }
        }),
        forall|j: u32| j < 31 && j != rd(w) ==> xr(#[trigger] shift_variable(m, w).x, j) == xr(m.x, j),
        shift_variable(m, w).pc == next_pc(m.pc),
{
    let is_64 = wide(w);
    let mk = width_mask(is_64);
    let amount = (xr(m.x, rm(w)) & (if is_64 { 63u64 } else { 31u64 })) as u32;
    let source = xr(m.x, rn(w)) & mk;
    let kind = (w >> 10u32) & 3;
    let result = (if kind == 0 {
        source << amount
    } else if kind == 1 {
        source >> amount
    } else if kind == 2 {
        if is_64 {
            ((source as i64) >> amount) as u64
        } else {
            ((source as u32 as i32) >> amount) as u32 as u64
        }
    } else {
        if is_64 { rotr64(source, amount) } else { rotr32(source as u32, amount) as u64 }
    }) & mk;
    let x = xr(m.x, rm(w));
    lemma_width_mask(xr(m.x, rn(w)));
    if is_64 {
        lemma_shift_bits64(source, x, amount, kind, i, result);
    } else {
        lemma_shift_bits32(source, x, amount, kind, i, result);
    }
    lemma_fields(w);
    let new = shift_variable(m, w);
    assert(new.x == set_xr(m.x, rd(w), result));
    assert forall|j: u32| j < 31 && j != rd(w) implies xr(#[trigger] shift_variable(m, w).x, j) == xr(
        m.x,
        j,
    ) by {
        assert(shift_variable(m, w).x == set_xr(m.x, rd(w), result));
    }
}

/// MADD, MSUB and their MUL and MNEG aliases.
pub open spec fn multiply_add(m: Machine, w: u32) -> Machine {
    let mk = width_mask(wide(w));
    let left = xr(m.x, rn(w)) & mk;
    let right = xr(m.x, rm(w)) & mk;
    let addend = xr(m.x, (w >> 10u32) & 31) & mk;
    let product = left.wrapping_mul(right) & mk;
    let result = (if w & 0x8000 == 0 { product.wrapping_add(addend) } else { addend.wrapping_sub(product) }) & mk;
    with_x(m, rd(w), result)
}

/// The low 32 bits of a register, and all 64 of them, as the two widths read it.
proof fn lemma_width_mask(v: u64)
    ensures
        (v & width_mask(false)) as int == v as int % 0x1_0000_0000,
        v & width_mask(true) == v,
{
    assert((v & 0xffff_ffffu64) as int == v as int % 0x1_0000_0000 && v & 0xffff_ffff_ffff_ffffu64
        == v) by (bit_vector);
}

/// MADD writes `(Xa + Xn * Xm) mod 2^width` to `Xd`, MSUB (bit 15 set) writes
/// `(Xa - Xn * Xm) mod 2^width`, each source read at the operation's width
/// (64 bits with bit 31 set, else 32); every other register keeps its value
/// and the pc moves to the next instruction.
pub proof fn lemma_multiply_add(m: Machine, w: u32)
    requires
        m.x.len() == 31,
    ensures
        ({
            let size: int = if wide(w) { 0x1_0000_0000_0000_0000 } else { 0x1_0000_0000 };
            let n = xr(m.x, rn(w)) as int % size;
            let k = xr(m.x, rm(w)) as int % size;
            let a = xr(m.x, (w >> 10u32) & 31) as int % size;
            rd(w) != 31 ==> xr(multiply_add(m, w).x, rd(w)) as int == if w & 0x8000 == 0 {
                (a + n * k) % size
            } else {
                (a - n * k) % size
            }
        }),
        forall|j: u32| j < 31 && j != rd(w) ==> xr(#[trigger] multiply_add(m, w).x, j) == xr(m.x, j),
        multiply_add(m, w).pc == next_pc(m.pc),
{
    let mk = width_mask(wide(w));
    let left = xr(m.x, rn(w)) & mk;
    let right = xr(m.x, rm(w)) & mk;
    let addend = xr(m.x, (w >> 10u32) & 31) & mk;
    let product = left.wrapping_mul(right) & mk;
    let sum = product.wrapping_add(addend);
    let difference = addend.wrapping_sub(product);
    let size: int = if wide(w) { 0x1_0000_0000_0000_0000 } else { 0x1_0000_0000 };
    let rest: int = if wide(w) { 1 } else { 0x1_0000_0000 };
    assert(size * rest == 0x1_0000_0000_0000_0000);
    let q = left as int * right as int;
    lemma_width_mask(xr(m.x, rn(w)));
    lemma_width_mask(xr(m.x, rm(w)));
    lemma_width_mask(xr(m.x, (w >> 10u32) & 31));
    lemma_width_mask(left.wrapping_mul(right));
    lemma_width_mask(sum);
    lemma_width_mask(difference);
    assert(0 <= q < 0x1_0000_0000_0000_0000 * 0x1_0000_0000_0000_0000) by (nonlinear_arith)
        requires
            q == left as int * right as int,
    ;
    assert(left.wrapping_mul(right) as int == q % 0x1_0000_0000_0000_0000);
    if wide(w) {
        assert(product as int == q % size);
    } else {
        assert(q < 0x1_0000_0000_0000_0000) by (nonlinear_arith)
            requires
                q == left as int * right as int,
                left < 0x1_0000_0000,
                right < 0x1_0000_0000,
        ;
        assert(product as int == q % size);
    }
    assert(sum as int == (product + addend) % 0x1_0000_0000_0000_0000);
    assert(difference as int == (addend - product) % 0x1_0000_0000_0000_0000);
    assert(((product + addend) % 0x1_0000_0000_0000_0000) % size == (addend as int + q) % size) by {
        vstd::arithmetic::div_mod::lemma_mod_mod(product + addend, size, rest);
        vstd::arithmetic::div_mod::lemma_add_mod_noop_right(addend as int, q, size);
    }
    assert(((addend - product) % 0x1_0000_0000_0000_0000) % size == (addend as int - q) % size) by {
        vstd::arithmetic::div_mod::lemma_mod_mod(addend - product, size, rest);
        vstd::arithmetic::div_mod::lemma_sub_mod_noop_right(addend as int, q, size);
    }
    let result = (if w & 0x8000 == 0 { sum } else { difference }) & mk;
    assert(result as int == if w & 0x8000 == 0 { sum as int % size } else { difference as int % size });
    assert(left as int == xr(m.x, rn(w)) as int % size);
    assert(right as int == xr(m.x, rm(w)) as int % size);
    assert(addend as int == xr(m.x, (w >> 10u32) & 31) as int % size);
    let n = xr(m.x, rn(w)) as int % size;
    let k = xr(m.x, rm(w)) as int % size;
    let a = xr(m.x, (w >> 10u32) & 31) as int % size;
    assert(q == n * k);
    assert(result as int == if w & 0x8000 == 0 { (a + n * k) % size } else { (a - n * k) % size });
    let new = multiply_add(m, w);
    lemma_fields(w);
    assert(new.x == set_xr(m.x, rd(w), result));
    assert(rd(w) != 31 ==> xr(new.x, rd(w)) == result);
    assert(new.pc == next_pc(m.pc));
    assert forall|j: u32| j < 31 && j != rd(w) implies xr(#[trigger] multiply_add(m, w).x, j) == xr(
        m.x,
        j,
    ) by {
        assert(multiply_add(m, w).x == set_xr(m.x, rd(w), result));
    }
}

/// MOVN, MOVZ and MOVK.
pub open spec fn move_wide(m: Machine, w: u32) -> Result<Machine, Seq<char>> {
    let is_64 = wide(w);
    let shift = ((w >> 21u32) & 3) * 16;
    let opc = (w >> 29u32) & 3;
    if !is_64 && shift >= 32 {
        Err(unsupported_text(m.pc, w))
    } else if opc == 1 {
        Err(unsupported_text(m.pc, w))
    } else {
        let imm = (((w >> 5u32) & 0xffff) as u64) << (shift as u64);
        let mk = width_mask(is_64);
        let value = if opc == 0 {
            !imm & mk
        } else if opc == 2 {
            imm & mk
        } else {
            ((xr(m.x, rd(w)) & !(0xffffu64 << (shift as u64))) | imm) & mk
        };
        Ok(with_x(m, rd(w), value))
    }
}

/// The values MOVZ, MOVN and MOVK give for a 16-bit `imm` at half-word `hw`.
proof fn lemma_move_bits(old: u64, imm: u64, hw: u64, opc: u32, is_64: bool, value: u64)
    by (bit_vector)
    requires
        imm <= 0xffff,
        hw <= 3,
        is_64 || hw <= 1,
        value == (if opc == 0 {
            !(imm << ((hw * 16) as u64)) & (if is_64 { 0xffff_ffff_ffff_ffffu64 } else { 0xffff_ffffu64 })
        } else if opc == 2 {
            (imm << ((hw * 16) as u64)) & (if is_64 { 0xffff_ffff_ffff_ffffu64 } else { 0xffff_ffffu64 })
        } else {
            ((old & !(0xffffu64 << ((hw * 16) as u64))) | (imm << ((hw * 16) as u64))) & (if is_64 {
                0xffff_ffff_ffff_ffffu64
            } else {
                0xffff_ffffu64
            })
        }),
    ensures
        opc == 2 ==> value == imm * (if hw == 0 {
            1u64
        } else if hw == 1 {
            0x1_0000u64
        } else if hw == 2 {
            0x1_0000_0000u64
        } else {
            0x1_0000_0000_0000u64
        }),
        opc == 0 ==> value == (if is_64 { 0xffff_ffff_ffff_ffffu64 } else { 0xffff_ffffu64 }) - imm * (
        if hw == 0 {
            1u64
        } else if hw == 1 {
            0x1_0000u64
        } else if hw == 2 {
            0x1_0000_0000u64
        } else {
            0x1_0000_0000_0000u64
        }),
        opc == 3 ==> (value >> ((hw * 16) as u64)) & 0xffff == imm,
        opc == 3 ==> value & !(0xffffu64 << ((hw * 16) as u64)) == old & (if is_64 {
            0xffff_ffff_ffff_ffffu64
        } else {
            0xffff_ffffu64
        }) & !(0xffffu64 << ((hw * 16) as u64)),
{
}

/// MOVZ writes `imm16 * 2^(16 hw)` to `Xd`, MOVN its complement within the
/// width (`2^n - 1 - imm16 * 2^(16 hw)`), and MOVK puts `imm16` into half-word
/// `hw` of `Xd`, keeping its other bits within the width; a half-word past a
/// 32-bit register, or the unallocated opcode, is refused. Every other
/// register keeps its value and the pc moves on.
pub proof fn lemma_move_wide(m: Machine, w: u32)
    requires
        m.x.len() == 31,
    ensures
        ({
            let hw = (w >> 21u32) & 3;
            let opc = (w >> 29u32) & 3;
            let imm = ((w >> 5u32) & 0xffff) as int;
            let unit: int = if hw == 0 {
                1
            } else if hw == 1 {
                0x1_0000
            } else if hw == 2 {
                0x1_0000_0000
            } else {
                0x1_0000_0000_0000
            };
            let sh = (hw * 16) as u64;
            let mk = width_mask(wide(w));
            &&& (opc == 1 || (!wide(w) && hw >= 2)) <==> move_wide(m, w) is Err
            &&& move_wide(m, w) matches Ok(n) ==> {
                &&& n.pc == next_pc(m.pc)
                &&& forall|j: u32| j < 31 && j != rd(w) ==> xr(#[trigger] n.x, j) == xr(m.x, j)
                &&& rd(w) != 31 && opc == 2 ==> xr(n.x, rd(w)) == imm * unit
                &&& rd(w) != 31 && opc == 0 ==> xr(n.x, rd(w)) == mk - imm * unit
                &&& rd(w) != 31 && opc == 3 ==> (xr(n.x, rd(w)) >> sh) & 0xffff == imm
                &&& rd(w) != 31 && opc == 3 ==> xr(n.x, rd(w)) & !(0xffffu64 << sh) == xr(m.x, rd(w)) & mk
                    & !(0xffffu64 << sh)
            }
        }),
{
    lemma_fields(w);
    let hw = (w >> 21u32) & 3;
    let opc = (w >> 29u32) & 3;
    let shift = ((w >> 21u32) & 3) * 16;
    if move_wide(m, w) is Ok {
        let imm = (((w >> 5u32) & 0xffff) as u64) << (shift as u64);
        let mk = width_mask(wide(w));
        let value = if opc == 0 {
            !imm & mk
        } else if opc == 2 {
            imm & mk
        } else {
            ((xr(m.x, rd(w)) & !(0xffffu64 << (shift as u64))) | imm) & mk
        };
        assert(shift as u64 == (hw as u64 * 16) as u64);
        lemma_move_bits(xr(m.x, rd(w)), ((w >> 5u32) & 0xffff) as u64, hw as u64, opc, wide(w), value);
        let n = move_wide(m, w)->Ok_0;
        assert(n.x == set_xr(m.x, rd(w), value));
        assert forall|j: u32| j < 31 && j != rd(w) implies xr(#[trigger] n.x, j) == xr(m.x, j) by {}
    }
}

/// SBFM, BFM and UBFM (ASR, BFI, BFXIL, LSL, LSR, UBFX and friends).
pub open spec fn bitfield(m: Machine, w: u32) -> Result<Machine, Seq<char>> {
    let is_64 = wide(w);
    let width: u32 = if is_64 { 64 } else { 32 };
    let wm = mask(width as u64);
    let n = (w >> 22u32) & 1;
    let immr = (w >> 16u32) & 63;
    let imms = (w >> 10u32) & 63;
    let opc = (w >> 29u32) & 3;
    if n != (if is_64 { 1u32 } else { 0u32 }) || immr >= width || imms >= width || opc == 3 {
        Err(unsupported_text(m.pc, w))
    } else {
        let source = xr(m.x, rn(w)) & wm;
        let current = xr(m.x, rd(w));
        let result = if imms >= immr {
            let bits = (imms - immr + 1) as u32;
            let field = (source >> immr) & mask(bits as u64);
            if opc == 0 {
                sext_width(field, bits as u64, width as u64)
            } else if opc == 1 {
                (current & !mask(bits as u64)) | field
            } else {
                field
            }
        } else {
            let bits = (imms + 1) as u32;
            let lsb = (width - immr) as u32;
            let fm = mask(bits as u64) << lsb;
            let field = (source << lsb) & fm;
            if opc == 0 {
                sext_width(field, (lsb + bits) as u64, width as u64)
            } else if opc == 1 {
                (current & !fm) | field
            } else {
                field
            }
        };
        Ok(with_x(m, rd(w), result & wm))
    }
}


/// The low `n` bits of `v` mirrored, taking bits `0..k` of `v` so far.
pub open spec fn mirrored(v: u64, n: u64, k: u64) -> u64
    decreases k,
{
    if k == 0 || k > n {
        0
    } else {
        mirrored(v, n, (k - 1) as u64) | (((v >> ((k - 1) as u64)) & 1) << ((n - k) as u64))
    }
}

/// RBIT over the low `n` bits: bit `i` moves to bit `n - 1 - i`.
pub open spec fn rbit(v: u64, n: u64) -> u64 {
    mirrored(v, n, n)
}

pub open spec fn bswap32(v: u32) -> u32 {
    ((v & 0xff) << 24u32) | (((v >> 8u32) & 0xff) << 16u32) | (((v >> 16u32) & 0xff) << 8u32) | (v
        >> 24u32)
}

pub open spec fn bswap64(v: u64) -> u64 {
    (bswap32(v as u32) as u64) << 32u64 | (bswap32((v >> 32u64) as u32) as u64)
}

pub open spec fn lz(v: u64, is_64: bool) -> u32 {
    if is_64 {
        vstd::std_specs::bits::u64_leading_zeros(v) as u32
    } else {
        vstd::std_specs::bits::u32_leading_zeros(v as u32)
    }
}

/// RBIT, REV16, REV32, REV, CLZ and CLS.
pub open spec fn unary(m: Machine, w: u32) -> Result<Machine, Seq<char>> {
    let is_64 = wide(w);
    let width: u64 = if is_64 { 64 } else { 32 };
    let mk = mask(width);
    let source = xr(m.x, rn(w)) & mk;
    let op = (w >> 10u32) & 15;
    let result = if op == 0 {
        Some(rbit(source, width))
    } else if op == 1 {
        Some(rev16(source, width))
    } else if op == 2 {
        Some(
            if is_64 {
                (bswap32(source as u32) as u64) | ((bswap32((source >> 32u64) as u32) as u64) << 32u64)
            } else {
                bswap32(source as u32) as u64
            },
        )
    } else if op == 3 && is_64 {
        Some(bswap64(source))
    } else if op == 4 {
        Some(lz(source, is_64) as u64)
    } else if op == 5 {
        let top = if is_64 { source >> 63u64 } else { (source as u32 >> 31u32) as u64 };
        let count = if top == 0 { lz(source, is_64) } else { lz(!source & mk, is_64) };
        Some(if count == 0 { 0u64 } else { (count - 1) as u64 })
    } else {
        None
    };
    match result {
        None => Err(unsupported_text(m.pc, w)),
        Some(v) => Ok(with_x(m, rd(w), v & mk)),
    }
}

fn reverse_bits(v: u64, n: u64) -> (r: u64)
    requires
        n == 32 || n == 64,
    ensures
        r == rbit(v, n),
{
    let mut result: u64 = 0;
    let mut k: u64 = 0;
    while k < n
        invariant
            k <= n,
            n == 32 || n == 64,
            result == mirrored(v, n, k),
        decreases n - k,
    {
        result = result | (((v >> k) & 1) << (n - k - 1));
        k = k + 1;
    }
    result
}

fn swap32(v: u32) -> (r: u32)
    ensures
        r == bswap32(v),
{
    ((v & 0xff) << 24) | (((v >> 8) & 0xff) << 16) | (((v >> 16) & 0xff) << 8) | (v >> 24)
}


/// Result of a data-processing instruction on the register file.
pub open spec fn data(m: Machine, w: u32, class: InsnClass) -> Result<Machine, Seq<char>> {
    match class {
        InsnClass::PcRelative => Ok(pc_relative(m, w)),
        InsnClass::CondSelect => Ok(cond_select(m, w)),
        InsnClass::CondCompare => Ok(cond_compare(m, w)),
        InsnClass::AddSubImmediate => Ok(add_sub_immediate(m, w)),
        InsnClass::AddSubShifted => add_sub_shifted(m, w),
        InsnClass::AddSubExtended => add_sub_extended(m, w),
        InsnClass::LogicalImmediate => logical_immediate_insn(m, w),
        InsnClass::LogicalShifted => logical_shifted(m, w),
        InsnClass::ShiftVariable => Ok(shift_variable(m, w)),
        InsnClass::Unary => unary(m, w),
        InsnClass::MultiplyAdd => Ok(multiply_add(m, w)),
        InsnClass::MoveWide => move_wide(m, w),
        _ => bitfield(m, w),
    }
}

pub open spec fn is_data(class: InsnClass) -> bool {
    class == InsnClass::PcRelative || class == InsnClass::CondSelect || class == InsnClass::CondCompare
        || class == InsnClass::AddSubImmediate || class == InsnClass::AddSubShifted || class
        == InsnClass::AddSubExtended || class == InsnClass::LogicalImmediate || class
        == InsnClass::LogicalShifted || class == InsnClass::ShiftVariable || class == InsnClass::Unary
        || class == InsnClass::MultiplyAdd || class == InsnClass::MoveWide || class
        == InsnClass::Bitfield
}

impl StaticCpu {
    fn unsupported(&self, pc: u64, w: u32) -> (r: Result<(), RelayError>)
        ensures
            only_failed(r),
            failure(r) == Err::<(), Seq<char>>(unsupported_text(pc, w)),
    {
        Err(decoder_error("StaticCpu EL1 first unimplemented insn ", pc, w))
    }

    /// Write `value` to `register` (31 discarded) and advance the PC.
    fn retire(&mut self, register: u32, value: u64)
        requires
            register <= 31,
        ensures
            final(self).machine() == with_x(old(self).machine(), register, value),
            same_devices(*old(self), *final(self)),
    {
        self.set(register, value);
        self.pc = self.pc.wrapping_add(4);
    }

    /// Write `value` to `register` (31 names SP) and advance the PC.
    fn retire_sp(&mut self, register: u32, value: u64)
        requires
            register <= 31,
        ensures
            final(self).machine() == with_xsp(old(self).machine(), register, value),
            same_devices(*old(self), *final(self)),
    {
        self.set_x_or_sp(register, value);
        self.pc = self.pc.wrapping_add(4);
    }

    fn exec_add_sub_immediate(&mut self, w: u32) -> (r: Result<(), RelayError>)
        ensures
            reg_outcome(*old(self), *final(self), r, Ok(add_sub_immediate(old(self).machine(), w))),
    {
        proof {
            lemma_fields(w);
        }
        let is_64 = w & 0x8000_0000 != 0;
        let shift: u64 = if w & 0x0040_0000 != 0 {
            12
        } else {
            0
        };
        let imm = (((w >> 10) & 0xfff) as u64) << shift;
        let mk: u64 = if is_64 {
            u64::MAX
        } else {
            0xffff_ffff
        };
        let left = self.x_or_sp((w >> 5) & 31) & mk;
        let (value, f) = add_sub_exec(left, imm, w & 0x4000_0000 != 0, is_64);
        if w & 0x2000_0000 != 0 {
            self.retire(w & 31, value);
            self.nzcv = f;
        } else {
            self.retire_sp(w & 31, value);
        }
        Ok(())
    }

    fn exec_add_sub_shifted(&mut self, w: u32) -> (r: Result<(), RelayError>)
        ensures
            reg_outcome(*old(self), *final(self), r, add_sub_shifted(old(self).machine(), w)),
    {
        proof {
            lemma_fields(w);
        }
        let pc = self.pc;
        let is_64 = w & 0x8000_0000 != 0;
        let mk: u64 = if is_64 {
            u64::MAX
        } else {
            0xffff_ffff
        };
        let amount = (w >> 10) & 63;
        if !is_64 && amount >= 32 {
            return self.unsupported(pc, w);
        }
        let source = self.x((w >> 16) & 31) & mk;
        let kind = (w >> 22) & 3;
        let right = if kind == 0 {
            source << amount
        } else if kind == 1 {
            source >> amount
        } else if kind == 2 {
            if is_64 {
                ((source as i64) >> amount) as u64
            } else {
                ((source as u32 as i32) >> amount) as u32 as u64
            }
        } else {
            return self.unsupported(pc, w);
        };
        let left = self.x((w >> 5) & 31) & mk;
        let (result, f) = add_sub_exec(left, right & mk, w & 0x4000_0000 != 0, is_64);
        self.retire(w & 31, result);
        if w & 0x2000_0000 != 0 {
            self.nzcv = f;
        }
        Ok(())
    }

    fn exec_add_sub_extended(&mut self, w: u32) -> (r: Result<(), RelayError>)
        ensures
            reg_outcome(*old(self), *final(self), r, add_sub_extended(old(self).machine(), w)),
    {
        proof {
            lemma_fields(w);
        }
        let pc = self.pc;
        let is_64 = w & 0x8000_0000 != 0;
        let mk: u64 = if is_64 {
            u64::MAX
        } else {
            0xffff_ffff
        };
        let amount = (w >> 10) & 7;
        if amount > 4 {
            return self.unsupported(pc, w);
        }
        let option = (w >> 13) & 7;
        let source = self.x((w >> 16) & 31);
        let e = if option == 0 {
            source as u8 as u64
        } else if option == 1 {
            source as u16 as u64
        } else if option == 2 {
            source as u32 as u64
        } else if option == 3 && is_64 {
            source
        } else if option == 4 {
            source as u8 as i8 as i64 as u64
        } else if option == 5 {
            source as u16 as i16 as i64 as u64
        } else if option == 6 {
            source as u32 as i32 as i64 as u64
        } else if option == 7 && is_64 {
            source
        } else {
            return self.unsupported(pc, w);
        };
        let right = (e << amount) & mk;
        let left = self.x_or_sp((w >> 5) & 31) & mk;
        let (result, f) = add_sub_exec(left, right, w & 0x4000_0000 != 0, is_64);
        if w & 0x2000_0000 != 0 {
            self.retire(w & 31, result);
            self.nzcv = f;
        } else {
            self.retire_sp(w & 31, result);
        }
        Ok(())
    }

    fn exec_logical(&mut self, w: u32, left: u64, right: u64)
        ensures
            final(self).machine() == logical(old(self).machine(), w, left, right),
            same_devices(*old(self), *final(self)),
    {
        proof {
            lemma_fields(w);
        }
        let is_64 = w & 0x8000_0000 != 0;
        let opc = (w >> 29) & 3;
        let mk: u64 = if is_64 {
            u64::MAX
        } else {
            0xffff_ffff
        };
        let result = (if opc == 1 {
            left | right
        } else if opc == 2 {
            left ^ right
        } else {
            left & right
        }) & mk;
        self.retire(w & 31, result);
        if opc == 3 {
            let sign: u64 = if is_64 {
                63
            } else {
                31
            };
            self.nzcv = flags(result >> sign != 0, result == 0, false, false);
        }
    }

    fn exec_logical_immediate(&mut self, w: u32) -> (r: Result<(), RelayError>)
        ensures
            reg_outcome(*old(self), *final(self), r, logical_immediate_insn(old(self).machine(), w)),
    {
        proof {
            lemma_fields(w);
        }
        let imm = match decode_logical_immediate(
            w & 0x8000_0000 != 0,
            (w >> 22) & 1,
            (w >> 16) & 63,
            (w >> 10) & 63,
        ) {
            Some(v) => v,
            None => {
                return Err(decoder_error("StaticCpu invalid logical immediate ", self.pc, w));
            },
        };
        let left = self.x((w >> 5) & 31);
        self.exec_logical(w, left, imm);
        Ok(())
    }

    fn exec_logical_shifted(&mut self, w: u32) -> (r: Result<(), RelayError>)
        ensures
            reg_outcome(*old(self), *final(self), r, logical_shifted(old(self).machine(), w)),
    {
        proof {
            lemma_fields(w);
        }
        let pc = self.pc;
        let is_64 = w & 0x8000_0000 != 0;
        let amount = (w >> 10) & 63;
        let kind = (w >> 22) & 3;
        if !is_64 && amount >= 32 {
            return self.unsupported(pc, w);
        }
        if kind == 3 {
            return self.unsupported(pc, w);
        }
        let source = self.x((w >> 16) & 31);
        let shifted = if kind == 0 {
            source << amount
        } else if kind == 1 {
            source >> amount
        } else {
            ((source as i64) >> amount) as u64
        };
        let right = if w & 0x0020_0000 != 0 {
            !shifted
        } else {
            shifted
        };
        let left = self.x((w >> 5) & 31);
        self.exec_logical(w, left, right);
        Ok(())
    }
}


impl StaticCpu {
    fn exec_pc_relative(&mut self, w: u32) -> (r: Result<(), RelayError>)
        ensures
            reg_outcome(*old(self), *final(self), r, Ok(pc_relative(old(self).machine(), w))),
    {
        proof {
            lemma_fields(w);
        }
        let pc = self.pc;
        let imm = sign_extend(((((w >> 5) & 0x7ffff) << 2) | ((w >> 29) & 3)) as u64, 21);
        let page = w & 0x8000_0000 != 0;
        let base = if page {
            pc & !0xfff
        } else {
            pc
        };
        let displacement = if page {
            (imm as u64) << 12
        } else {
            imm as u64
        };
        self.retire(w & 31, base.wrapping_add(displacement));
        Ok(())
    }

    fn exec_cond_select(&mut self, w: u32) -> (r: Result<(), RelayError>)
        ensures
            reg_outcome(*old(self), *final(self), r, Ok(cond_select(old(self).machine(), w))),
    {
        proof {
            lemma_fields(w);
        }
        let mk: u64 = if w & 0x8000_0000 != 0 {
            u64::MAX
        } else {
            0xffff_ffff
        };
        let value = if condition_holds(self.nzcv, (w >> 12) & 15) {
            self.x((w >> 5) & 31)
        } else {
            let alternate = self.x((w >> 16) & 31);
            if (w >> 30) & 1 == 0 {
                if (w >> 10) & 1 == 0 {
                    alternate
                } else {
                    alternate.wrapping_add(1)
                }
            } else {
                if (w >> 10) & 1 == 0 {
                    !alternate
                } else {
                    0u64.wrapping_sub(alternate)
                }
            }
        };
        self.retire(w & 31, value & mk);
        Ok(())
    }

    fn exec_cond_compare(&mut self, w: u32) -> (r: Result<(), RelayError>)
        ensures
            reg_outcome(*old(self), *final(self), r, Ok(cond_compare(old(self).machine(), w))),
    {
        proof {
            lemma_fields(w);
        }
        if condition_holds(self.nzcv, (w >> 12) & 15) {
            let is_64 = w & 0x8000_0000 != 0;
            let mk: u64 = if is_64 {
                u64::MAX
            } else {
                0xffff_ffff
            };
            let left = self.x((w >> 5) & 31) & mk;
            let right = if w & 0x800 != 0 {
                ((w >> 16) & 31) as u64
            } else {
                self.x((w >> 16) & 31) & mk
            };
            let (_, f) = add_sub_exec(left, right, w & 0x4000_0000 != 0, is_64);
            self.nzcv = f;
        } else {
            self.nzcv = (w & 15) as u8;
        }
        self.pc = self.pc.wrapping_add(4);
        Ok(())
    }

    fn exec_shift_variable(&mut self, w: u32) -> (r: Result<(), RelayError>)
        ensures
            reg_outcome(*old(self), *final(self), r, Ok(shift_variable(old(self).machine(), w))),
    {
        proof {
            lemma_fields(w);
        }
        let is_64 = w & 0x8000_0000 != 0;
        let mk: u64 = if is_64 {
            u64::MAX
        } else {
            0xffff_ffff
        };
        let limit: u64 = if is_64 {
            63
        } else {
            31
        };
        let operand = self.x((w >> 16) & 31);
        assert(operand & limit <= limit) by (bit_vector);
        let amount = (operand & limit) as u32;
        let source = self.x((w >> 5) & 31) & mk;
        let kind = (w >> 10) & 3;
        let result = if kind == 0 {
            source << amount
        } else if kind == 1 {
            source >> amount
        } else if kind == 2 {
            if is_64 {
                ((source as i64) >> amount) as u64
            } else {
                ((source as u32 as i32) >> amount) as u32 as u64
            }
        } else {
            if is_64 {
                if amount == 0 {
                    source
                } else {
                    (source >> amount) | (source << (64 - amount))
                }
            } else {
                let v = source as u32;
                (if amount == 0 {
                    v
                } else {
                    (v >> amount) | (v << (32 - amount))
                }) as u64
            }
        };
        self.retire(w & 31, result & mk);
        Ok(())
    }

    fn exec_multiply_add(&mut self, w: u32) -> (r: Result<(), RelayError>)
        ensures
            reg_outcome(*old(self), *final(self), r, Ok(multiply_add(old(self).machine(), w))),
    {
        proof {
            lemma_fields(w);
        }
        let mk: u64 = if w & 0x8000_0000 != 0 {
            u64::MAX
        } else {
            0xffff_ffff
        };
        let left = self.x((w >> 5) & 31) & mk;
        let right = self.x((w >> 16) & 31) & mk;
        let addend = self.x((w >> 10) & 31) & mk;
        let product = left.wrapping_mul(right) & mk;
        let result = (if w & 0x8000 == 0 {
            product.wrapping_add(addend)
        } else {
            addend.wrapping_sub(product)
        }) & mk;
        self.retire(w & 31, result);
        Ok(())
    }

    fn exec_move_wide(&mut self, w: u32) -> (r: Result<(), RelayError>)
        ensures
            reg_outcome(*old(self), *final(self), r, move_wide(old(self).machine(), w)),
    {
        proof {
            lemma_fields(w);
        }
        let pc = self.pc;
        let is_64 = w & 0x8000_0000 != 0;
        let shift = ((w >> 21) & 3) * 16;
        let opc = (w >> 29) & 3;
        if !is_64 && shift >= 32 {
            return self.unsupported(pc, w);
        }
        if opc == 1 {
            return self.unsupported(pc, w);
        }
        let imm = (((w >> 5) & 0xffff) as u64) << (shift as u64);
        let mk: u64 = if is_64 {
            u64::MAX
        } else {
            0xffff_ffff
        };
        let value = if opc == 0 {
            !imm & mk
        } else if opc == 2 {
            imm & mk
        } else {
            ((self.x(w & 31) & !(0xffffu64 << (shift as u64))) | imm) & mk
        };
        self.retire(w & 31, value);
        Ok(())
    }

    fn exec_bitfield(&mut self, w: u32) -> (r: Result<(), RelayError>)
        ensures
            reg_outcome(*old(self), *final(self), r, bitfield(old(self).machine(), w)),
    {
        proof {
            lemma_fields(w);
        }
        let pc = self.pc;
        let is_64 = w & 0x8000_0000 != 0;
        let width: u32 = if is_64 {
            64
        } else {
            32
        };
        let wm = low_mask(width);
        let n = (w >> 22) & 1;
        let immr = (w >> 16) & 63;
        let imms = (w >> 10) & 63;
        let opc = (w >> 29) & 3;
        if n != (if is_64 {
            1u32
        } else {
            0u32
        }) || immr >= width || imms >= width || opc == 3 {
            return self.unsupported(pc, w);
        }
        let source = self.x((w >> 5) & 31) & wm;
        let current = self.x(w & 31);
        let result = if imms >= immr {
            let bits = imms - immr + 1;
            let field = (source >> immr) & low_mask(bits);
            if opc == 0 {
                sign_extend_width(field, bits, width)
            } else if opc == 1 {
                (current & !low_mask(bits)) | field
            } else {
                field
            }
        } else {
            let bits = imms + 1;
            let lsb = width - immr;
            let fm = low_mask(bits) << lsb;
            let field = (source << lsb) & fm;
            if opc == 0 {
                sign_extend_width(field, lsb + bits, width)
            } else if opc == 1 {
                (current & !fm) | field
            } else {
                field
            }
        };
        self.retire(w & 31, result & wm);
        Ok(())
    }

    fn exec_unary(&mut self, w: u32) -> (r: Result<(), RelayError>)
        ensures
            reg_outcome(*old(self), *final(self), r, unary(old(self).machine(), w)),
    {
        proof {
            lemma_fields(w);
        }
        let pc = self.pc;
        let is_64 = w & 0x8000_0000 != 0;
        let width: u32 = if is_64 {
            64
        } else {
            32
        };
        let mk = low_mask(width);
        let source = self.x((w >> 5) & 31) & mk;
        let op = (w >> 10) & 15;
        let result = if op == 0 {
            reverse_bits(source, width as u64)
        } else if op == 1 {
            reverse_bytes_in_halfwords(source, width)
        } else if op == 2 {
            if is_64 {
                (swap32(source as u32) as u64) | ((swap32((source >> 32) as u32) as u64) << 32)
            } else {
                swap32(source as u32) as u64
            }
        } else if op == 3 && is_64 {
            ((swap32(source as u32) as u64) << 32) | (swap32((source >> 32) as u32) as u64)
        } else if op == 4 {
            if is_64 {
                source.leading_zeros() as u64
            } else {
                (source as u32).leading_zeros() as u64
            }
        } else if op == 5 {
            let top = if is_64 {
                source >> 63
            } else {
                ((source as u32) >> 31) as u64
            };
            let count = if top == 0 {
                if is_64 {
                    source.leading_zeros()
                } else {
                    (source as u32).leading_zeros()
                }
            } else {
                if is_64 {
                    (!source & mk).leading_zeros()
                } else {
                    ((!source & mk) as u32).leading_zeros()
                }
            };
            (if count == 0 {
                0
            } else {
                count - 1
            }) as u64
        } else {
            return self.unsupported(pc, w);
        };
        self.retire(w & 31, result & mk);
        Ok(())
    }

    fn exec_data(&mut self, w: u32, class: InsnClass) -> (r: Result<(), RelayError>)
        requires
            is_data(class),
        ensures
            reg_outcome(*old(self), *final(self), r, data(old(self).machine(), w, class)),
    {
        match class {
            InsnClass::PcRelative => self.exec_pc_relative(w),
            InsnClass::CondSelect => self.exec_cond_select(w),
            InsnClass::CondCompare => self.exec_cond_compare(w),
            InsnClass::AddSubImmediate => self.exec_add_sub_immediate(w),
            InsnClass::AddSubShifted => self.exec_add_sub_shifted(w),
            InsnClass::AddSubExtended => self.exec_add_sub_extended(w),
            InsnClass::LogicalImmediate => self.exec_logical_immediate(w),
            InsnClass::LogicalShifted => self.exec_logical_shifted(w),
            InsnClass::ShiftVariable => self.exec_shift_variable(w),
            InsnClass::Unary => self.exec_unary(w),
            InsnClass::MultiplyAdd => self.exec_multiply_add(w),
            InsnClass::MoveWide => self.exec_move_wide(w),
            _ => self.exec_bitfield(w),
        }
    }
}


// ---------------------------------------------------------------------------
// Loads, stores and system instructions
// ---------------------------------------------------------------------------

/// The observable effect of one instruction: register file, RAM, console,
/// system registers, and whether it completed.
#[verifier::ext_equal]
pub struct Effect {
    pub machine: Machine,
    pub memory: Seq<u8>,
    pub console: Seq<u8>,
    pub sysregs: SysRegs,
    pub result: Result<(), Seq<char>>,
}

/// `new` and `r` are what `old` does under `e`.
pub open spec fn shows(old: StaticCpu, new: StaticCpu, r: Result<(), RelayError>, e: Effect) -> bool {
    &&& only_failed(r)
    &&& failure(r) == e.result
    &&& new.machine() == e.machine
    &&& new.memory@ == e.memory
    &&& new.bus.console_view() == e.console
    &&& new.sysregs == e.sysregs
    &&& new.bus.transport() == old.bus.transport()
    &&& new.bus.disk() == old.bus.disk()
    &&& new.memory.size() == old.memory.size()
    &&& new.memory.page() == old.memory.page()
    &&& new.memory.geometry() == old.memory.geometry()
}

/// An effect that only touches the register file.
pub open spec fn regs_only(cpu: StaticCpu, out: Result<Machine, Seq<char>>) -> Effect {
    Effect {
        machine: match out {
            Ok(m) => m,
            Err(_) => cpu.machine(),
        },
        memory: cpu.memory@,
        console: cpu.bus.console_view(),
        sysregs: cpu.sysregs,
        result: match out {
            Ok(_) => Ok(()),
            Err(e) => Err(e),
        },
    }
}

pub open spec fn failed_effect(cpu: StaticCpu, e: Seq<char>) -> Effect {
    regs_only(cpu, Err(e))
}

/// Sign or zero extension of a loaded value for LDR, LDRS (64) and LDRS (32).
pub open spec fn loaded(v: u64, bytes: nat, op: u32) -> u64 {
    if op == 1 {
        v
    } else if op == 2 {
        if bytes == 1 {
            v as u8 as i8 as i64 as u64
        } else if bytes == 2 {
            v as u16 as i16 as i64 as u64
        } else {
            v as u32 as i32 as i64 as u64
        }
    } else {
        if bytes == 1 {
            v as u8 as i8 as i32 as u32 as u64
        } else {
            v as u16 as i16 as i32 as u32 as u64
        }
    }
}

/// One integer load or store of `bytes` at `address` through `rt`; `then`
/// is the register file it completes with (before the transfer's own write).
pub open spec fn single(cpu: StaticCpu, w: u32, address: u64, bytes: nat, op: u32, rt: u32, then: Machine) -> Effect {
    if op == 0 {
        let (mem, console, out) = store_outcome(cpu, address, bytes, xr(cpu.x@, rt));
        Effect {
            machine: match out {
                Ok(_) => then,
                Err(_) => cpu.machine(),
            },
            memory: mem,
            console,
            sysregs: cpu.sysregs,
            result: out,
        }
    } else if op == 1 || (op == 2 && bytes < 8) || (op == 3 && bytes <= 2) {
        match cpu.load(address, bytes) {
            Err(e) => failed_effect(cpu, e),
            Ok(v) => regs_only(cpu, Ok(Machine { x: set_xr(cpu.x@, rt, loaded(v, bytes, op)), ..then })),
        }
    } else {
        failed_effect(cpu, unsupported_text(cpu.pc, w))
    }
}

pub open spec fn size_bytes(w: u32) -> nat {
    if w >> 30u32 == 0 {
        1
    } else if w >> 30u32 == 1 {
        2
    } else if w >> 30u32 == 2 {
        4
    } else {
        8
    }
}

/// The register-offset index, or `None` for a reserved option.
pub open spec fn index_offset(source: u64, option: u32) -> Option<u64> {
    if option == 2 {
        Some(source as u32 as u64)
    } else if option == 3 {
        Some(source)
    } else if option == 6 {
        Some(source as u32 as i32 as i64 as u64)
    } else if option == 7 {
        Some(source as i64 as u64)
    } else {
        None
    }
}

/// The effect of the load/store classes.
pub open spec fn memory_effect(cpu: StaticCpu, w: u32, class: InsnClass) -> Effect {
    let m = cpu.machine();
    let rt = rd(w);
    let op = (w >> 22u32) & 3;
    let bytes = size_bytes(w);
    match class {
        InsnClass::LoadLiteral => {
            let address = m.pc.wrapping_add(branch_offset(w, 5, 19));
            match cpu.load(address, if w & 0x4000_0000 != 0 { 8 } else { 4 }) {
                Err(e) => failed_effect(cpu, e),
                Ok(v) => regs_only(cpu, Ok(with_x(m, rt, v))),
            }
        },
        InsnClass::LoadStoreUnsigned => {
            let address = cpu.xsp(rn(w)).wrapping_add(((((w >> 10u32) & 0xfff) as u64) * (bytes as u64)) as u64);
            single(cpu, w, address, bytes, op, rt, advance(m))
        },
        InsnClass::LoadStoreIndexed => {
            let mode = (w >> 10u32) & 3;
            let offset = sext(((w >> 12u32) & 0x1ff) as u64, 9) as u64;
            let base = cpu.xsp(rn(w));
            let address = if mode == 1 { base } else { base.wrapping_add(offset) };
            let e = single(cpu, w, address, bytes, op, rt, advance(m));
            if mode != 0 && e.result is Ok {
                let after = e.machine;
                Effect {
                    machine: if rn(w) == 31 {
                        Machine { sp: base.wrapping_add(offset), ..after }
                    } else {
                        Machine { x: after.x.update(rn(w) as int, base.wrapping_add(offset)), ..after }
                    },
                    ..e
                }
            } else {
                e
            }
        },
        InsnClass::LoadStoreRegister => {
            match index_offset(xr(m.x, rm(w)), (w >> 13u32) & 7) {
                None => failed_effect(cpu, unsupported_text(m.pc, w)),
                Some(index) => {
                    let offset = if w & 0x1000 != 0 { index << (w >> 30u32) } else { index };
                    single(cpu, w, cpu.xsp(rn(w)).wrapping_add(offset), bytes, op, rt, advance(m))
                },
            }
        },
        _ => pair_effect(cpu, w),
    }
}

/// LDP and STP of X registers in post-index, signed-offset and pre-index modes.
pub open spec fn pair_effect(cpu: StaticCpu, w: u32) -> Effect {
    let m = cpu.machine();
    let mode = (w >> 23u32) & 3;
    let offset = ((sext(((w >> 15u32) & 0x7f) as u64, 7) * 8) as i64) as u64;
    let base = cpu.xsp(rn(w));
    let address = if mode == 1 { base } else { base.wrapping_add(offset) };
    let rt = rd(w);
    let rt2 = (w >> 10u32) & 31;
    let writeback = |after: Machine|
        if mode == 1 || mode == 3 {
            if rn(w) == 31 {
                Machine { sp: base.wrapping_add(offset), ..after }
            } else {
                Machine { x: after.x.update(rn(w) as int, base.wrapping_add(offset)), ..after }
            }
        } else {
            after
        };
    if w & 0x0040_0000 != 0 {
        match cpu.load(address, 8) {
            Err(e) => failed_effect(cpu, e),
            Ok(first) => match cpu.load(address.wrapping_add(8), 8) {
                Err(e) => failed_effect(cpu, e),
                Ok(second) => regs_only(
                    cpu,
                    Ok(writeback(advance(Machine { x: set_xr(set_xr(m.x, rt, first), rt2, second), ..m }))),
                ),
            },
        }
    } else {
        let (mem1, console1, out1) = store_outcome(cpu, address, 8, xr(m.x, rt));
        match out1 {
            Err(e) => failed_effect(cpu, e),
            Ok(_) => {
                let (mem2, console2, out2) = store_in(
                    Ram { bytes: mem1, size: cpu.memory.size() },
                    console1,
                    cpu.sysregs,
                    cpu.memory.page().0,
                    address.wrapping_add(8),
                    8,
                    xr(m.x, rt2),
                );
                Effect {
                    machine: match out2 {
                        Ok(_) => writeback(advance(m)),
                        Err(_) => m,
                    },
                    memory: mem2,
                    console: console2,
                    sysregs: cpu.sysregs,
                    result: out2,
                }
            },
        }
    }
}


impl StaticCpu {
    /// One load or store through `rt`, then advance the PC.
    fn transfer(&mut self, w: u32, address: u64, bytes: usize, op: u32, rt: u32) -> (r: Result<(), RelayError>)
        requires
            bytes == 1 || bytes == 2 || bytes == 4 || bytes == 8,
            rt <= 31,
            op <= 3,
            old(self).bus.wf(),
        ensures
            final(self).bus.wf(),
            shows(
                *old(self),
                *final(self),
                r,
                single(*old(self), w, address, bytes as nat, op, rt, advance(old(self).machine())),
            ),
    {
        let pc = self.pc;
        if op == 0 {
            let value = self.x(rt);
            match self.store_at(address, bytes, value) {
                Ok(()) => {},
                Err(e) => {
                    return Err(e);
                },
            }
            self.pc = pc.wrapping_add(4);
            Ok(())
        } else if op == 1 || (op == 2 && bytes < 8) || (op == 3 && bytes <= 2) {
            let v = match self.load_at(address, bytes) {
                Ok(v) => v,
                Err(e) => {
                    return Err(e);
                },
            };
            let value = if op == 1 {
                v
            } else if op == 2 {
                if bytes == 1 {
                    v as u8 as i8 as i64 as u64
                } else if bytes == 2 {
                    v as u16 as i16 as i64 as u64
                } else {
                    v as u32 as i32 as i64 as u64
                }
            } else {
                if bytes == 1 {
                    v as u8 as i8 as i32 as u32 as u64
                } else {
                    v as u16 as i16 as i32 as u32 as u64
                }
            };
            self.set(rt, value);
            self.pc = pc.wrapping_add(4);
            Ok(())
        } else {
            self.unsupported(pc, w)
        }
    }

    #[verifier::rlimit(40)]
    fn exec_memory(&mut self, w: u32, class: InsnClass) -> (r: Result<(), RelayError>)
        requires
            class == InsnClass::LoadLiteral || class == InsnClass::LoadStoreUnsigned || class
                == InsnClass::LoadStoreIndexed || class == InsnClass::LoadStoreRegister || class
                == InsnClass::LoadStorePair,
            class == InsnClass::LoadStorePair ==> class_of(w) == InsnClass::LoadStorePair,
            old(self).bus.wf(),
        ensures
            final(self).bus.wf(),
            shows(*old(self), *final(self), r, memory_effect(*old(self), w, class)),
    {
        proof {
            lemma_fields(w);
        }
        let pc = self.pc;
        let rt = w & 31;
        let op = (w >> 22) & 3;
        let size_shift = w >> 30;
        let bytes: usize = if size_shift == 0 {
            1
        } else if size_shift == 1 {
            2
        } else if size_shift == 2 {
            4
        } else {
            8
        };
        match class {
            InsnClass::LoadLiteral => {
                let address = pc.wrapping_add(
                    (sign_extend(((w >> 5) & 0x7ffff) as u64, 19) as u64) << 2,
                );
                proof {
                    lemma_offset_fields(w);
                }
                let v = match self.load_at(
                    address,
                    if w & 0x4000_0000 != 0 {
                        8
                    } else {
                        4
                    },
                ) {
                    Ok(v) => v,
                    Err(e) => {
                        return Err(e);
                    },
                };
                self.retire(rt, v);
                Ok(())
            },
            InsnClass::LoadStoreUnsigned => {
                let imm12 = ((w >> 10) & 0xfff) as u64;
                assert(imm12 <= 0xfff) by (bit_vector)
                    requires
                        imm12 == ((w >> 10u32) & 0xfff) as u64,
                ;
                assert(imm12 * (bytes as u64) <= 0xfff * 8) by (nonlinear_arith)
                    requires
                        imm12 <= 0xfff,
                        bytes <= 8,
                ;
                let offset = imm12 * (bytes as u64);
                let address = self.x_or_sp((w >> 5) & 31).wrapping_add(offset);
                self.transfer(w, address, bytes, op, rt)
            },
            InsnClass::LoadStoreIndexed => {
                let mode = (w >> 10) & 3;
                let offset = sign_extend(((w >> 12) & 0x1ff) as u64, 9) as u64;
                let rn = (w >> 5) & 31;
                let base = self.x_or_sp(rn);
                let address = if mode == 1 {
                    base
                } else {
                    base.wrapping_add(offset)
                };
                match self.transfer(w, address, bytes, op, rt) {
                    Ok(()) => {},
                    Err(e) => {
                        return Err(e);
                    },
                }
                if mode != 0 {
                    self.set_x_or_sp(rn, base.wrapping_add(offset));
                }
                Ok(())
            },
            InsnClass::LoadStoreRegister => {
                let source = self.x((w >> 16) & 31);
                let option = (w >> 13) & 7;
                let index = if option == 2 {
                    source as u32 as u64
                } else if option == 3 {
                    source
                } else if option == 6 {
                    source as u32 as i32 as i64 as u64
                } else if option == 7 {
                    source as i64 as u64
                } else {
                    return self.unsupported(pc, w);
                };
                let offset = if w & 0x1000 != 0 {
                    index << size_shift
                } else {
                    index
                };
                let address = self.x_or_sp((w >> 5) & 31).wrapping_add(offset);
                self.transfer(w, address, bytes, op, rt)
            },
            _ => self.exec_pair(w),
        }
    }

    fn exec_pair(&mut self, w: u32) -> (r: Result<(), RelayError>)
        requires
            old(self).bus.wf(),
        ensures
            final(self).bus.wf(),
            shows(*old(self), *final(self), r, pair_effect(*old(self), w)),
    {
        proof {
            lemma_fields(w);
        }
        let pc = self.pc;
        let mode = (w >> 23) & 3;
        let sext7 = sign_extend(((w >> 15) & 0x7f) as u64, 7);
        assert(-64 <= sext7 <= 63) by (bit_vector)
            requires
                sext7 == ((((w >> 15u32) & 0x7f) as u64) << 57u64) as i64 >> 57u64,
        ;
        let offset = (sext7 * 8) as u64;
        let rn = (w >> 5) & 31;
        let base = self.x_or_sp(rn);
        let address = if mode == 1 {
            base
        } else {
            base.wrapping_add(offset)
        };
        let rt = w & 31;
        let rt2 = (w >> 10) & 31;
        if w & 0x0040_0000 != 0 {
            let first = match self.load_at(address, 8) {
                Ok(v) => v,
                Err(e) => {
                    return Err(e);
                },
            };
            let second = match self.load_at(address.wrapping_add(8), 8) {
                Ok(v) => v,
                Err(e) => {
                    return Err(e);
                },
            };
            self.set(rt, first);
            self.set(rt2, second);
        } else {
            let first = self.x(rt);
            let second = self.x(rt2);
            match self.store_at(address, 8, first) {
                Ok(()) => {},
                Err(e) => {
                    return Err(e);
                },
            }
            match self.store_at(address.wrapping_add(8), 8, second) {
                Ok(()) => {},
                Err(e) => {
                    return Err(e);
                },
            }
        }
        self.pc = pc.wrapping_add(4);
        if mode == 1 || mode == 3 {
            self.set_x_or_sp(rn, base.wrapping_add(offset));
        }
        Ok(())
    }
}


/// The compact `op0:op1:CRn:CRm:op2` number of an MRS/MSR system register.
pub open spec fn sysreg_number(w: u32) -> u16 {
    ((((w >> 19u32) & 3) << 14u32) | (((w >> 16u32) & 7) << 11u32) | (((w >> 12u32) & 15) << 7u32) | ((
    (w >> 8u32) & 15) << 3u32) | ((w >> 5u32) & 7)) as u16
}

/// The system registers after an MSR, or why it was refused.
pub open spec fn sysreg_write(regs: SysRegs, reg: u16, v: u64) -> Result<SysRegs, Seq<char>> {
    if writable(reg) {
        Ok(regs.written(reg, v))
    } else if read_only(reg) {
        Err("StaticCpu attempted write to read-only system register"@)
    } else {
        Err(unimplemented(reg))
    }
}

pub open spec fn zeros(n: nat) -> Seq<u8> {
    Seq::new(n, |i: int| 0u8)
}

/// MRS/MSR, SPSel, ERET and DC ZVA.
pub open spec fn system_effect(cpu: StaticCpu, w: u32, class: InsnClass) -> Effect {
    let m = cpu.machine();
    let suffix = "; "@ + at_text(m.pc, w);
    match class {
        InsnClass::SystemRegister => {
            let reg = sysreg_number(w);
            if w & 0x0020_0000 != 0 {
                match cpu.sysregs.read_spec(reg) {
                    Err(e) => failed_effect(cpu, e + suffix),
                    Ok(v) => regs_only(cpu, Ok(with_x(m, rd(w), v))),
                }
            } else {
                match sysreg_write(cpu.sysregs, reg, xr(m.x, rd(w))) {
                    Err(e) => failed_effect(cpu, e + suffix),
                    Ok(regs) => Effect { machine: advance(m), sysregs: regs, ..regs_only(cpu, Ok(m)) },
                }
            }
        },
        InsnClass::StackSelect => Effect {
            machine: advance(m),
            sysregs: cpu.sysregs.written(SPSEL, if w == 0xd500_41bf { 1 } else { 0 }),
            ..regs_only(cpu, Ok(m))
        },
        InsnClass::ExceptionReturn => regs_only(cpu, Ok(Machine { pc: cpu.sysregs.elr_el1, ..m })),
        _ => {
            let address = xr(m.x, rd(w)) & !63u64;
            match cpu.phys(address) {
                Err(e) => failed_effect(cpu, e),
                Ok(p) => if !fits(cpu.memory.ram(), p, 64) {
                    failed_effect(cpu, refusal(cpu.memory.ram(), p, 64))
                } else {
                    Effect {
                        machine: advance(m),
                        memory: written(cpu.memory@, p as int, zeros(64)),
                        ..regs_only(cpu, Ok(m))
                    }
                },
            }
        },
    }
}

pub open spec fn is_control(c: InsnClass) -> bool {
    c == InsnClass::Branch || c == InsnClass::BranchCond || c == InsnClass::CompareBranch || c
        == InsnClass::TestBranch || c == InsnClass::BranchRegister || c == InsnClass::ImageHeader || c
        == InsnClass::Hint || c == InsnClass::Barrier || c == InsnClass::CacheMaintenance || c
        == InsnClass::TlbInvalidate
}

pub open spec fn is_memory(c: InsnClass) -> bool {
    c == InsnClass::LoadLiteral || c == InsnClass::LoadStoreUnsigned || c == InsnClass::LoadStoreIndexed
        || c == InsnClass::LoadStoreRegister || c == InsnClass::LoadStorePair
}

/// What one `step` does from `cpu`: fetch the word at the PC and run its handler.
pub open spec fn step_effect(cpu: StaticCpu) -> Effect {
    match cpu.fetch() {
        Err(e) => failed_effect(cpu, e + "; pc=0x"@ + hex(cpu.pc as nat)),
        Ok(w) => {
            let c = class_of(w);
            if is_control(c) {
                regs_only(cpu, Ok(control(cpu.machine(), w, c)))
            } else if is_data(c) {
                regs_only(cpu, data(cpu.machine(), w, c))
            } else if is_memory(c) {
                memory_effect(cpu, w, c)
            } else if c == InsnClass::Unsupported {
                failed_effect(cpu, unsupported_text(cpu.pc, w))
            } else {
                system_effect(cpu, w, c)
            }
        },
    }
}

fn with_suffix(e: RelayError, pc: u64, w: u32) -> (r: RelayError)
    ensures
        r is Failed,
        error_text(r) == error_text(e) + ("; "@ + at_text(pc, w)),
{
    let mut message = e.message();
    message.append("; ");
    push_at(&mut message, pc, w);
    assert(message@ =~= error_text(e) + ("; "@ + at_text(pc, w)));
    RelayError::Failed(message)
}

impl StaticCpu {
    fn exec_system(&mut self, w: u32, class: InsnClass) -> (r: Result<(), RelayError>)
        requires
            class == InsnClass::SystemRegister || class == InsnClass::StackSelect || class
                == InsnClass::ExceptionReturn || class == InsnClass::ZeroBlock,
            class == InsnClass::StackSelect ==> w == 0xd500_40bf || w == 0xd500_41bf,
            old(self).bus.wf(),
        ensures
            final(self).bus.wf(),
            shows(*old(self), *final(self), r, system_effect(*old(self), w, class)),
    {
        proof {
            lemma_fields(w);
        }
        let pc = self.pc;
        match class {
            InsnClass::SystemRegister => {
                let reg = (((w >> 19) & 3) << 14 | ((w >> 16) & 7) << 11 | ((w >> 12) & 15) << 7 | ((w
                    >> 8) & 15) << 3 | ((w >> 5) & 7)) as u16;
                let rt = w & 31;
                if w & 0x0020_0000 != 0 {
                    let value = match self.sysregs.read(reg) {
                        Ok(v) => v,
                        Err(e) => {
                            return Err(with_suffix(e, pc, w));
                        },
                    };
                    self.retire(rt, value);
                } else {
                    let value = self.x(rt);
                    match self.sysregs.write(reg, value) {
                        Ok(()) => {},
                        Err(e) => {
                            return Err(with_suffix(e, pc, w));
                        },
                    }
                    self.pc = pc.wrapping_add(4);
                }
                Ok(())
            },
            InsnClass::StackSelect => {
                let select: u64 = if w == 0xd500_41bf {
                    1
                } else {
                    0
                };
                match self.sysregs.write(SPSEL, select) {
                    Ok(()) => {},
                    Err(e) => {
                        return Err(e);
                    },
                }
                self.pc = pc.wrapping_add(4);
                Ok(())
            },
            InsnClass::ExceptionReturn => {
                self.pc = self.sysregs.elr_el1;
                Ok(())
            },
            _ => {
                let address = self.x(w & 31) & !63;
                let p = match self.physical(address) {
                    Ok(p) => p,
                    Err(e) => {
                        return Err(e);
                    },
                };
                let zero = [0u8; 64];
                assert(zero@ =~= zeros(64));
                match self.memory.write(p, &zero) {
                    Ok(()) => {},
                    Err(e) => {
                        return Err(e);
                    },
                }
                self.pc = pc.wrapping_add(4);
                Ok(())
            },
        }
    }

    fn word(&self) -> (r: Result<u32, RelayError>)
        ensures
            only_failed(r),
            match r {
                Ok(w) => self.fetch() == Ok::<u32, Seq<char>>(w),
                Err(e) => self.fetch() == Err::<u32, Seq<char>>(error_text(e)),
            },
    {
        let p = match self.physical(self.pc) {
            Ok(p) => p,
            Err(e) => {
                return Err(e);
            },
        };
        match self.read_ram(p, 4) {
            Ok(v) => Ok(v as u32),
            Err(e) => Err(e),
        }
    }

    /// Execute one instruction.
    pub fn step(&mut self) -> (r: Result<(), RelayError>)
        requires
            old(self).bus.wf(),
        ensures
            final(self).bus.wf(),
            shows(*old(self), *final(self), r, step_effect(*old(self))),
    {
        let pc = self.pc;
        let w = match self.word() {
            Ok(w) => w,
            Err(e) => {
                let mut message = e.message();
                message.append("; pc=0x");
                push_hex(&mut message, pc);
                return Err(RelayError::Failed(message));
            },
        };
        let class = classify(w);
        if matches!(
            class,
            InsnClass::Branch | InsnClass::BranchCond | InsnClass::CompareBranch | InsnClass::TestBranch
                | InsnClass::BranchRegister | InsnClass::ImageHeader | InsnClass::Hint
                | InsnClass::Barrier | InsnClass::CacheMaintenance | InsnClass::TlbInvalidate
        ) {
            self.exec_control(w, class)
        } else if matches!(
            class,
            InsnClass::PcRelative | InsnClass::CondSelect | InsnClass::CondCompare
                | InsnClass::AddSubImmediate | InsnClass::AddSubShifted | InsnClass::AddSubExtended
                | InsnClass::LogicalImmediate | InsnClass::LogicalShifted | InsnClass::ShiftVariable
                | InsnClass::Unary | InsnClass::MultiplyAdd | InsnClass::MoveWide | InsnClass::Bitfield
        ) {
            self.exec_data(w, class)
        } else if matches!(
            class,
            InsnClass::LoadLiteral | InsnClass::LoadStoreUnsigned | InsnClass::LoadStoreIndexed
                | InsnClass::LoadStoreRegister | InsnClass::LoadStorePair
        ) {
            self.exec_memory(w, class)
        } else if matches!(class, InsnClass::Unsupported) {
            self.unsupported(pc, w)
        } else {
            self.exec_system(w, class)
        }
    }

    /// Run up to `budget` instructions, ticking the counter after each. A guest
    /// that neither faults nor stops within the budget is an error too.
    pub fn run(&mut self, budget: u64) -> (r: Result<(), RelayError>)
        requires
            old(self).bus.wf(),
        ensures
            final(self).bus.wf(),
            r is Err,
            final(self).memory.size() == old(self).memory.size(),
            exists|trace: Seq<StaticCpu>| run_trace(trace, *old(self), *final(self), r, budget),
    {
        let ghost mut trace: Seq<StaticCpu> = seq![*self];
        let mut n: u64 = 0;
        while n < budget
            invariant
                self.bus.wf(),
                self.memory.size() == old(self).memory.size(),
                n <= budget,
                trace.len() == n + 1,
                trace[0] == *old(self),
                trace.last() == *self,
                forall|i: int| 0 <= i < n ==> #[trigger] stepped(trace[i], trace[i + 1]),
            decreases budget - n,
        {
            let ghost before = *self;
            match self.step() {
                Ok(()) => {},
                Err(e) => {
                    let r: Result<(), RelayError> = Err(e);
                    assert(run_trace(trace, *old(self), *self, r, budget));
                    return r;
                },
            }
            self.sysregs.tick(1);
            proof {
                assert(stepped(before, *self));
                trace = trace.push(*self);
            }
            n = n + 1;
        }
        let mut message = String::from_str("StaticCpu instruction budget exhausted at pc=0x");
        push_hex(&mut message, self.pc);
        let r: Result<(), RelayError> = Err(RelayError::Failed(message));
        assert(run_trace(trace, *old(self), *self, r, budget));
        r
    }
}

/// `b` is `a` after one instruction that completed and a counter tick.
pub open spec fn stepped(a: StaticCpu, b: StaticCpu) -> bool {
    let e = step_effect(a);
    &&& e.result is Ok
    &&& b.machine() == e.machine
    &&& b.memory@ == e.memory
    &&& b.bus.console_view() == e.console
    &&& b.sysregs == (SysRegs {
        counter: ((e.sysregs.counter_value() + 1) % 0x1_0000_0000_0000_0000) as u64,
        ..e.sysregs
    })
    &&& b.bus.transport() == a.bus.transport()
    &&& b.bus.disk() == a.bus.disk()
    &&& b.memory.size() == a.memory.size()
    &&& b.memory.page() == a.memory.page()
    &&& b.memory.geometry() == a.memory.geometry()
}

/// A run from `start` to `end`: the states `trace` each follow from the one
/// before by a completed instruction and a tick, and the run ends either at an
/// instruction that failed, within the budget, or with the budget spent.
pub open spec fn run_trace(
    trace: Seq<StaticCpu>,
    start: StaticCpu,
    end: StaticCpu,
    r: Result<(), RelayError>,
    budget: u64,
) -> bool {
    &&& trace.len() >= 1
    &&& trace[0] == start
    &&& trace.len() - 1 <= budget
    &&& forall|i: int| 0 <= i < trace.len() - 1 ==> #[trigger] stepped(trace[i], trace[i + 1])
    &&& {
        let last = trace.last();
        ||| (trace.len() - 1 < budget && step_effect(last).result is Err && shows(
            last,
            end,
            r,
            step_effect(last),
        ))
        ||| (trace.len() - 1 == budget && end == last && r is Err && r->Err_0 is Failed
            && error_text(r->Err_0) == "StaticCpu instruction budget exhausted at pc=0x"@ + hex(
            last.pc as nat,
        ))
    }
}

} // verus!
