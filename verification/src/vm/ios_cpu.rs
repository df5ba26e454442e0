//! Jitless AArch64 userspace CPU for iOS Linux guests. Never QEMU.
//!
//! Mode A and Mode B both run this interpreter today. Mode B may later JIT
//! the same guest once a safe, measured implementation exists; until then it
//! does not claim that backend.
use crate::relay_core::{
    aligned_to, error_text, failure, only_failed, GuestPageSize, RelayBackend, RelayError,
    RelayKind, RelaySpec,
};
use crate::runtime::{load_le, read_le, store_le, write_le};
use crate::text::{decimal, hex, push_decimal, push_hex};
use crate::vm::exception::{syndrome, El1State, ExceptionClass};
use crate::vm::cpu::lemma_fields;
use crate::vm::guest::written;
use crate::vm::mmu::{allowed, map_from, page_base, Access, Mapping, Mmu};
use crate::vm::timer::{Gic, Timer};
use crate::vm::virtio_block::{le16_at, le32};
use crate::vm::virtio_mmio::{reg_read, reg_write, Transport};
use vstd::prelude::*;

verus! {

pub const SYS_RELAY_PRESENT: u64 = 0x5757;

pub const SYS_WRITE: u64 = 64;

pub const FB_WIDTH: u32 = 320;

pub const FB_HEIGHT: u32 = 240;

/// Bytes of one BGRA frame.
pub const FB_BYTES: usize = 307_200;

pub const LOAD_BASE: u64 = 0x1_0000;

pub const FB_BASE: u64 = 0x2_0000;

pub const MEM_SIZE: usize = 0x8_0000;

pub const VIRTIO_MMIO_BASE: u64 = 0x0a00_0000;

pub const VIRTIO_MMIO_SIZE: u64 = 0x1000;

pub const SVC: u32 = 0xD400_0001;

pub const RET: u32 = 0xD65F_03C0;

/// A running guest on the static CPU, as Wawona sees it.
#[derive(Debug, Clone)]
pub struct IosCpuSession {
    pub id: String,
    pub backend: RelayBackend,
    pub kind: RelayKind,
    pub wayland_endpoint: String,
    pub frame: Vec<u8>,
    pub width: u32,
    pub height: u32,
}

/// Whether a MAP_JIT write+execute mapping may be used. Relay never probes
/// it: on some hosts the probe aborts the whole process, so Mode B keeps
/// the interpreter until a safe probe exists.
pub fn map_jit_write_exec_ok() -> (r: bool)
    ensures
        !r,
{
    false
}

/// Instruction-fetch and store state of the CPU that instructions change.
pub struct IosState {
    pub x: Seq<u64>,
    pub nzcv: u8,
    pub pc: u64,
    pub mem: Seq<u8>,
    pub frame: Option<Seq<u8>>,
    pub el1: El1State,
    pub virtio: Transport,
}

/// The address space the CPU sees: mappings and their granule.
pub struct AddressSpace {
    pub pages: Map<u64, Mapping>,
    pub granule: u32,
}

pub open spec fn in_virtio(addr: u64) -> bool {
    VIRTIO_MMIO_BASE <= addr < VIRTIO_MMIO_BASE + VIRTIO_MMIO_SIZE
}

/// What the MMU answers for `addr` and `access`.
pub open spec fn translated(a: AddressSpace, addr: u64, access: Access) -> Result<u64, Seq<char>> {
    let base = page_base(addr, a.granule);
    if !a.pages.contains_key(base) {
        Err("MMU translation fault"@)
    } else if !allowed(access, a.pages[base].access) {
        Err("MMU permission fault"@)
    } else {
        Ok((a.pages[base].physical + (addr - base)) as u64)
    }
}

/// The 32-bit word an instruction fetch or load at `addr` reads.
pub open spec fn fetch(s: IosState, a: AddressSpace, addr: u64) -> Result<u32, Seq<char>> {
    if in_virtio(addr) {
        reg_read(s.virtio, (addr - VIRTIO_MMIO_BASE) as u64)
    } else {
        match translated(a, addr, Access { read: true, write: false, execute: true }) {
            Err(m) => Err(m),
            Ok(physical) => if physical < LOAD_BASE {
                Err("Relay CPU fetch outside load window 0x"@ + hex(addr as nat))
            } else if physical - LOAD_BASE + 4 > s.mem.len() {
                Err("Relay CPU fetch OOB"@)
            } else {
                Ok(le32(s.mem, physical - LOAD_BASE))
            },
        }
    }
}

/// `mem` with the little-endian bytes of `v` at `i..i + 4`.
pub open spec fn put32(mem: Seq<u8>, i: int, v: u32) -> Seq<u8> {
    mem.update(i, v as u8).update(i + 1, (v >> 8u32) as u8).update(i + 2, (v >> 16u32) as u8).update(
        i + 3,
        (v >> 24u32) as u8,
    )
}

/// The state after a 32-bit store of `v` at `addr`, or the refusal.
pub open spec fn store(s: IosState, a: AddressSpace, addr: u64, v: u32) -> Result<IosState, Seq<char>> {
    if in_virtio(addr) {
        match reg_write(s.virtio, (addr - VIRTIO_MMIO_BASE) as u64, v) {
            Ok(t) => Ok(IosState { virtio: t, ..s }),
            Err(m) => Err(m),
        }
    } else if addr >= FB_BASE && addr - FB_BASE + 4 > FB_BYTES {
        Err("Relay CPU FB OOB"@)
    } else {
        match translated(a, addr, Access { read: true, write: true, execute: false }) {
            Err(m) => Err(m),
            Ok(physical) => if physical < LOAD_BASE {
                Err("Relay CPU store outside load window 0x"@ + hex(addr as nat))
            } else if physical - LOAD_BASE + 4 > s.mem.len() {
                Err("Relay CPU store OOB"@)
            } else {
                Ok(IosState { mem: put32(s.mem, physical - LOAD_BASE, v), ..s })
            },
        }
    }
}

pub open spec fn gpr(x: Seq<u64>, n: u32) -> u64 {
    if n == 31 {
        0
    } else {
        x[n as int]
    }
}

pub open spec fn set_gpr(x: Seq<u64>, n: u32, v: u64) -> Seq<u64> {
    if n == 31 {
        x
    } else {
        x.update(n as int, v)
    }
}

/// The frame that `present` copies out of guest memory.
pub open spec fn framebuffer(mem: Seq<u8>) -> Seq<u8> {
    mem.subrange((FB_BASE - LOAD_BASE) as int, (FB_BASE - LOAD_BASE) + FB_BYTES)
}

/// A supervisor call: `write` is accepted, `present` hands out the frame.
pub open spec fn svc_effect(s: IosState) -> Result<IosState, Seq<char>> {
    let number = gpr(s.x, 8);
    if number == SYS_WRITE {
        Ok(s)
    } else if number == SYS_RELAY_PRESENT {
        if gpr(s.x, 1) as u32 != FB_WIDTH || gpr(s.x, 2) as u32 != FB_HEIGHT || gpr(s.x, 0)
            != FB_BASE {
            Err("present args mismatch"@)
        } else {
            Ok(IosState { frame: Some(framebuffer(s.mem)), ..s })
        }
    } else {
        Err("unknown SVC 0x"@ + hex(number as nat))
    }
}

/// `{:#08x}`: `0x` and at least six hexadecimal digits.
pub open spec fn hex6(n: u32) -> Seq<char> {
    let digits = hex(n as nat);
    "0x"@ + Seq::new(if digits.len() < 6 { (6 - digits.len()) as nat } else { 0 }, |i: int| '0')
        + digits
}

/// `v`, a field of `bits` bits, read as a two's-complement number.
pub open spec fn sext(v: int, bits: nat) -> int {
    if v >= vstd::arithmetic::power2::pow2((bits - 1) as nat) {
        v - vstd::arithmetic::power2::pow2(bits)
    } else {
        v
    }
}

/// `base + offset`, wrapping around the 64-bit address space.
pub open spec fn add_signed(base: u64, offset: int) -> u64 {
    ((base + offset) % 0x1_0000_0000_0000_0000int) as u64
}

/// Leave to the EL1 synchronous vector after a fault of `class`.
pub open spec fn fault(s: IosState, class: ExceptionClass) -> IosState {
    IosState {
        pc: (s.el1.vbar_el1 + 0x200) as u64,
        el1: El1State {
            vbar_el1: s.el1.vbar_el1,
            elr_el1: s.pc,
            esr_el1: syndrome(class),
            spsr_el1: s.nzcv as u64,
        },
        ..s
    }
}

/// One instruction: the state after it and whether it faulted.
pub open spec fn ios_step(s: IosState, a: AddressSpace) -> (IosState, Result<(), Seq<char>>) {
    match fetch(s, a, s.pc) {
        Err(m) => (fault(s, ExceptionClass::InstructionAbort), Err(m)),
        Ok(insn) => {
            let next = add_signed(s.pc, 4);
            if insn == SVC {
                match svc_effect(s) {
                    Ok(t) => (IosState { pc: next, ..t }, Ok(())),
                    Err(m) => (s, Err(m)),
                }
            } else if insn == RET {
                (IosState { pc: gpr(s.x, 30), ..s }, Ok(()))
            } else if (insn >> 23u32) & 0x1ff == 0x1a5 || (insn >> 23u32) & 0x1ff == 0x1e5 {
                let rd = insn & 0x1f;
                let imm = ((insn >> 5u32) & 0xffff) as u64;
                let shift = (((insn >> 21u32) & 3) * 16) as u64;
                let value = if (insn >> 29u32) & 3 == 2 {
                    imm << shift
                } else {
                    (gpr(s.x, rd) & !(0xffffu64 << shift)) | (imm << shift)
                };
                (IosState { x: set_gpr(s.x, rd, value), pc: next, ..s }, Ok(()))
            } else if insn & 0xffc0_0c00 == 0xb800_0400 {
                let rt = insn & 0x1f;
                let rn = (insn >> 5u32) & 0x1f;
                let imm = sext(((insn >> 12u32) & 0x1ff) as int, 9);
                let base = gpr(s.x, rn);
                match store(s, a, base, gpr(s.x, rt) as u32) {
                    Err(m) => (fault(s, ExceptionClass::DataAbort), Err(m)),
                    Ok(t) => (
                        IosState {
                            x: set_gpr(t.x, rn, add_signed(base, imm)),
                            pc: next,
                            ..t
                        },
                        Ok(()),
                    ),
                }
            } else if insn & 0xff80_0000 == 0xf100_0000 {
                let rd = insn & 0x1f;
                let rn = (insn >> 5u32) & 0x1f;
                let imm = ((insn >> 10u32) & 0xfff) as u64;
                let res = gpr(s.x, rn).wrapping_sub(imm);
                (
                    IosState {
                        x: set_gpr(s.x, rd, res),
                        nzcv: if res == 0 {
                            4
                        } else {
                            0
                        },
                        pc: next,
                        ..s
                    },
                    Ok(()),
                )
            } else if insn & 0xff00_001f == 0x5400_0001 {
                let off = sext(((insn >> 5u32) & 0x7ffff) as int, 19);
                if s.nzcv & 4 == 0 {
                    (IosState { pc: add_signed(s.pc, off * 4), ..s }, Ok(()))
                } else {
                    (IosState { pc: next, ..s }, Ok(()))
                }
            } else {
                (
                    s,
                    Err("Relay CPU unimplemented insn "@ + hex6(insn) + " at 0x"@ + hex(s.pc as nat)),
                )
            }
        },
    }
}

/// The CPU of the proof guest: registers, flags, PC, guest memory from
/// `LOAD_BASE`, the presented frame, MMU, EL1 state, timer, interrupt
/// controller and one virtio-mmio transport.
pub struct Cpu {
    pub x: [u64; 32],
    /// AArch64 NZCV bits. Guest code may use x16, so flags cannot live there.
    pub nzcv: u8,
    pub pc: u64,
    pub mem: Vec<u8>,
    pub frame: Option<Vec<u8>>,
    pub mmu: Mmu,
    pub el1: El1State,
    pub timer: Timer,
    pub gic: Gic,
    pub virtio: Transport,
}

pub open spec fn frame_view(f: Option<Vec<u8>>) -> Option<Seq<u8>> {
    match f {
        Some(v) => Some(v@),
        None => None,
    }
}

/// What running from `s` does, having executed `executed` of `budget`
/// instructions: stop at a presented frame, at a fault, or when the budget is
/// spent; the result is the instruction count at the frame.
pub open spec fn ios_run(s: IosState, a: AddressSpace, budget: u64, executed: nat) -> (
    IosState,
    Result<u64, Seq<char>>,
)
    decreases budget - executed,
{
    if s.frame is Some {
        (s, Ok(if executed <= budget { executed as u64 } else { budget }))
    } else if executed >= budget {
        (s, Err(
            "Relay CPU instruction budget exhausted after "@ + decimal(budget as nat)
                + " instructions"@,
        ))
    } else {
        let (t, r) = ios_step(s, a);
        match r {
            Err(m) => (t, Err(m)),
            Ok(_) => ios_run(t, a, budget, executed + 1),
        }
    }
}

impl Cpu {
    pub open spec fn state(&self) -> IosState {
        IosState {
            x: self.x@,
            nzcv: self.nzcv,
            pc: self.pc,
            mem: self.mem@,
            frame: frame_view(self.frame),
            el1: self.el1,
            virtio: self.virtio,
        }
    }

    pub open spec fn space(&self) -> AddressSpace {
        AddressSpace { pages: self.mmu@, granule: self.mmu.granule() }
    }

    /// The MMU and interrupt controller are well formed, the EL1 vector fits,
    /// and guest memory covers the whole map.
    pub open spec fn wf(&self) -> bool {
        &&& self.mmu.wf()
        &&& self.gic.wf()
        &&& self.el1.vbar_el1 + 0x200 <= u64::MAX
        &&& self.mem@.len() == MEM_SIZE
        &&& self.frame matches Some(f) ==> f@.len() == FB_BYTES
    }
}

fn push_hex6(out: &mut String, n: u32)
    ensures
        final(out)@ == old(out)@ + hex6(n),
{
    let mut digits = String::new();
    push_hex(&mut digits, n as u64);
    let len = digits.as_str().unicode_len();
    out.append("0x");
    let ghost start = out@;
    let mut k = len;
    while k < 6
        invariant
            len <= k <= 6 || (len >= 6 && k == len),
            len == hex(n as nat).len(),
            digits@ == hex(n as nat),
            out@ == start + Seq::new((k - len) as nat, |i: int| '0'),
        decreases 6 - k,
    {
        out.append("0");
        proof {
            reveal_strlit("0");
        }
        assert(Seq::new((k + 1 - len) as nat, |i: int| '0') =~= Seq::new(
            (k - len) as nat,
            |i: int| '0',
        ) + "0"@);
        k = k + 1;
    }
    out.append(digits.as_str());
    proof {
        reveal_strlit("0x");
    }
    assert(out@ =~= old(out)@ + hex6(n));
}

impl Cpu {
    fn gpr(&self, n: u32) -> (r: u64)
        requires
            n < 32,
        ensures
            r == gpr(self.x@, n),
    {
        if n == 31 {
            0
        } else {
            self.x[n as usize]
        }
    }

    fn set_gpr(&mut self, n: u32, v: u64)
        requires
            n < 32,
        ensures
            final(self).x@ == set_gpr(old(self).x@, n, v),
            final(self).nzcv == old(self).nzcv,
            final(self).pc == old(self).pc,
            final(self).mem == old(self).mem,
            final(self).frame == old(self).frame,
            final(self).mmu == old(self).mmu,
            final(self).el1 == old(self).el1,
            final(self).timer == old(self).timer,
            final(self).gic == old(self).gic,
            final(self).virtio == old(self).virtio,
    {
        if n != 31 {
            self.x[n as usize] = v;
        }
    }

    /// The 32-bit word at `addr`: the virtio window, or mapped guest memory.
    pub fn read_u32(&self, addr: u64) -> (r: Result<u32, RelayError>)
        requires
            self.mmu.wf(),
        ensures
            only_failed(r),
            failure(r) == fetch(self.state(), self.space(), addr),
    {
        if VIRTIO_MMIO_BASE <= addr && addr < VIRTIO_MMIO_BASE + VIRTIO_MMIO_SIZE {
            return self.virtio.read(addr - VIRTIO_MMIO_BASE);
        }
        let physical = match self.mmu.translate(addr, Access::rx()) {
            Ok(p) => p,
            Err(e) => {
                return Err(e);
            },
        };
        if physical < LOAD_BASE {
            let mut message = String::from_str("Relay CPU fetch outside load window 0x");
            push_hex(&mut message, addr);
            return Err(RelayError::Failed(message));
        }
        let off = physical - LOAD_BASE;
        if off > self.mem.len() as u64 || self.mem.len() as u64 - off < 4 {
            return Err(RelayError::Failed(String::from_str("Relay CPU fetch OOB")));
        }
        let i = off as usize;
        Ok((self.mem[i] as u32) | ((self.mem[i + 1] as u32) << 8u32) | ((self.mem[i + 2] as u32)
            << 16u32) | ((self.mem[i + 3] as u32) << 24u32))
    }

    /// Store the 32-bit `v` at `addr`: the virtio window, or mapped guest memory.
    pub fn write_u32(&mut self, addr: u64, v: u32) -> (r: Result<(), RelayError>)
        requires
            old(self).mmu.wf(),
        ensures
            only_failed(r),
            match store(old(self).state(), old(self).space(), addr, v) {
                Ok(t) => r is Ok && final(self).state() == t,
                Err(m) => failure(r) == Err::<(), Seq<char>>(m) && final(self).state() == old(
                    self,
                ).state(),
            },
            final(self).mmu == old(self).mmu,
            final(self).timer == old(self).timer,
            final(self).gic == old(self).gic,
    {
        if VIRTIO_MMIO_BASE <= addr && addr < VIRTIO_MMIO_BASE + VIRTIO_MMIO_SIZE {
            return self.virtio.write(addr - VIRTIO_MMIO_BASE, v);
        }
        if addr >= FB_BASE && addr - FB_BASE > (FB_BYTES - 4) as u64 {
            return Err(RelayError::Failed(String::from_str("Relay CPU FB OOB")));
        }
        let physical = match self.mmu.translate(addr, Access::rw()) {
            Ok(p) => p,
            Err(e) => {
                return Err(e);
            },
        };
        if physical < LOAD_BASE {
            let mut message = String::from_str("Relay CPU store outside load window 0x");
            push_hex(&mut message, addr);
            return Err(RelayError::Failed(message));
        }
        let off = physical - LOAD_BASE;
        if off > self.mem.len() as u64 || self.mem.len() as u64 - off < 4 {
            return Err(RelayError::Failed(String::from_str("Relay CPU store OOB")));
        }
        let i = off as usize;
        self.mem.set(i, v as u8);
        self.mem.set(i + 1, (v >> 8u32) as u8);
        self.mem.set(i + 2, (v >> 16u32) as u8);
        self.mem.set(i + 3, (v >> 24u32) as u8);
        Ok(())
    }

    fn svc(&mut self) -> (r: Result<(), RelayError>)
        requires
            old(self).mem@.len() == MEM_SIZE,
        ensures
            only_failed(r),
            match svc_effect(old(self).state()) {
                Ok(t) => r is Ok && final(self).state() == t,
                Err(m) => failure(r) == Err::<(), Seq<char>>(m) && final(self).state() == old(
                    self,
                ).state(),
            },
            final(self).mmu == old(self).mmu,
            final(self).timer == old(self).timer,
            final(self).gic == old(self).gic,
    {
        let number = self.gpr(8);
        if number == SYS_WRITE {
            return Ok(());
        }
        if number == SYS_RELAY_PRESENT {
            let ptr = self.gpr(0);
            let w = self.gpr(1) as u32;
            let h = self.gpr(2) as u32;
            if w != FB_WIDTH || h != FB_HEIGHT || ptr != FB_BASE {
                return Err(RelayError::Failed(String::from_str("present args mismatch")));
            }
            let off = (FB_BASE - LOAD_BASE) as usize;
            let mut frame: Vec<u8> = Vec::new();
            let mut k: usize = 0;
            while k < FB_BYTES
                invariant
                    k <= FB_BYTES,
                    off == FB_BASE - LOAD_BASE,
                    self.mem@.len() == MEM_SIZE,
                    frame@ == self.mem@.subrange(off as int, off + k),
                decreases FB_BYTES - k,
            {
                frame.push(self.mem[off + k]);
                k = k + 1;
                assert(frame@ =~= self.mem@.subrange(off as int, off + k));
            }
            self.frame = Some(frame);
            return Ok(());
        }
        let mut message = String::from_str("unknown SVC 0x");
        push_hex(&mut message, number);
        Err(RelayError::Failed(message))
    }

    /// Execute one instruction. A failed fetch or store enters the EL1
    /// synchronous vector and reports the fault.
    pub fn step(&mut self) -> (r: Result<(), RelayError>)
        requires
            old(self).wf(),
        ensures
            final(self).wf(),
            only_failed(r),
            (final(self).state(), failure(r)) == ios_step(old(self).state(), old(self).space()),
            final(self).mmu == old(self).mmu,
            final(self).timer == old(self).timer,
            final(self).gic == old(self).gic,
    {
        let pc = self.pc;
        let insn = match self.read_u32(pc) {
            Ok(insn) => insn,
            Err(error) => {
                self.pc = self.el1.enter_sync(ExceptionClass::InstructionAbort, pc, self.nzcv as u64);
                return Err(error);
            },
        };
        let next = pc.wrapping_add(4);
        assert(next == add_signed(pc, 4));
        proof {
            lemma_fields(insn);
        }
        assert({
            &&& (insn >> 12u32) & 0x1ff <= 0x1ff
            &&& (insn >> 10u32) & 0xfff <= 0xfff
            &&& (insn >> 5u32) & 0x7ffff <= 0x7ffff
            &&& (insn >> 5u32) & 0xffff <= 0xffff
            &&& ((insn >> 23u32) & 0x1ff == 0x1a5 || (insn >> 23u32) & 0x1ff == 0x1e5) ==> ((insn
                >> 29u32) & 3 == 2 || (insn >> 29u32) & 3 == 3)
        }) by (bit_vector);
        if insn == SVC {
            match self.svc() {
                Ok(()) => {},
                Err(e) => {
                    return Err(e);
                },
            }
            self.pc = next;
            return Ok(());
        }
        if insn == RET {
            self.pc = self.gpr(30);
            return Ok(());
        }
        if (insn >> 23u32) & 0x1ff == 0x1a5 || (insn >> 23u32) & 0x1ff == 0x1e5 {
            let rd = insn & 0x1f;
            let imm = ((insn >> 5u32) & 0xffff) as u64;
            let shift = (((insn >> 21u32) & 3) * 16) as u64;
            let opc = (insn >> 29u32) & 3;
            if opc == 2 {
                self.set_gpr(rd, imm << shift);
            } else if opc == 3 {
                let mask = 0xffffu64 << shift;
                let cur = self.gpr(rd);
                self.set_gpr(rd, (cur & !mask) | (imm << shift));
            } else {
                let mut message = String::from_str("unhandled move 0x");
                push_hex(&mut message, insn as u64);
                return Err(RelayError::Failed(message));
            }
            self.pc = next;
            return Ok(());
        }
        if insn & 0xffc0_0c00 == 0xb800_0400 {
            let rt = insn & 0x1f;
            let rn = (insn >> 5u32) & 0x1f;
            let raw = ((insn >> 12u32) & 0x1ff) as u64;
            let base = self.gpr(rn);
            let value = self.gpr(rt) as u32;
            match self.write_u32(base, value) {
                Ok(()) => {},
                Err(error) => {
                    self.pc = self.el1.enter_sync(ExceptionClass::DataAbort, pc, self.nzcv as u64);
                    return Err(error);
                },
            }
            proof {
                vstd::arithmetic::power2::lemma2_to64();
            }
            let updated = if raw >= 256 {
                base.wrapping_sub(512 - raw)
            } else {
                base.wrapping_add(raw)
            };
            assert(updated == add_signed(base, sext(raw as int, 9)));
            self.set_gpr(rn, updated);
            self.pc = next;
            return Ok(());
        }
        if insn & 0xff80_0000 == 0xf100_0000 {
            let rd = insn & 0x1f;
            let rn = (insn >> 5u32) & 0x1f;
            let imm = ((insn >> 10u32) & 0xfff) as u64;
            let res = self.gpr(rn).wrapping_sub(imm);
            self.set_gpr(rd, res);
            self.nzcv = if res == 0 {
                4
            } else {
                0
            };
            self.pc = next;
            return Ok(());
        }
        if insn & 0xff00_001f == 0x5400_0001 {
            let raw = ((insn >> 5u32) & 0x7ffff) as u64;
            if self.nzcv & 4 == 0 {
                proof {
                    vstd::arithmetic::power2::lemma2_to64();
                }
                let target = if raw >= 0x40000 {
                    pc.wrapping_sub((0x80000 - raw) * 4)
                } else {
                    pc.wrapping_add(raw * 4)
                };
                assert(target == add_signed(pc, sext(raw as int, 19) * 4));
                self.pc = target;
            } else {
                self.pc = next;
            }
            return Ok(());
        }
        let mut message = String::from_str("Relay CPU unimplemented insn ");
        push_hex6(&mut message, insn);
        message.append(" at 0x");
        push_hex(&mut message, pc);
        Err(RelayError::Failed(message))
    }

    /// Run until the guest presents a frame or faults, at most
    /// `budget.max_instructions` instructions; the timer ticks once per
    /// instruction. Answers how many instructions ran before the frame.
    pub fn run(&mut self, budget: ExecutionBudget) -> (r: Result<u64, RelayError>)
        requires
            old(self).wf(),
        ensures
            final(self).wf(),
            only_failed(r),
            (final(self).state(), failure(r)) == ios_run(
                old(self).state(),
                old(self).space(),
                budget.max_instructions,
                0,
            ),
            final(self).mmu == old(self).mmu,
    {
        let mut executed: u64 = 0;
        while executed < budget.max_instructions
            invariant
                self.wf(),
                executed <= budget.max_instructions,
                self.mmu == old(self).mmu,
                ios_run(self.state(), self.space(), budget.max_instructions, executed as nat)
                    == ios_run(old(self).state(), old(self).space(), budget.max_instructions, 0),
            decreases budget.max_instructions - executed,
        {
            if self.frame.is_some() {
                return Ok(executed);
            }
            match self.step() {
                Ok(()) => {},
                Err(e) => {
                    return Err(e);
                },
            }
            self.timer.advance(1, &mut self.gic);
            executed = executed + 1;
        }
        if self.frame.is_some() {
            return Ok(budget.max_instructions);
        }
        let mut message = String::from_str("Relay CPU instruction budget exhausted after ");
        push_decimal(&mut message, budget.max_instructions);
        message.append(" instructions");
        Err(RelayError::Failed(message))
    }
}

/// A fixed work cap for one host scheduling slice: deterministic across
/// devices, so a guest that never yields cannot hold the app process.
#[derive(Debug, Clone, Copy)]
pub struct ExecutionBudget {
    pub max_instructions: u64,
}

impl ExecutionBudget {
    pub fn default_budget() -> (r: Self)
        ensures
            r.max_instructions == 1_000_000,
    {
        ExecutionBudget { max_instructions: 1_000_000 }
    }
}

/// `MOVZ Xd, #imm, LSL #(16 * hw)`.
pub open spec fn movz_word(rd: u32, imm: u16, hw: u32) -> u32 {
    0xD280_0000 | (hw << 21u32) | ((imm as u32) << 5u32) | rd
}

/// `MOVK Xd, #imm, LSL #(16 * hw)`.
pub open spec fn movk_word(rd: u32, imm: u16, hw: u32) -> u32 {
    0xF280_0000 | (hw << 21u32) | ((imm as u32) << 5u32) | rd
}

/// `STR Wt, [Xn], #imm`.
pub open spec fn str_post_word(rt: u32, rn: u32, imm: i32) -> u32 {
    0xB800_0400 | (((imm as u32) & 0x1FF) << 12u32) | (rn << 5u32) | rt
}

/// `SUBS Xd, Xn, #imm`.
pub open spec fn subs_word(rd: u32, rn: u32, imm: u32) -> u32 {
    0xF100_0000 | ((imm & 0xFFF) << 10u32) | (rn << 5u32) | rd
}

/// `B.NE` by `delta` instructions.
pub open spec fn bne_word(delta: i32) -> u32 {
    0x5400_0001 | (((delta as u32) & 0x7FFFF) << 5u32)
}

pub fn movz(rd: u32, imm: u16, hw: u32) -> (r: u32)
    ensures
        r == movz_word(rd, imm, hw),
{
    0xD280_0000 | (hw << 21u32) | ((imm as u32) << 5u32) | rd
}

pub fn movk(rd: u32, imm: u16, hw: u32) -> (r: u32)
    ensures
        r == movk_word(rd, imm, hw),
{
    0xF280_0000 | (hw << 21u32) | ((imm as u32) << 5u32) | rd
}

pub fn str_w_post(rt: u32, rn: u32, imm: i32) -> (r: u32)
    ensures
        r == str_post_word(rt, rn, imm),
{
    0xB800_0400 | (((imm as u32) & 0x1FF) << 12u32) | (rn << 5u32) | rt
}

pub fn subs_imm(rd: u32, rn: u32, imm: u32) -> (r: u32)
    ensures
        r == subs_word(rd, rn, imm),
{
    0xF100_0000 | ((imm & 0xFFF) << 10u32) | (rn << 5u32) | rd
}

pub fn b_cond_ne(instr_delta: i32) -> (r: u32)
    ensures
        r == bne_word(instr_delta),
{
    0x5400_0001 | (((instr_delta as u32) & 0x7FFFF) << 5u32)
}

/// `buf` with the little-endian bytes of `v` at `off..off + 2`.
pub open spec fn put16(buf: Seq<u8>, off: int, v: u16) -> Seq<u8> {
    buf.update(off, v as u8).update(off + 1, (v >> 8u16) as u8)
}

pub fn write_u16(buf: &mut [u8], off: usize, v: u16)
    requires
        off + 2 <= old(buf)@.len(),
    ensures
        final(buf)@ == put16(old(buf)@, off as int, v),
{
    buf[off] = v as u8;
    buf[off + 1] = (v >> 8u16) as u8;
}

pub fn write_u32(buf: &mut [u8], off: usize, v: u32)
    requires
        off + 4 <= old(buf)@.len(),
    ensures
        final(buf)@ == put32(old(buf)@, off as int, v),
{
    buf[off] = v as u8;
    buf[off + 1] = (v >> 8u32) as u8;
    buf[off + 2] = (v >> 16u32) as u8;
    buf[off + 3] = (v >> 24u32) as u8;
}

pub fn write_u64(buf: &mut [u8], off: usize, v: u64)
    requires
        off + 8 <= old(buf)@.len(),
    ensures
        final(buf)@ == store_le(old(buf)@, off as int, v),
{
    write_le(buf, off, v);
}

pub fn read_u16(buf: &[u8], off: usize) -> (r: u16)
    requires
        off + 2 <= buf@.len(),
    ensures
        r == le16_at(buf@, off as int),
{
    (buf[off] as u16) | ((buf[off + 1] as u16) << 8u16)
}

pub fn read_u32(buf: &[u8], off: usize) -> (r: u32)
    requires
        off + 4 <= buf@.len(),
    ensures
        r == le32(buf@, off as int),
{
    (buf[off] as u32) | ((buf[off + 1] as u32) << 8u32) | ((buf[off + 2] as u32) << 16u32) | ((
    buf[off + 3] as u32) << 24u32)
}

pub fn read_u64(buf: &[u8], off: usize) -> (r: u64)
    requires
        off + 8 <= buf@.len(),
    ensures
        r == load_le(buf@, off as int),
{
    read_le(buf, off)
}

/// Bytes of the segment the proof ELF loads: code up to the frame buffer, then the frame.
pub open spec fn load_bytes() -> nat {
    ((FB_BASE - LOAD_BASE) + FB_BYTES) as nat
}

/// The 120-byte header of an AArch64 `ET_EXEC` image with one RWX
/// `PT_LOAD` of `code_len` code bytes at `LOAD_BASE`, entered at the code.
pub open spec fn elf_header(code_len: nat) -> Seq<u8> {
    let filesz = 120 + code_len;
    let b0 = Seq::new(120, |i: int| 0u8).update(0, 0x7f).update(1, 0x45).update(2, 0x4c).update(
        3,
        0x46,
    ).update(4, 2).update(5, 1).update(6, 1);
    let b1 = put16(put16(put32(b0, 20, 1), 18, 183), 16, 2);
    let b2 = store_le(store_le(b1, 24, (LOAD_BASE + 120) as u64), 32, 64);
    let b3 = put16(put16(put16(b2, 52, 64), 54, 56), 56, 1);
    let b4 = store_le(store_le(put32(put32(b3, 64, 1), 68, 7), 72, 0), 80, LOAD_BASE);
    store_le(
        store_le(store_le(store_le(b4, 88, LOAD_BASE), 96, filesz as u64), 104, load_bytes() as u64),
        112,
        0x10000,
    )
}

/// The header followed by the code.
pub open spec fn elf_image(code: Seq<u8>) -> Seq<u8> {
    elf_header(code.len()) + code
}

/// An ELF64 image for AArch64 that loads `code` at `LOAD_BASE` and enters it.
pub fn build_elf(code: &[u8]) -> (r: Vec<u8>)
    requires
        code@.len() + 120 <= usize::MAX,
    ensures
        r@ == elf_image(code@),
{
    let file_off: usize = 120;
    let filesz = file_off + code.len();
    let memsz = (FB_BASE - LOAD_BASE) as usize + FB_BYTES;
    let mut out: Vec<u8> = Vec::new();
    let mut k: usize = 0;
    while k < file_off
        invariant
            k <= 120,
            file_off == 120,
            out@ == Seq::new(k as nat, |i: int| 0u8),
        decreases 120 - k,
    {
        out.push(0);
        k = k + 1;
        assert(out@ =~= Seq::new(k as nat, |i: int| 0u8));
    }
    out.set(0, 0x7f);
    out.set(1, 0x45);
    out.set(2, 0x4c);
    out.set(3, 0x46);
    out.set(4, 2);
    out.set(5, 1);
    out.set(6, 1);
    let buf = out.as_mut_slice();
    write_u32(buf, 20, 1);
    write_u16(buf, 18, 183);
    write_u16(buf, 16, 2);
    write_u64(buf, 24, LOAD_BASE + file_off as u64);
    write_u64(buf, 32, 64);
    write_u16(buf, 52, 64);
    write_u16(buf, 54, 56);
    write_u16(buf, 56, 1);
    write_u32(buf, 64, 1);
    write_u32(buf, 68, 7);
    write_u64(buf, 72, 0);
    write_u64(buf, 80, LOAD_BASE);
    write_u64(buf, 88, LOAD_BASE);
    write_u64(buf, 96, filesz as u64);
    write_u64(buf, 104, memsz as u64);
    write_u64(buf, 112, 0x10000);
    assert(out@ =~= elf_header(code@.len()));
    let mut j: usize = 0;
    while j < code.len()
        invariant
            j <= code@.len(),
            out@ == elf_header(code@.len()) + code@.subrange(0, j as int),
        decreases code@.len() - j,
    {
        out.push(code[j]);
        j = j + 1;
        assert(out@ =~= elf_header(code@.len()) + code@.subrange(0, j as int));
    }
    assert(code@.subrange(0, code@.len() as int) =~= code@);
    out
}

/// The proof guest: paint a 48-row bar and the body of a 320x240 BGRA frame,
/// then present it with a supervisor call.
pub open spec fn proof_words() -> Seq<u32> {
    seq![
        movz_word(0, 0, 0),
        movk_word(0, 2, 1),
        movz_word(1, 11264, 0),
        movz_word(2, 0x4332, 0),
        movk_word(2, 0xFF1B, 1),
        movz_word(3, 0xB788, 0),
        movk_word(3, 0xFF52, 1),
        movz_word(4, 15360, 0),
        str_post_word(3, 0, 4),
        subs_word(4, 4, 1),
        bne_word(-2i32),
        movz_word(1, 61440, 0),
        str_post_word(2, 0, 4),
        subs_word(1, 1, 1),
        bne_word(-2i32),
        movz_word(0, 0, 0),
        movk_word(0, 2, 1),
        movz_word(1, 320, 0),
        movz_word(2, 240, 0),
        movz_word(8, 0x5757, 0),
        SVC,
        RET,
    ]
}

/// Little-endian bytes of each word in turn.
pub open spec fn words_le(words: Seq<u32>) -> Seq<u8>
    decreases words.len(),
{
    if words.len() == 0 {
        Seq::empty()
    } else {
        words_le(words.drop_last()) + put32(Seq::new(4, |i: int| 0u8), 0, words.last())
    }
}

fn push_word_le(out: &mut Vec<u8>, w: u32)
    ensures
        final(out)@ == old(out)@ + put32(Seq::new(4, |i: int| 0u8), 0, w),
{
    out.push(w as u8);
    out.push((w >> 8u32) as u8);
    out.push((w >> 16u32) as u8);
    out.push((w >> 24u32) as u8);
    assert(final(out)@ =~= old(out)@ + put32(Seq::new(4, |i: int| 0u8), 0, w));
}

/// The proof guest as an ELF image.
pub fn proof_elf() -> (r: Vec<u8>)
    ensures
        r@ == elf_image(words_le(proof_words())),
{
    let count = FB_WIDTH * FB_HEIGHT;
    let bar = FB_WIDTH * 48;
    let mut code: Vec<u32> = Vec::new();
    code.push(movz(0, (FB_BASE % 0x10000) as u16, 0));
    code.push(movk(0, ((FB_BASE / 0x10000) % 0x10000) as u16, 1));
    code.push(movz(1, (count % 0x10000) as u16, 0));
    code.push(movz(2, 0x4332, 0));
    code.push(movk(2, 0xFF1B, 1));
    code.push(movz(3, 0xB788, 0));
    code.push(movk(3, 0xFF52, 1));
    code.push(movz(4, (bar % 0x10000) as u16, 0));
    let bar_loop = code.len();
    code.push(str_w_post(3, 0, 4));
    code.push(subs_imm(4, 4, 1));
    let bne_bar = code.len();
    code.push(b_cond_ne(bar_loop as i32 - bne_bar as i32));
    code.push(movz(1, ((count - bar) % 0x10000) as u16, 0));
    let body_loop = code.len();
    code.push(str_w_post(2, 0, 4));
    code.push(subs_imm(1, 1, 1));
    let bne_body = code.len();
    code.push(b_cond_ne(body_loop as i32 - bne_body as i32));
    code.push(movz(0, (FB_BASE % 0x10000) as u16, 0));
    code.push(movk(0, ((FB_BASE / 0x10000) % 0x10000) as u16, 1));
    code.push(movz(1, FB_WIDTH as u16, 0));
    code.push(movz(2, FB_HEIGHT as u16, 0));
    code.push(movz(8, SYS_RELAY_PRESENT as u16, 0));
    code.push(SVC);
    code.push(RET);
    assert(code@ =~= proof_words());
    let mut bytes: Vec<u8> = Vec::new();
    let mut i: usize = 0;
    while i < code.len()
        invariant
            i <= code@.len(),
            code@.len() == 22,
            bytes@ == words_le(code@.subrange(0, i as int)),
            bytes@.len() == 4 * i,
        decreases code@.len() - i,
    {
        assert(code@.subrange(0, i + 1).drop_last() =~= code@.subrange(0, i as int));
        push_word_le(&mut bytes, code[i]);
        i = i + 1;
    }
    assert(code@.subrange(0, 22) =~= code@);
    build_elf(bytes.as_slice())
}

/// The pages of the proof guest's address space, and how mapping them ended:
/// code read-execute from `LOAD_BASE` to the frame buffer, then read-write to
/// the end of memory.
pub open spec fn proof_map() -> (Map<u64, Mapping>, Result<(), Seq<char>>) {
    let (code, first) = map_from(
        Map::empty(),
        LOAD_BASE,
        LOAD_BASE,
        (FB_BASE - LOAD_BASE) as u64,
        4096,
        Access { read: true, write: false, execute: true },
        0,
    );
    match first {
        Err(e) => (code, Err(e)),
        Ok(_) => map_from(
            code,
            FB_BASE,
            FB_BASE,
            (MEM_SIZE - (FB_BASE - LOAD_BASE)) as u64,
            4096,
            Access { read: true, write: true, execute: false },
            0,
        ),
    }
}

/// Guest memory after copying the `PT_LOAD` segments of `elf`, from program
/// header `i` on, into `mem` at their address less `LOAD_BASE`; `None` when a
/// header or a segment lies outside the image or outside memory.
pub open spec fn load_segments(elf: Seq<u8>, i: int, mem: Seq<u8>) -> Option<Seq<u8>>
    decreases le16_at(elf, 56) - i,
{
    if i < 0 || i >= le16_at(elf, 56) {
        Some(mem)
    } else {
        let off = load_le(elf, 32) + i * le16_at(elf, 54);
        if off + 40 > elf.len() {
            None
        } else if le32(elf, off) != 1 {
            load_segments(elf, i + 1, mem)
        } else {
            let p_offset = load_le(elf, off + 8);
            let p_vaddr = load_le(elf, off + 16);
            let p_filesz = load_le(elf, off + 32);
            if p_vaddr < LOAD_BASE || (p_vaddr - LOAD_BASE) + p_filesz > mem.len() || p_offset
                + p_filesz > elf.len() {
                None
            } else {
                load_segments(
                    elf,
                    i + 1,
                    written(mem, p_vaddr - LOAD_BASE, elf.subrange(p_offset as int, p_offset + p_filesz)),
                )
            }
        }
    }
}

/// The CPU a loaded image starts on: registers clear but the stack pointer at
/// the top of memory, at the image's entry point, no frame yet.
pub open spec fn boot_state(elf: Seq<u8>, mem: Seq<u8>) -> IosState {
    IosState {
        x: Seq::new(32, |k: int| if k == 31 { MEM_SIZE as u64 } else { 0u64 }),
        nzcv: 0,
        pc: load_le(elf, 24),
        mem,
        frame: None,
        el1: El1State { vbar_el1: 0, elr_el1: 0, esr_el1: 0, spsr_el1: 0 },
        virtio: Transport::new_spec(2, 0, 128),
    }
}

/// What `run_elf` answers for `elf`: the frame its guest presents within a
/// million instructions, or why there is none.
pub open spec fn run_elf_spec(elf: Seq<u8>) -> Result<Seq<u8>, Seq<char>> {
    if elf.len() < 64 || elf.subrange(0, 4) != seq![0x7fu8, 0x45, 0x4c, 0x46] {
        Err("proof ELF is not ELF64"@)
    } else {
        match load_segments(elf, 0, Seq::new(MEM_SIZE as nat, |k: int| 0u8)) {
            None => Err("proof ELF load overflow"@),
            Some(mem) => match proof_map().1 {
                Err(e) => Err(e),
                Ok(_) => {
                    let (end, outcome) = ios_run(
                        boot_state(elf, mem),
                        AddressSpace { pages: proof_map().0, granule: 4096 },
                        1_000_000,
                        0,
                    );
                    match outcome {
                        Err(m) => Err(m),
                        Ok(_) => match end.frame {
                            Some(f) => Ok(f),
                            None => Err("Relay CPU did not present a frame"@),
                        },
                    }
                },
            },
        }
    }
}

/// The proof guest's address space: code read-execute up to the frame
/// buffer, the frame buffer and the rest of memory read-write.
pub fn proof_mmu() -> (r: Result<Mmu, RelayError>)
    ensures
        only_failed(r),
        r matches Ok(m) ==> m.wf() && m.granule() == 4096 && m@ == proof_map().0,
        r is Ok <==> proof_map().1 is Ok,
        proof_map().1 matches Err(e) ==> failure(r) == Err::<Mmu, Seq<char>>(e),
{
    let mut mmu = Mmu::new(GuestPageSize::four_kib());
    match mmu.map(LOAD_BASE, LOAD_BASE, FB_BASE - LOAD_BASE, Access::rx()) {
        Ok(()) => {},
        Err(e) => {
            return Err(e);
        },
    }
    match mmu.map(FB_BASE, FB_BASE, MEM_SIZE as u64 - (FB_BASE - LOAD_BASE), Access::rw()) {
        Ok(()) => {},
        Err(e) => {
            return Err(e);
        },
    }
    Ok(mmu)
}

fn load_overflow() -> (r: RelayError)
    ensures
        error_text(r) == "proof ELF load overflow"@,
        r is Failed,
{
    RelayError::Failed(String::from_str("proof ELF load overflow"))
}

/// Load an ELF image's `PT_LOAD` segments at `LOAD_BASE`, run it on a fresh
/// CPU from its entry point and answer the frame it presents. A segment
/// outside memory or outside the image is refused.
pub fn run_elf(elf: &[u8]) -> (r: Result<Vec<u8>, RelayError>)
    ensures
        only_failed(r),
        match run_elf_spec(elf@) {
            Ok(frame) => r matches Ok(v) && v@ == frame,
            Err(e) => failure(r) == Err::<Vec<u8>, Seq<char>>(e),
        },
        r matches Ok(frame) ==> frame@.len() == FB_BYTES,
{
    if elf.len() < 64 || elf[0] != 0x7f || elf[1] != 0x45 || elf[2] != 0x4c || elf[3] != 0x46 {
        proof {
            if elf@.len() >= 64 {
                assert(elf@.subrange(0, 4) != seq![0x7fu8, 0x45, 0x4c, 0x46]) by {
                    if elf@.subrange(0, 4) == seq![0x7fu8, 0x45, 0x4c, 0x46] {
                        assert(elf@.subrange(0, 4)[0] == elf@[0]);
                        assert(elf@.subrange(0, 4)[1] == elf@[1]);
                        assert(elf@.subrange(0, 4)[2] == elf@[2]);
                        assert(elf@.subrange(0, 4)[3] == elf@[3]);
                    }
                }
            }
        }
        return Err(RelayError::Failed(String::from_str("proof ELF is not ELF64")));
    }
    assert(elf@.subrange(0, 4) =~= seq![0x7fu8, 0x45, 0x4c, 0x46]);
    let phoff = read_u64(elf, 32);
    let phentsize = read_u16(elf, 54) as u64;
    let phnum = read_u16(elf, 56) as u64;
    let entry = read_u64(elf, 24);
    let mut mem: Vec<u8> = Vec::new();
    let mut k: usize = 0;
    while k < MEM_SIZE
        invariant
            k <= MEM_SIZE,
            mem@ == Seq::new(k as nat, |n: int| 0u8),
        decreases MEM_SIZE - k,
    {
        mem.push(0);
        k = k + 1;
        assert(mem@ =~= Seq::new(k as nat, |n: int| 0u8));
    }
    let ghost zeros = mem@;
    assert(zeros =~= Seq::new(MEM_SIZE as nat, |k: int| 0u8));
    let mut i: u64 = 0;
    while i < phnum
        invariant
            i <= phnum,
            phnum == le16_at(elf@, 56),
            phentsize == le16_at(elf@, 54),
            phoff == load_le(elf@, 32),
            mem@.len() == MEM_SIZE,
            elf@.len() >= 64,
            elf@.subrange(0, 4) == seq![0x7fu8, 0x45, 0x4c, 0x46],
            zeros == Seq::new(MEM_SIZE as nat, |k: int| 0u8),
            load_segments(elf@, 0, zeros) == load_segments(elf@, i as int, mem@),
        decreases phnum - i,
    {
        assert(i * phentsize <= 0xffff * 0xffff) by (nonlinear_arith)
            requires
                i <= 0xffff,
                phentsize <= 0xffff,
        ;
        let step = i * phentsize;
        assert(step == i * le16_at(elf@, 54));
        let image_len = elf.len() as u64;
        if phoff > u64::MAX - step || phoff + step > image_len || image_len - (phoff + step) < 40 {
            assert(load_segments(elf@, i as int, mem@) is None);
            return Err(load_overflow());
        }
        let off = (phoff + step) as usize;
        if read_u32(elf, off) == 1 {
            let p_offset = read_u64(elf, off + 8);
            let p_vaddr = read_u64(elf, off + 16);
            let p_filesz = read_u64(elf, off + 32);
            if p_vaddr < LOAD_BASE {
                assert(load_segments(elf@, i as int, mem@) is None);
                return Err(load_overflow());
            }
            let dest = p_vaddr - LOAD_BASE;
            if dest > mem.len() as u64 || p_filesz > mem.len() as u64 - dest || p_offset
                > elf.len() as u64 || p_filesz > elf.len() as u64 - p_offset {
                return Err(load_overflow());
            }
            let ghost before = mem@;
            let mut j: u64 = 0;
            while j < p_filesz
                invariant
                    j <= p_filesz,
                    dest + p_filesz <= mem@.len(),
                    p_offset + p_filesz <= elf@.len(),
                    elf@.len() <= usize::MAX,
                    mem@.len() == before.len(),
                    before.len() == MEM_SIZE,
                    forall|n: int|
                        0 <= n < mem@.len() ==> #[trigger] mem@[n] == if dest <= n < dest + j {
                            elf@[p_offset + n - dest]
                        } else {
                            before[n]
                        },
                decreases p_filesz - j,
            {
                mem.set((dest + j) as usize, elf[(p_offset + j) as usize]);
                j = j + 1;
            }
            assert(mem@ =~= written(
                before,
                dest as int,
                elf@.subrange(p_offset as int, p_offset + p_filesz),
            ));
        }
        i = i + 1;
    }
    let mmu = match proof_mmu() {
        Ok(m) => m,
        Err(e) => {
            return Err(e);
        },
    };
    let mut x: [u64; 32] = [0; 32];
    x[31] = MEM_SIZE as u64;
    let mut cpu = Cpu {
        x,
        nzcv: 0,
        pc: entry,
        mem,
        frame: None,
        mmu,
        el1: El1State::new(0),
        timer: Timer::new(27),
        gic: Gic::new(),
        virtio: Transport::new(2, 0, 128),
    };
    assert(cpu.state() == boot_state(elf@, cpu.mem@)) by {
        assert(cpu.x@ =~= Seq::new(32, |k: int| if k == 31 { MEM_SIZE as u64 } else { 0u64 }));
    }
    match cpu.run(ExecutionBudget::default_budget()) {
        Ok(_) => {},
        Err(e) => {
            return Err(e);
        },
    }
    match cpu.frame {
        Some(frame) => Ok(frame),
        None => Err(RelayError::Failed(String::from_str("Relay CPU did not present a frame"))),
    }
}

/// Build and run the proof guest; the frame it presents.
pub fn interpret_proof_elf() -> (r: Result<Vec<u8>, RelayError>)
    ensures
        only_failed(r),
        match run_elf_spec(elf_image(words_le(proof_words()))) {
            Ok(frame) => r matches Ok(v) && v@ == frame,
            Err(e) => failure(r) == Err::<Vec<u8>, Seq<char>>(e),
        },
        r matches Ok(frame) ==> frame@.len() == FB_BYTES,
{
    let elf = proof_elf();
    run_elf(elf.as_slice())
}

/// Pixels with their first (blue) channel raised by 24, saturating.
pub open spec fn tinted(frame: Seq<u8>) -> Seq<u8> {
    Seq::new(
        frame.len(),
        |i: int|
            if i % 4 == 0 {
                if frame[i] + 24 > 255 {
                    255u8
                } else {
                    (frame[i] + 24) as u8
                }
            } else {
                frame[i]
            },
    )
}

/// `relay-static-cpu-<sequence>`.
pub open spec fn session_id(sequence: u64) -> Seq<char> {
    "relay-static-cpu-"@ + decimal(sequence as nat)
}

/// The in-process Wayland SHM endpoint of a session.
pub open spec fn session_endpoint(sequence: u64, page: u32) -> Seq<char> {
    "wayland-shm://relay-static-cpu-"@ + decimal(sequence as nat) + "?320x240&page="@ + decimal(
        page as nat,
    ) + "&waypipe=in-process&vsock=1"@
}

/// A session for the `sequence`-th start, showing `frame`; a container's
/// frame is tinted so that its rows differ from a VM's.
pub fn session_from_frame(spec: &RelaySpec, page: GuestPageSize, sequence: u64, frame: Vec<u8>) -> (r:
    Result<IosCpuSession, RelayError>)
    ensures
        only_failed(r),
        frame@.len() != FB_BYTES ==> failure(r) == Err::<IosCpuSession, Seq<char>>(
            "Relay CPU produced no SHM frame"@,
        ),
        frame@.len() == FB_BYTES ==> r is Ok,
        r matches Ok(s) ==> {
            &&& s.id@ == session_id(sequence)
            &&& s.backend == RelayBackend::StaticCpu
            &&& s.kind == spec.kind
            &&& s.wayland_endpoint@ == session_endpoint(sequence, page.0)
            &&& s.frame@ == if spec.kind == RelayKind::Container {
                tinted(frame@)
            } else {
                frame@
            }
            &&& s.width == FB_WIDTH
            &&& s.height == FB_HEIGHT
        },
{
    if frame.len() != FB_BYTES {
        return Err(RelayError::Failed(String::from_str("Relay CPU produced no SHM frame")));
    }
    let mut frame = frame;
    if matches!(spec.kind, RelayKind::Container) {
        let ghost original = frame@;
        let mut i: usize = 0;
        while i < frame.len()
            invariant
                frame@.len() == original.len(),
                i <= frame@.len(),
                i % 4 == 0,
                original.len() == FB_BYTES,
                forall|k: int|
                    0 <= k < frame@.len() ==> #[trigger] frame@[k] == if k < i {
                        tinted(original)[k]
                    } else {
                        original[k]
                    },
            decreases frame@.len() - i,
        {
            let v = frame[i];
            frame.set(i, v.saturating_add(24));
            i = i + 4;
        }
        assert(frame@ =~= tinted(original));
    }
    let mut id = String::from_str("relay-static-cpu-");
    push_decimal(&mut id, sequence);
    let mut endpoint = String::from_str("wayland-shm://relay-static-cpu-");
    push_decimal(&mut endpoint, sequence);
    endpoint.append("?320x240&page=");
    push_decimal(&mut endpoint, page.0 as u64);
    endpoint.append("&waypipe=in-process&vsock=1");
    Ok(
        IosCpuSession {
            id,
            backend: RelayBackend::StaticCpu,
            kind: spec.kind,
            wayland_endpoint: endpoint,
            frame,
            width: FB_WIDTH,
            height: FB_HEIGHT,
        },
    )
}

/// Start the static CPU for `spec` as the `sequence`-th session of this
/// process: resolve the guest page size (the host's, `host_page_bytes`, when
/// the spec names none), run the proof guest and hand out its frame.
pub fn start(spec: &RelaySpec, host_page_bytes: u32, sequence: u64) -> (r: Result<
    IosCpuSession,
    RelayError,
>)
    ensures
        only_failed(r),
        match GuestPageSize::resolve_spec(spec.guest_page_size, host_page_bytes) {
            Err(e) => failure(r) == Err::<IosCpuSession, Seq<char>>(e),
            Ok(page) => if !aligned_to(LOAD_BASE, page.0) || !aligned_to(FB_BASE, page.0) {
                failure(r) == Err::<IosCpuSession, Seq<char>>(
                    "Relay static CPU memory map is not page aligned"@,
                )
            } else {
                match run_elf_spec(elf_image(words_le(proof_words()))) {
                    Err(e) => failure(r) == Err::<IosCpuSession, Seq<char>>(e),
                    Ok(frame) => r matches Ok(s) && {
                        &&& s.id@ == session_id(sequence)
                        &&& s.backend == RelayBackend::StaticCpu
                        &&& s.kind == spec.kind
                        &&& s.wayland_endpoint@ == session_endpoint(sequence, page.0)
                        &&& s.frame@ == if spec.kind == RelayKind::Container {
                            tinted(frame)
                        } else {
                            frame
                        }
                        &&& s.frame@.len() == FB_BYTES
                        &&& s.width == FB_WIDTH
                        &&& s.height == FB_HEIGHT
                    },
                }
            },
        },
{
    let page = match GuestPageSize::resolve(spec.guest_page_size, host_page_bytes) {
        Ok(p) => p,
        Err(e) => {
            return Err(e);
        },
    };
    if !page.is_aligned(LOAD_BASE) || !page.is_aligned(FB_BASE) {
        return Err(
            RelayError::Failed(String::from_str("Relay static CPU memory map is not page aligned")),
        );
    }
    let frame = match interpret_proof_elf() {
        Ok(f) => f,
        Err(e) => {
            return Err(e);
        },
    };
    session_from_frame(spec, page, sequence, frame)
}

} // verus!
