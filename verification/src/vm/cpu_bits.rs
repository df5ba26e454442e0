//! Bit-level helpers of the AArch64 decoder: sign extension, masks, byte
//! reversal, logical-immediate decoding and condition codes.
use vstd::prelude::*;

verus! {

/// Sign-extend the low `bits` bits of `value` to 64 bits.
pub open spec fn sext(value: u64, bits: u64) -> i64 {
    ((value << ((64 - bits) as u64)) as i64) >> ((64 - bits) as u64)
}

pub fn sign_extend(value: u64, bits: u32) -> (r: i64)
    requires
        1 <= bits <= 64,
    ensures
        r == sext(value, bits as u64),
{
    ((value << (64 - bits)) as i64) >> (64 - bits)
}

/// `bits` low ones.
pub open spec fn mask(bits: u64) -> u64 {
    if bits >= 64 {
        u64::MAX
    } else {
        ((1u64 << bits) - 1) as u64
    }
}

pub fn low_mask(bits: u32) -> (r: u64)
    requires
        bits <= 64,
    ensures
        r == mask(bits as u64),
{
    if bits == 64 {
        u64::MAX
    } else {
        assert(1u64 << bits >= 1) by (bit_vector)
            requires
                bits < 64,
        ;
        (1u64 << bits) - 1
    }
}

/// Sign-extend a `bits`-wide field inside a `width`-wide register.
pub open spec fn sext_width(value: u64, bits: u64, width: u64) -> u64 {
    if bits == 64 || value & (1u64 << ((bits - 1) as u64)) == 0 {
        value
    } else {
        value | (mask(width) & !mask(bits))
    }
}

pub fn sign_extend_width(value: u64, bits: u32, width: u32) -> (r: u64)
    requires
        1 <= bits <= 64,
        width <= 64,
    ensures
        r == sext_width(value, bits as u64, width as u64),
{
    if bits == 64 || value & (1u64 << (bits - 1)) == 0 {
        value
    } else {
        value | (low_mask(width) & !low_mask(bits))
    }
}

/// Byte `k` of `v`.
pub open spec fn byte(v: u64, k: u64) -> u64 {
    (v >> (8 * k)) & 0xff
}

/// REV16 over the low `width` bits: swap the bytes of every halfword.
pub open spec fn rev16(value: u64, width: u64) -> u64
    decreases width,
{
    if width < 16 {
        0
    } else {
        let shift = (width - 16) as u64;
        rev16(value, shift) | (((value >> shift) & 0xff) << ((shift + 8) as u64)) | (((value >> ((
        shift + 8) as u64)) & 0xff) << shift)
    }
}

pub fn reverse_bytes_in_halfwords(value: u64, width: u32) -> (r: u64)
    requires
        width == 32 || width == 64,
    ensures
        r == rev16(value, width as u64),
{
    let mut result: u64 = 0;
    let mut shift: u32 = 0;
    while shift < width
        invariant
            width == 32 || width == 64,
            shift <= width,
            shift % 16 == 0,
            result == rev16(value, shift as u64),
        decreases width - shift,
    {
        result = result | (((value >> shift) & 0xff) << (shift + 8));
        result = result | (((value >> (shift + 8)) & 0xff) << shift);
        assert(rev16(value, (shift + 16) as u64) == rev16(value, shift as u64) | (((value >> shift)
            & 0xff) << ((shift + 8) as u64)) | (((value >> ((shift + 8) as u64)) & 0xff) << shift));
        shift = shift + 16;
    }
    result
}

/// Index of the highest set bit of a non-zero value below 128 (`31 - clz`).
pub open spec fn top_bit(v: u32) -> u32 {
    if v >= 64 {
        6
    } else if v >= 32 {
        5
    } else if v >= 16 {
        4
    } else if v >= 8 {
        3
    } else if v >= 4 {
        2
    } else if v >= 2 {
        1
    } else {
        0
    }
}

/// The element of an AArch64 bitmask immediate (DecodeBitMasks), replicated
/// across the register, or `None` for a reserved encoding.
pub open spec fn logical_immediate(is_64: bool, n: u32, immr: u32, imms: u32) -> Option<u64> {
    if !is_64 && n != 0 {
        None
    } else {
        let encoded = ((n << 6u32) | (!imms & 0x3f)) as u32;
        if encoded < 2 {
            None
        } else {
            let len = top_bit(encoded);
            let levels = ((1u32 << len) - 1) as u32;
            let size = (1u32 << len) as u32;
            let set_bits = imms & levels;
            if set_bits == levels {
                None
            } else {
                let rotate = immr & levels;
                let element_mask = if size == 64 { u64::MAX } else { ((1u64 << size) - 1) as u64 };
                let ones = if set_bits == 63 { u64::MAX } else { ((1u64 << ((set_bits + 1) as u64)) - 1) as u64 };
                let element = if rotate == 0 {
                    ones
                } else {
                    ((ones >> rotate) | (ones << ((size - rotate) as u64))) & element_mask
                };
                Some(replicate(element, size as u64, ((if is_64 { 64u32 } else { 32u32 }) / size) as nat))
            }
        }
    }
}

/// `count` copies of `element`, one every `size` bits from bit 0 up.
pub open spec fn replicate(element: u64, size: u64, count: nat) -> u64
    decreases count,
{
    if count == 0 {
        0
    } else {
        replicate(element, size, (count - 1) as nat) | (element << (((count - 1) * size) as u64))
    }
}

pub fn decode_logical_immediate(is_64: bool, n: u32, immr: u32, imms: u32) -> (r: Option<u64>)
    requires
        n <= 1,
        immr < 64,
        imms < 64,
    ensures
        r == logical_immediate(is_64, n, immr, imms),
{
    if !is_64 && n != 0 {
        return None;
    }
    let encoded = (n << 6) | ((!imms) & 0x3f);
    assert(encoded < 128) by (bit_vector)
        requires
            n <= 1,
            encoded == (n << 6u32) | (!imms & 0x3f),
    ;
    if encoded < 2 {
        return None;
    }
    let len: u32 = if encoded >= 64 {
        6
    } else if encoded >= 32 {
        5
    } else if encoded >= 16 {
        4
    } else if encoded >= 8 {
        3
    } else if encoded >= 4 {
        2
    } else {
        1
    };
    assert(2 <= (1u32 << len) <= 64) by (bit_vector)
        requires
            1 <= len <= 6,
    ;
    let levels = (1u32 << len) - 1;
    let size = 1u32 << len;
    let set_bits = imms & levels;
    assert(set_bits <= levels) by (bit_vector)
        requires
            set_bits == imms & levels,
    ;
    if set_bits == levels {
        return None;
    }
    let rotate = immr & levels;
    assert(rotate <= levels) by (bit_vector)
        requires
            rotate == immr & levels,
    ;
    let element_mask = if size == 64 {
        u64::MAX
    } else {
        assert(1u64 << size >= 1) by (bit_vector)
            requires
                size < 64,
        ;
        (1u64 << size) - 1
    };
    let ones = if set_bits == 63 {
        u64::MAX
    } else {
        let b = set_bits + 1;
        assert(1u64 << b >= 1) by (bit_vector)
            requires
                b < 64,
        ;
        (1u64 << b) - 1
    };
    let element = if rotate == 0 {
        ones
    } else {
        ((ones >> rotate) | (ones << (size - rotate))) & element_mask
    };
    let width: u32 = if is_64 {
        64
    } else {
        32
    };
    let count = width / size;
    let mut result: u64 = 0;
    let mut k: u32 = 0;
    while k < count
        invariant
            2 <= size <= 64,
            width == 32 || width == 64,
            count == width / size,
            k <= count,
            result == replicate(element, size as u64, k as nat),
        decreases count - k,
    {
        assert(k * size < 64) by (nonlinear_arith)
            requires
                k < count,
                count == width / size,
                width <= 64,
                size >= 2,
        ;
        result = result | (element << (k * size));
        k = k + 1;
    }
    Some(result)
}

/// ARM condition codes over the NZCV nibble.
pub open spec fn condition(nzcv: u8, cond: u32) -> bool {
    let n = nzcv & 8 != 0;
    let z = nzcv & 4 != 0;
    let c = nzcv & 2 != 0;
    let v = nzcv & 1 != 0;
    if cond == 0 {
        z
    } else if cond == 1 {
        !z
    } else if cond == 2 {
        c
    } else if cond == 3 {
        !c
    } else if cond == 4 {
        n
    } else if cond == 5 {
        !n
    } else if cond == 6 {
        v
    } else if cond == 7 {
        !v
    } else if cond == 8 {
        c && !z
    } else if cond == 9 {
        !c || z
    } else if cond == 10 {
        n == v
    } else if cond == 11 {
        n != v
    } else if cond == 12 {
        !z && n == v
    } else if cond == 13 {
        z || n != v
    } else {
        cond == 14
    }
}

pub fn condition_holds(nzcv: u8, cond: u32) -> (r: bool)
    ensures
        r == condition(nzcv, cond),
{
    let n = nzcv & 8 != 0;
    let z = nzcv & 4 != 0;
    let c = nzcv & 2 != 0;
    let v = nzcv & 1 != 0;
    if cond == 0 {
        z
    } else if cond == 1 {
        !z
    } else if cond == 2 {
        c
    } else if cond == 3 {
        !c
    } else if cond == 4 {
        n
    } else if cond == 5 {
        !n
    } else if cond == 6 {
        v
    } else if cond == 7 {
        !v
    } else if cond == 8 {
        c && !z
    } else if cond == 9 {
        !c || z
    } else if cond == 10 {
        n == v
    } else if cond == 11 {
        n != v
    } else if cond == 12 {
        !z && n == v
    } else if cond == 13 {
        z || n != v
    } else {
        cond == 14
    }
}

} // verus!
