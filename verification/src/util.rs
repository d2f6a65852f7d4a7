use vstd::prelude::*;

verus! {

/// The value of two little-endian bytes.
pub open spec fn le_u16(lo: u8, hi: u8) -> int {
    lo + 256 * hi
}

/// The value of four little-endian bytes.
pub open spec fn le_u32(b0: u8, b1: u8, b2: u8, b3: u8) -> int {
    b0 + 256 * b1 + 65536 * b2 + 16777216 * b3
}

/// The two's complement reading of a 16-bit pattern.
pub open spec fn signed16(v: int) -> int {
    if v < 0x8000 {
        v
    } else {
        v - 0x10000
    }
}

/// The two's complement reading of an 8-bit pattern.
pub open spec fn signed8(v: int) -> int {
    if v < 0x80 {
        v
    } else {
        v - 0x100
    }
}

/// Number of distinct values of an `N`-bit operand (8 or 16 bits).
pub open spec fn modulus(n: usize) -> int {
    if n == 8 {
        0x100
    } else {
        0x10000
    }
}

/// Two's complement reading of an `N`-bit pattern.
pub open spec fn signed_n(n: usize, v: int) -> int {
    if n == 8 {
        signed8(v)
    } else {
        signed16(v)
    }
}

/// Signed range of an `N`-bit operand.
pub open spec fn fits_signed(n: usize, v: int) -> bool {
    -(modulus(n) / 2) <= v < modulus(n) / 2
}

/// Result, carry and overflow of an `N`-bit addition of the low `N` bits of `a` and `b`.
pub open spec fn add_flags_spec(n: usize, a: int, b: int) -> (u16, bool, bool) {
    let x = a % modulus(n);
    let y = b % modulus(n);
    (
        ((x + y) % modulus(n)) as u16,
        x + y >= modulus(n),
        !fits_signed(n, signed_n(n, x) + signed_n(n, y)),
    )
}

/// Result, borrow and overflow of an `N`-bit subtraction of the low `N` bits of `a` and `b`.
pub open spec fn sub_flags_spec(n: usize, a: int, b: int) -> (u16, bool, bool) {
    let x = a % modulus(n);
    let y = b % modulus(n);
    (
        ((x - y + modulus(n)) % modulus(n)) as u16,
        x < y,
        !fits_signed(n, signed_n(n, x) - signed_n(n, y)),
    )
}

/// `Ok(())` when the value is the expected one, the given error otherwise.
pub fn expect_magic<E>(value: u16, expected: u16, error: E) -> (r: Result<(), E>)
    ensures
        value == expected ==> r == Ok::<(), E>(()),
        value != expected ==> r == Err::<(), E>(error),
{
    bool_to_result(value == expected, error)
}

/// `Ok(())` when `result` holds, the given error otherwise.
pub fn bool_to_result<T>(result: bool, error: T) -> (r: Result<(), T>)
    ensures
        result ==> r == Ok::<(), T>(()),
        !result ==> r == Err::<(), T>(error),
{
    if result {
        Ok(())
    } else {
        Err(error)
    }
}

/// Little-endian 16-bit word at `offset`, if both of its bytes lie in `bytes`.
pub fn u16_from_slice(bytes: &[u8], offset: usize) -> (r: Option<u16>)
    requires
        offset + 2 <= usize::MAX,
    ensures
        offset + 2 <= bytes@.len() <==> r.is_some(),
        r matches Some(v) ==> v == le_u16(bytes@[offset as int], bytes@[offset + 1]),
{
    if offset + 2 <= bytes.len() {
        let lo = bytes[offset];
        let hi = bytes[offset + 1];
        Some(lo as u16 + (hi as u16) * 256)
    } else {
        None
    }
}

/// Little-endian 16-bit word at `offset` of a fixed-size array.
pub fn u16_from_array<const N: usize>(bytes: &[u8; N], offset: usize) -> (r: Option<u16>)
    requires
        offset + 2 <= usize::MAX,
    ensures
        offset + 2 <= N <==> r.is_some(),
        r matches Some(v) ==> v == le_u16(bytes@[offset as int], bytes@[offset + 1]),
{
    if offset + 2 <= N {
        let lo = bytes[offset];
        let hi = bytes[offset + 1];
        Some(lo as u16 + (hi as u16) * 256)
    } else {
        None
    }
}

/// Little-endian 32-bit word at `offset` of a fixed-size array.
pub fn u32_from_array<const N: usize>(bytes: &[u8; N], offset: usize) -> (r: Option<u32>)
    requires
        offset + 4 <= usize::MAX,
    ensures
        offset + 4 <= N <==> r.is_some(),
        r matches Some(v) ==> v == le_u32(
            bytes@[offset as int],
            bytes@[offset + 1],
            bytes@[offset + 2],
            bytes@[offset + 3],
        ),
{
    if offset + 4 <= N {
        let b0 = bytes[offset] as u32;
        let b1 = bytes[offset + 1] as u32;
        let b2 = bytes[offset + 2] as u32;
        let b3 = bytes[offset + 3] as u32;
        Some(b0 + b1 * 256 + b2 * 65536 + b3 * 16777216)
    } else {
        None
    }
}

/// 16-bit addition: the wrapped result, the carry out and the signed overflow.
pub fn add_with_flags_16(a: u16, b: u16) -> (r: (u16, bool, bool))
    ensures
        r == add_flags_spec(16, a as int, b as int),
{
    let result = a.wrapping_add(b);
    let carry = (a as u32) + (b as u32) > 0xffff;
    let sa = a >= 0x8000;
    let sb = b >= 0x8000;
    let sr = result >= 0x8000;
    let overflow = sa == sb && sr != sa;
    assert(a as int % 0x10000 == a && b as int % 0x10000 == b);
    (result, carry, overflow)
}

/// 16-bit subtraction: the wrapped result, the borrow and the signed overflow.
pub fn sub_with_flags_16(a: u16, b: u16) -> (r: (u16, bool, bool))
    ensures
        r == sub_flags_spec(16, a as int, b as int),
{
    let result = a.wrapping_sub(b);
    let carry = a < b;
    let sa = a >= 0x8000;
    let sb = b >= 0x8000;
    let sr = result >= 0x8000;
    let overflow = sa != sb && sr != sa;
    assert(a as int % 0x10000 == a && b as int % 0x10000 == b);
    (result, carry, overflow)
}

/// 8-bit addition: the wrapped result, the carry out and the signed overflow.
pub fn add_with_flags_8(a: u8, b: u8) -> (r: (u8, bool, bool))
    ensures
        (r.0 as u16, r.1, r.2) == add_flags_spec(8, a as int, b as int),
{
    let result = a.wrapping_add(b);
    let carry = (a as u16) + (b as u16) > 0xff;
    let sa = a >= 0x80;
    let sb = b >= 0x80;
    let sr = result >= 0x80;
    let overflow = sa == sb && sr != sa;
    (result, carry, overflow)
}

/// 8-bit subtraction: the wrapped result, the borrow and the signed overflow.
pub fn sub_with_flags_8(a: u8, b: u8) -> (r: (u8, bool, bool))
    ensures
        (r.0 as u16, r.1, r.2) == sub_flags_spec(8, a as int, b as int),
{
    let result = a.wrapping_sub(b);
    let carry = a < b;
    let sa = a >= 0x80;
    let sb = b >= 0x80;
    let sr = result >= 0x80;
    let overflow = sa != sb && sr != sa;
    (result, carry, overflow)
}

/// A double word from its low and high words.
pub fn encode_u16_u16_to_u32(low: u16, high: u16) -> (r: u32)
    ensures
        r == high * 65536 + low,
{
    assert(((high as u32) << 16u32) | (low as u32) == high * 65536 + low) by (bit_vector);
    ((high as u32) << 16) | (low as u32)
}

fn map_u16_u8(tuple: (u8, bool, bool)) -> (r: (u16, bool, bool))
    ensures
        r == (tuple.0 as u16, tuple.1, tuple.2),
{
    (tuple.0 as u16, tuple.1, tuple.2)
}

proof fn lemma_low_byte(a: u16)
    ensures
        (a as u8) as int == a % 256,
{
    assert((a as u8) as int == a % 256) by (bit_vector);
}

/// `N`-bit subtraction (`N` is 8 or 16) of the low `N` bits of the operands.
pub fn sub_with_flags<const N: usize>(a: u16, b: u16) -> (r: (u16, bool, bool))
    requires
        N == 8 || N == 16,
    ensures
        r == sub_flags_spec(N, a as int, b as int),
{
    if N == 16 {
        sub_with_flags_16(a, b)
    } else {
        proof {
            lemma_low_byte(a);
            lemma_low_byte(b);
        }
        map_u16_u8(sub_with_flags_8(a as u8, b as u8))
    }
}

/// `N`-bit addition (`N` is 8 or 16) of the low `N` bits of the operands.
pub fn add_with_flags<const N: usize>(a: u16, b: u16) -> (r: (u16, bool, bool))
    requires
        N == 8 || N == 16,
    ensures
        r == add_flags_spec(N, a as int, b as int),
{
    if N == 16 {
        add_with_flags_16(a, b)
    } else {
        proof {
            lemma_low_byte(a);
            lemma_low_byte(b);
        }
        map_u16_u8(add_with_flags_8(a as u8, b as u8))
    }
}

} // verus!
