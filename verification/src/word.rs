//! Arithmetic on 32-bit machine words, stated over the integers.

use vstd::prelude::*;

verus! {

/// The word that stands for the integer `v`: `v` modulo 2^32.  For a
/// negative `v` this is its two's-complement encoding.
///
/// The definition is opaque, so that a proof about the machine does not
/// reason about division unless it asks to: `reveal(wrap)` brings the
/// definition in.
#[verifier::opaque]
pub open spec fn wrap(v: int) -> u32 {
    (v % 0x1_0000_0000) as u32
}

/// The integer that the word `w` stands for when it is read as a
/// two's-complement number.
pub open spec fn signed(w: u32) -> int {
    if w < 0x8000_0000 {
        w as int
    } else {
        w as int - 0x1_0000_0000
    }
}

/// A byte widened to a word by repeating its top bit.
pub open spec fn sign_extend_byte(b: u8) -> u32 {
    if b < 0x80 {
        b as u32
    } else {
        (b + 0xffff_ff00) as u32
    }
}

/// A halfword widened to a word by repeating its top bit.
pub open spec fn sign_extend_half(h: u16) -> u32 {
    if h < 0x8000 {
        h as u32
    } else {
        (h + 0xffff_0000) as u32
    }
}

/// `a` shifted right by `n` places with copies of its sign bit moved in:
/// the floor of `signed(a) / 2^n`, as a word.
pub open spec fn shift_right_arithmetic(a: u32, n: u32) -> u32 {
    ((a as i32) >> n) as u32
}

/// 1 if `a` is below `b` as two's-complement numbers, else 0.
pub open spec fn set_less_than(a: u32, b: u32) -> u32 {
    if signed(a) < signed(b) {
        1
    } else {
        0
    }
}

/// 1 if `a` is below `b` as unsigned numbers, else 0.
pub open spec fn set_less_than_unsigned(a: u32, b: u32) -> u32 {
    if a < b {
        1
    } else {
        0
    }
}

/// Byte `k` of a word, byte 0 being the lowest.
pub open spec fn byte_of(value: u32, k: int) -> u8 {
    if k == 0 {
        (value % 0x100) as u8
    } else if k == 1 {
        (value / 0x100 % 0x100) as u8
    } else if k == 2 {
        (value / 0x1_0000 % 0x100) as u8
    } else {
        (value / 0x100_0000 % 0x100) as u8
    }
}

/// Wrapping keeps parity: 2^32 is even.
pub proof fn lemma_wrap_parity(v: int)
    ensures
        wrap(v) % 2 == v % 2,
{
    reveal(wrap);
    vstd::arithmetic::div_mod::lemma_mod_mod(v, 2, 0x8000_0000);
    assert(2 * 0x8000_0000 == 0x1_0000_0000) by (nonlinear_arith);
}

/// The two's-complement reading of a word is the word reinterpreted as a
/// signed 32-bit number, and `wrap` undoes it.
pub proof fn lemma_signed_is_reinterpretation(w: u32)
    ensures
        signed(w) == (w as i32) as int,
        wrap(signed(w)) == w,
        -0x8000_0000 <= signed(w) < 0x8000_0000,
{
    reveal(wrap);
    assert((w as i32) as int == (if w < 0x8000_0000u32 {
        w as int
    } else {
        w as int - 0x1_0000_0000
    })) by (bit_vector);
}

/// Signed and unsigned comparison: `set_less_than` is 1 exactly if `a` is
/// below `b` as signed 32-bit numbers, `set_less_than_unsigned` exactly if
/// `a` is below `b` as unsigned ones.  Either is 0 otherwise.
pub proof fn lemma_set_less_than(a: u32, b: u32)
    ensures
        set_less_than(a, b) == 1 <==> (a as i32) < (b as i32),
        set_less_than(a, b) == 0 <==> (a as i32) >= (b as i32),
        set_less_than_unsigned(a, b) == 1 <==> a < b,
        set_less_than_unsigned(a, b) == 0 <==> a >= b,
{
    lemma_signed_is_reinterpretation(a);
    lemma_signed_is_reinterpretation(b);
}

/// A signed load repeats the top bit of what it loads: the word it gives
/// stands for the same number as the byte or halfword does when that is
/// read as a two's-complement number.
pub proof fn lemma_sign_extension(b: u8, h: u16)
    ensures
        signed(sign_extend_byte(b)) == (b as i8) as int,
        signed(sign_extend_half(h)) == (h as i16) as int,
        sign_extend_byte(b) % 0x100 == b,
        sign_extend_half(h) % 0x1_0000 == h,
{
    assert((b as i8) as int == (if b < 0x80u8 {
        b as int
    } else {
        b as int - 0x100
    })) by (bit_vector);
    assert((h as i16) as int == (if h < 0x8000u16 {
        h as int
    } else {
        h as int - 0x1_0000
    })) by (bit_vector);
}

/// An arithmetic right shift divides the number that the word stands for by
/// 2^n and rounds down: the quotient `q` it gives is the one with
/// `q * 2^n <= signed(a) < (q + 1) * 2^n`.  So the sign is kept.
pub proof fn lemma_shift_right_arithmetic(a: u32, n: u32)
    requires
        n < 32,
    ensures
        ({
            let q = signed(shift_right_arithmetic(a, n));
            let p = (1u64 << n) as int;
            q * p <= signed(a) < (q + 1) * p
        }),
        signed(a) < 0 ==> signed(shift_right_arithmetic(a, n)) < 0,
        signed(a) >= 0 ==> shift_right_arithmetic(a, n) == a >> n,
{
    let r = shift_right_arithmetic(a, n);
    lemma_signed_is_reinterpretation(a);
    lemma_signed_is_reinterpretation(r);
    assert((r as i32) as int * (1u64 << n) as int <= (a as i32) as int && ((a as i32) as int) < ((
    r as i32) as int + 1) * (1u64 << n) as int) by (bit_vector)
        requires
            n < 32,
            r == ((a as i32) >> n) as u32,
    ;
    assert(a >= 0x8000_0000u32 ==> r >= 0x8000_0000u32) by (bit_vector)
        requires
            n < 32,
            r == ((a as i32) >> n) as u32,
    ;
    assert(a < 0x8000_0000u32 ==> r == a >> n) by (bit_vector)
        requires
            n < 32,
            r == ((a as i32) >> n) as u32,
    ;
}

/// The two's-complement reading of a word.
pub fn to_signed(w: u32) -> (v: i32)
    ensures
        v == signed(w),
{
    let v: i32 = w as i32;
    assert(v as int == (if w < 0x8000_0000u32 { w as int } else { w as int - 0x1_0000_0000 }))
        by (bit_vector)
        requires
            v == w as i32,
    ;
    v
}

/// The word that encodes a 32-bit signed number.
pub fn from_signed(v: i32) -> (w: u32)
    ensures
        w == wrap(v as int),
        signed(w) == v,
{
    let w: u32 = v as u32;
    proof {
        reveal(wrap);
    }
    assert(w as int == (if v >= 0 { v as int } else { v as int + 0x1_0000_0000 })) by (bit_vector)
        requires
            w == v as u32,
    ;
    w
}

/// The word that encodes a 16-bit signed immediate, sign-extended.
pub fn immediate_word(imm: i16) -> (w: u32)
    ensures
        w == wrap(imm as int),
        signed(w) == imm,
{
    from_signed(imm as i32)
}

/// `base + offset` modulo 2^32.
pub fn offset_address(base: u32, offset: i32) -> (addr: u32)
    ensures
        addr == wrap(base + offset),
{
    proof {
        reveal(wrap);
    }
    base.wrapping_add(from_signed(offset))
}

/// `a + b` modulo 2^32.
pub fn wrapping_sum(a: u32, b: u32) -> (r: u32)
    ensures
        r == wrap(a + b),
{
    proof {
        reveal(wrap);
    }
    a.wrapping_add(b)
}

/// `a - b` modulo 2^32.
pub fn wrapping_difference(a: u32, b: u32) -> (r: u32)
    ensures
        r == wrap(a - b),
{
    proof {
        reveal(wrap);
    }
    a.wrapping_sub(b)
}

/// Widens a loaded byte to a word, repeating its top bit.
pub fn extend_byte(b: u8) -> (w: u32)
    ensures
        w == sign_extend_byte(b),
        signed(w) == (if b < 0x80 { b as int } else { b - 0x100 }),
{
    let mut value: u32 = b as u32;
    if value & 0x80 != 0 {
        value |= 0xffffff00;
    }
    assert(value == (if b < 0x80u8 { b as u32 } else { (b as u32 + 0xffff_ff00u32) as u32 }))
        by (bit_vector)
        requires
            value == (if (b as u32) & 0x80 != 0 { (b as u32) | 0xffffff00u32 } else { b as u32 }),
    ;
    value
}

/// Widens a loaded halfword to a word, repeating its top bit.
pub fn extend_half(h: u16) -> (w: u32)
    ensures
        w == sign_extend_half(h),
        signed(w) == (if h < 0x8000 { h as int } else { h - 0x1_0000 }),
{
    let mut value: u32 = h as u32;
    if value & 0x8000 != 0 {
        value |= 0xffff0000;
    }
    assert(value == (if h < 0x8000u16 { h as u32 } else { (h as u32 + 0xffff_0000u32) as u32 }))
        by (bit_vector)
        requires
            value == (if (h as u32) & 0x8000 != 0 { (h as u32) | 0xffff0000u32 } else { h as u32 }),
    ;
    value
}

/// Shifts `a` right by `n` places, keeping its sign.
pub fn arithmetic_shift(a: u32, n: u32) -> (r: u32)
    requires
        n < 32,
    ensures
        r == shift_right_arithmetic(a, n),
{
    ((a as i32) >> n) as u32
}

/// The signed comparison of two words, as the word 0 or 1.
pub fn less_than(a: u32, b: u32) -> (r: u32)
    ensures
        r == set_less_than(a, b),
{
    if to_signed(a) < to_signed(b) {
        1
    } else {
        0
    }
}

/// The unsigned comparison of two words, as the word 0 or 1.
pub fn less_than_unsigned(a: u32, b: u32) -> (r: u32)
    ensures
        r == set_less_than_unsigned(a, b),
{
    if a < b {
        1
    } else {
        0
    }
}

/// The number of places that a shift moves: the low five bits of `v`.
pub fn shift_amount(v: u32) -> (n: u32)
    ensures
        n == v % 32,
        n < 32,
{
    let n: u32 = v & 0x1f;
    assert(n == v % 32 && n < 32) by (bit_vector)
        requires
            n == v & 0x1f,
    ;
    n
}

/// `v` with its lowest bit cleared.
pub fn clear_low_bit(v: u32) -> (r: u32)
    ensures
        r == v - v % 2,
        r % 2 == 0,
{
    let r: u32 = v & !1u32;
    assert(r == v - v % 2 && r % 2 == 0) by (bit_vector)
        requires
            r == v & !1u32,
    ;
    r
}

/// The lowest byte of a word.
pub fn low_byte(v: u32) -> (b: u8)
    ensures
        b == (v % 0x100) as u8,
        b == byte_of(v, 0),
{
    let b: u8 = (v & 0xff) as u8;
    assert(b == (v % 0x100) as u8) by (bit_vector)
        requires
            b == (v & 0xff) as u8,
    ;
    b
}

/// The lower half of a word.
pub fn low_half(v: u32) -> (h: u16)
    ensures
        h == (v % 0x1_0000) as u16,
{
    let h: u16 = (v & 0xffff) as u16;
    assert(h == (v % 0x1_0000) as u16) by (bit_vector)
        requires
            h == (v & 0xffff) as u16,
    ;
    h
}

/// Byte `k` of a word, byte 0 being the lowest.
pub fn byte_at(v: u32, k: u32) -> (b: u8)
    requires
        k < 4,
    ensures
        b == byte_of(v, k as int),
{
    let b: u8 = ((v >> (8 * k)) & 0xff) as u8;
    assert(b == (if k == 0 {
        (v % 0x100) as u8
    } else if k == 1 {
        (v / 0x100 % 0x100) as u8
    } else if k == 2 {
        (v / 0x1_0000 % 0x100) as u8
    } else {
        (v / 0x100_0000 % 0x100) as u8
    })) by (bit_vector)
        requires
            k < 4,
            b == ((v >> (8 * k)) & 0xff) as u8,
    ;
    b
}

} // verus!
