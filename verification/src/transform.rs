//! The byte transform: one obfuscated byte from the seed and a triple of
//! shift parameters.

use vstd::prelude::*;
use crate::hex::{
    all_upper_hex, hex_padded, lemma_hex_padded_shape, lemma_sixteen_to_values, push_hex,
};
use crate::text::string_of;

verus! {

/// The obfuscated byte that the parameters `(a, b, c)` derive from `seed`.
///
/// The seed is shifted right by `a mod 25` and by `b mod 3`, keeping its sign.
/// The low byte of the first shift is combined by exclusive or with the second
/// shift, which was first joined with `c` by "or" where `a mod 25` is even and
/// by "and" where it is odd. The low byte of that is the result.
pub open spec fn key_byte(seed: i64, a: i16, b: i16, c: i16) -> i64 {
    let a_shift = (a % 25) as u32;
    let b_shift = (b % 3) as u32;
    let low = (seed >> a_shift) & 0xFF;
    let mixed = if a_shift % 2 == 0 {
        (seed >> b_shift) | (c as i64)
    } else {
        (seed >> b_shift) & (c as i64)
    };
    (low ^ mixed) & 0xFF
}

/// The two hexadecimal digits that stand for the obfuscated byte in a key.
pub open spec fn key_byte_text(seed: i64, shift: (i16, i16, i16)) -> Seq<char> {
    hex_padded(key_byte(seed, shift.0, shift.1, shift.2) as nat, 2)
}

/// The shift amounts of a parameter triple must not be negative.
pub open spec fn shift_ok(shift: (i16, i16, i16)) -> bool {
    shift.0 >= 0 && shift.1 >= 0
}

/// An obfuscated byte is a byte, and its text is two uppercase hexadecimal
/// digits.
pub proof fn lemma_key_byte_shape(seed: i64, shift: (i16, i16, i16))
    ensures
        0 <= key_byte(seed, shift.0, shift.1, shift.2) <= 255,
        key_byte_text(seed, shift).len() == 2,
        all_upper_hex(key_byte_text(seed, shift)),
{
    let a_shift = (shift.0 % 25) as u32;
    let b_shift = (shift.1 % 3) as u32;
    let low = (seed >> a_shift) & 0xFF;
    let mixed = if a_shift % 2 == 0 {
        (seed >> b_shift) | (shift.2 as i64)
    } else {
        (seed >> b_shift) & (shift.2 as i64)
    };
    let byte = (low ^ mixed) & 0xFF;
    assert(0 <= byte <= 255) by (bit_vector)
        requires
            byte == (low ^ mixed) & 0xFF,
    ;
    lemma_sixteen_to_values();
    lemma_hex_padded_shape(byte as nat, 2);
}

/// The transform reads the low 32 bits of the seed only: a seed and its low
/// 32 bits give the same byte.
pub proof fn lemma_key_byte_reads_low_bits(seed: i64, shift: (i16, i16, i16))
    ensures
        key_byte(seed, shift.0, shift.1, shift.2) == key_byte(
            (seed % 0x1_0000_0000) as i64,
            shift.0,
            shift.1,
            shift.2,
        ),
        key_byte_text(seed, shift) == key_byte_text((seed % 0x1_0000_0000) as i64, shift),
{
    let a_shift = (shift.0 % 25) as u32;
    let b_shift = (shift.1 % 3) as u32;
    let wide = shift.2 as i64;
    let low = seed & 0xFFFF_FFFF;
    assert(low == seed % 0x1_0000_0000) by (bit_vector)
        requires
            low == seed & 0xFFFF_FFFF,
    ;
    assert((((seed >> a_shift) & 0xFF) ^ ((seed >> b_shift) | wide)) & 0xFF == (((low >> a_shift)
        & 0xFF) ^ ((low >> b_shift) | wide)) & 0xFF) by (bit_vector)
        requires
            a_shift < 25,
            b_shift < 3,
            low == seed & 0xFFFF_FFFF,
    ;
    assert((((seed >> a_shift) & 0xFF) ^ ((seed >> b_shift) & wide)) & 0xFF == (((low >> a_shift)
        & 0xFF) ^ ((low >> b_shift) & wide)) & 0xFF) by (bit_vector)
        requires
            a_shift < 25,
            b_shift < 3,
            low == seed & 0xFFFF_FFFF,
    ;
}

/// Computes the obfuscated byte for one parameter triple.
pub fn key_byte_value(seed: i64, a: i16, b: i16, c: i16) -> (byte: u8)
    requires
        a >= 0,
        b >= 0,
    ensures
        byte == key_byte(seed, a, b, c),
{
    let a_shift: u32 = (a % 25) as u32;
    let b_shift: u32 = (b % 3) as u32;
    let wide: i64 = c as i64;
    let low: i64 = (seed >> a_shift) & 0xFF;
    let mixed: i64 = if a_shift % 2 == 0 {
        (seed >> b_shift) | wide
    } else {
        (seed >> b_shift) & wide
    };
    let byte: i64 = (low ^ mixed) & 0xFF;
    assert(0 <= byte <= 255) by (bit_vector)
        requires
            byte == (low ^ mixed) & 0xFF,
    ;
    byte as u8
}

/// Appends the two hexadecimal digits of the obfuscated byte to `out`.
pub fn push_key_byte(out: &mut Vec<char>, seed: i64, shift: (i16, i16, i16))
    requires
        shift_ok(shift),
    ensures
        final(out)@ == old(out)@ + key_byte_text(seed, shift),
{
    let byte = key_byte_value(seed, shift.0, shift.1, shift.2);
    push_hex(out, byte as u64, 2);
}

/// The obfuscated byte for the parameters `(a, b, c)`, as two uppercase
/// hexadecimal digits.
pub fn get_key_byte(seed: &i64, a: i16, b: i16, c: i16) -> (text: String)
    requires
        a >= 0,
        b >= 0,
    ensures
        text@ == key_byte_text(*seed, (a, b, c)),
{
    let mut digits: Vec<char> = Vec::new();
    push_key_byte(&mut digits, *seed, (a, b, c));
    string_of(&digits)
}

} // verus!
