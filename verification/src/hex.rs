//! Uppercase hexadecimal text: how numbers are written into a key and read
//! back out of it.

use vstd::prelude::*;

verus! {

/// The digit that stands for `v` in base 16: `0` to `9`, then `A` to `F`.
pub open spec fn hex_digit(v: int) -> char {
    if v < 10 {
        ('0' as int + v) as char
    } else {
        ('A' as int + v - 10) as char
    }
}

/// A character that `hex_digit` can produce.
pub open spec fn is_upper_hex(c: char) -> bool {
    ('0' <= c && c <= '9') || ('A' <= c && c <= 'F')
}

/// The number that an uppercase hexadecimal digit stands for.
pub open spec fn hex_value(c: char) -> int {
    if c <= '9' {
        c as int - '0' as int
    } else {
        c as int - 'A' as int + 10
    }
}

/// Every character of `s` is an uppercase hexadecimal digit.
pub open spec fn all_upper_hex(s: Seq<char>) -> bool {
    forall|i: int| 0 <= i < s.len() ==> is_upper_hex(#[trigger] s[i])
}

/// `v` in base 16, most significant digit first, with zeros in front until
/// there are `width` digits. A number that needs more digits than `width`
/// gets them all; there is always at least one digit.
pub open spec fn hex_padded(v: nat, width: nat) -> Seq<char>
    decreases v, width,
{
    if v < 16 && width <= 1 {
        seq![hex_digit(v as int)]
    } else {
        hex_padded(v / 16, if width == 0 { 0 } else { (width - 1) as nat }).push(
            hex_digit((v % 16) as int),
        )
    }
}

/// The number that a sequence of uppercase hexadecimal digits writes, most
/// significant digit first.
pub open spec fn hex_number(s: Seq<char>) -> nat
    decreases s.len(),
{
    if s.len() == 0 {
        0
    } else {
        (hex_number(s.drop_last()) * 16 + hex_value(s.last())) as nat
    }
}

/// 16 to the power `width`.
pub open spec fn sixteen_to(width: nat) -> nat
    decreases width,
{
    if width == 0 {
        1
    } else {
        16 * sixteen_to((width - 1) as nat)
    }
}

/// The powers of 16 that key fields are measured against.
pub proof fn lemma_sixteen_to_values()
    ensures
        sixteen_to(1) == 0x10,
        sixteen_to(2) == 0x100,
        sixteen_to(4) == 0x1_0000,
        sixteen_to(8) == 0x1_0000_0000,
{
    reveal_with_fuel(sixteen_to, 9);
}

/// Powers of 16 grow with the exponent.
pub proof fn lemma_sixteen_to_monotone(a: nat, b: nat)
    requires
        a <= b,
    ensures
        sixteen_to(a) <= sixteen_to(b),
        sixteen_to(a) >= 1,
    decreases b,
{
    if a < b {
        lemma_sixteen_to_monotone(a, (b - 1) as nat);
    } else if a > 0 {
        lemma_sixteen_to_monotone((a - 1) as nat, (a - 1) as nat);
    }
}

/// Fifteen hexadecimal digits fit a signed 64-bit number.
pub proof fn lemma_sixteen_to_fifteen()
    ensures
        sixteen_to(15) == 0x1000_0000_0000_0000,
{
    reveal_with_fuel(sixteen_to, 16);
}

/// A digit and its value are inverse to each other.
pub proof fn lemma_hex_digit(v: int)
    requires
        0 <= v < 16,
    ensures
        is_upper_hex(hex_digit(v)),
        hex_value(hex_digit(v)) == v,
{
}

/// Padded hexadecimal text has at least `width` digits and at least one, all
/// of them uppercase hexadecimal; a number below `16^width` has exactly
/// `width`.
pub proof fn lemma_hex_padded_shape(v: nat, width: nat)
    ensures
        hex_padded(v, width).len() >= width,
        hex_padded(v, width).len() >= 1,
        all_upper_hex(hex_padded(v, width)),
        width >= 1 && v < sixteen_to(width) ==> hex_padded(v, width).len() == width,
    decreases v, width,
{
    if v < 16 && width <= 1 {
        lemma_hex_digit(v as int);
    } else {
        let shorter: nat = if width == 0 { 0 } else { (width - 1) as nat };
        lemma_hex_padded_shape(v / 16, shorter);
        lemma_hex_digit((v % 16) as int);
        if width >= 1 && v < sixteen_to(width) {
            reveal_with_fuel(sixteen_to, 2);
        }
    }
}

/// Reading padded hexadecimal text gives the number back.
pub proof fn lemma_hex_round_trip(v: nat, width: nat)
    ensures
        hex_number(hex_padded(v, width)) == v,
    decreases v, width,
{
    if v < 16 && width <= 1 {
        let one = seq![hex_digit(v as int)];
        lemma_hex_digit(v as int);
        assert(hex_number(one.drop_last()) == 0);
    } else {
        let shorter: nat = if width == 0 { 0 } else { (width - 1) as nat };
        let front = hex_padded(v / 16, shorter);
        let digit = hex_digit((v % 16) as int);
        lemma_hex_round_trip(v / 16, shorter);
        lemma_hex_digit((v % 16) as int);
        assert(front.push(digit).drop_last() =~= front);
    }
}

/// The digit for a value below sixteen.
pub fn hex_char(v: u8) -> (c: char)
    requires
        v < 16,
    ensures
        c == hex_digit(v as int),
{
    if v < 10 {
        (48u8 + v) as char
    } else {
        (55u8 + v) as char
    }
}

/// The value of an uppercase hexadecimal digit, or `None` for any other
/// character.
pub fn hex_char_value(c: char) -> (v: Option<u8>)
    ensures
        v is Some <==> is_upper_hex(c),
        v matches Some(d) ==> d as int == hex_value(c),
{
    if '0' <= c && c <= '9' {
        Some((c as u32 - 48) as u8)
    } else if 'A' <= c && c <= 'F' {
        Some((c as u32 - 55) as u8)
    } else {
        None
    }
}

/// Appends `value` to `out` in uppercase hexadecimal, padded with zeros to
/// `width` digits.
pub fn push_hex(out: &mut Vec<char>, value: u64, width: usize)
    ensures
        final(out)@ == old(out)@ + hex_padded(value as nat, width as nat),
{
    let mut low_first: Vec<char> = Vec::new();
    let mut v: u64 = value;
    let mut w: usize = width;
    while !(v < 16 && w <= 1)
        invariant
            hex_padded(value as nat, width as nat) == hex_padded(v as nat, w as nat)
                + low_first@.reverse(),
        decreases v + w,
    {
        let digit = hex_char((v % 16) as u8);
        low_first.push(digit);
        v = v / 16;
        if w > 0 {
            w = w - 1;
        }
    }
    out.push(hex_char(v as u8));
    let mut left: usize = low_first.len();
    while left > 0
        invariant
            left <= low_first.len(),
            hex_padded(value as nat, width as nat) == seq![hex_digit(v as int)]
                + low_first@.reverse(),
            out@ == old(out)@ + seq![hex_digit(v as int)] + low_first@.reverse().take(
                low_first.len() - left,
            ),
        decreases left,
    {
        left = left - 1;
        out.push(low_first[left]);
    }
}

/// Reads a field of at most fifteen uppercase hexadecimal digits. `None`
/// where a character is anything else.
pub fn parse_hex(field: &Vec<char>) -> (number: Option<i64>)
    requires
        field.len() <= 15,
    ensures
        number is Some <==> all_upper_hex(field@),
        number matches Some(n) ==> n == hex_number(field@),
{
    let mut total: i64 = 0;
    let mut i: usize = 0;
    while i < field.len()
        invariant
            i <= field.len() <= 15,
            all_upper_hex(field@.take(i as int)),
            total == hex_number(field@.take(i as int)),
            total < sixteen_to(i as nat),
        decreases field.len() - i,
    {
        proof {
            lemma_sixteen_to_monotone(i as nat + 1, 15);
            lemma_sixteen_to_fifteen();
            assert(field@.take(i + 1).drop_last() =~= field@.take(i as int));
        }
        match hex_char_value(field[i]) {
            Some(d) => {
                total = total * 16 + d as i64;
            },
            None => {
                return None;
            },
        }
        i = i + 1;
    }
    proof {
        assert(field@.take(field.len() as int) =~= field@);
    }
    Some(total)
}

} // verus!
