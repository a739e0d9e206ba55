//! Making keys and checking their checksum.
//!
//! A key in plain form is the seed in eight hexadecimal digits, two digits
//! for each obfuscated byte, and the four digits of the checksum over all
//! that precedes them. For display a dash is put after every fourth
//! character.

use vstd::prelude::*;
use crate::checksum::{checksum_of, checksum_text};
use crate::hex::{hex_padded, push_hex};
use crate::text::{chars_of, normalize_key, normalized, string_of};
use crate::transform::{key_byte_text, push_key_byte, shift_ok};

verus! {

/// What the seed field of a key holds of the seed: its low 32 bits. For a
/// seed from 0 to `2^32 - 1` that is the seed itself.
pub open spec fn seed_low(seed: i64) -> nat {
    (seed % 0x1_0000_0000) as nat
}

/// The seed as it opens a key: the eight uppercase hexadecimal digits of its
/// low 32 bits, with zeros in front where the number is small.
pub open spec fn seed_text(seed: i64) -> Seq<char> {
    hex_padded(seed_low(seed), 8)
}

/// The obfuscated bytes for the given parameters, two digits each, in the
/// order of the parameters.
pub open spec fn byte_fields(seed: i64, shifts: Seq<(i16, i16, i16)>) -> Seq<char>
    decreases shifts.len(),
{
    if shifts.len() == 0 {
        Seq::empty()
    } else {
        byte_fields(seed, shifts.drop_last()) + key_byte_text(seed, shifts.last())
    }
}

/// What the checksum of a key covers: the seed and the obfuscated bytes.
pub open spec fn key_body(seed: i64, shifts: Seq<(i16, i16, i16)>) -> Seq<char> {
    seed_text(seed) + byte_fields(seed, shifts)
}

/// The key in plain form: the body and its checksum.
pub open spec fn plain_key(seed: i64, shifts: Seq<(i16, i16, i16)>) -> Seq<char> {
    key_body(seed, shifts) + checksum_text(key_body(seed, shifts))
}

/// `s` in groups of four characters with a dash between neighbouring groups.
/// The last group is shorter where the length is no multiple of four.
pub open spec fn grouped(s: Seq<char>) -> Seq<char>
    decreases s.len(),
{
    if s.len() <= 4 {
        s
    } else {
        s.take(4) + seq!['-'] + grouped(s.skip(4))
    }
}

/// The first `num_bytes` parameter triples: those that a key is made from.
pub open spec fn used_shifts(shifts: Seq<(i16, i16, i16)>, num_bytes: int) -> Seq<
    (i16, i16, i16),
> {
    shifts.take(if num_bytes < 0 { 0 } else { num_bytes })
}

/// The key for `seed` in display form.
pub open spec fn key_text(seed: i64, num_bytes: int, shifts: Seq<(i16, i16, i16)>) -> Seq<char> {
    grouped(plain_key(seed, used_shifts(shifts, num_bytes)))
}

/// There is a parameter triple for each of the `num_bytes` bytes, and none of
/// those has a negative shift amount.
pub open spec fn shifts_fit(shifts: Seq<(i16, i16, i16)>, num_bytes: int) -> bool {
    &&& num_bytes <= shifts.len()
    &&& forall|i: int| 0 <= i < num_bytes ==> shift_ok(#[trigger] shifts[i])
}

/// A key in normal form has the length that `num_bytes` asks for, and its
/// last four characters are the checksum of all that precedes them.
pub open spec fn checksum_holds(key: Seq<char>, num_bytes: int) -> bool {
    &&& key.len() == 12 + 2 * num_bytes
    &&& key.len() >= 4
    &&& key.skip(key.len() - 4) == checksum_text(key.take(key.len() - 4))
}

/// Tests whether keys with `num_bytes` bytes can be made and verified with
/// the given parameter triples.
pub fn shifts_usable(byte_shifts: &Vec<(i16, i16, i16)>, num_bytes: i8) -> (ok: bool)
    ensures
        ok == shifts_fit(byte_shifts@, num_bytes as int),
{
    if num_bytes <= 0 {
        return true;
    }
    let count: usize = num_bytes as usize;
    if count > byte_shifts.len() {
        return false;
    }
    let mut i: usize = 0;
    while i < count
        invariant
            i <= count <= byte_shifts.len(),
            count == num_bytes,
            forall|j: int| 0 <= j < i ==> shift_ok(#[trigger] byte_shifts@[j]),
        decreases count - i,
    {
        if byte_shifts[i].0 < 0 || byte_shifts[i].1 < 0 {
            return false;
        }
        i = i + 1;
    }
    true
}

/// The low 32 bits of the seed.
fn seed_low_bits(seed: i64) -> (bits: u64)
    ensures
        bits == seed_low(seed),
{
    let low: i64 = seed & 0xFFFF_FFFF;
    assert(low == seed % 0x1_0000_0000 && 0 <= low) by (bit_vector)
        requires
            low == seed & 0xFFFF_FFFF,
    ;
    low as u64
}

/// Puts a dash after every fourth character but the last.
fn group_by_four(plain: &Vec<char>) -> (shown: Vec<char>)
    ensures
        shown@ == grouped(plain@),
{
    let mut shown: Vec<char> = Vec::new();
    let mut i: usize = 0;
    proof {
        assert(plain@.skip(0) =~= plain@);
    }
    while plain.len() - i > 4
        invariant
            i <= plain.len(),
            grouped(plain@) == shown@ + grouped(plain@.skip(i as int)),
        decreases plain.len() - i,
    {
        let ghost rest = plain@.skip(i as int);
        shown.push(plain[i]);
        shown.push(plain[i + 1]);
        shown.push(plain[i + 2]);
        shown.push(plain[i + 3]);
        shown.push('-');
        proof {
            assert(rest.skip(4) =~= plain@.skip(i + 4));
        }
        i = i + 4;
    }
    while i < plain.len()
        invariant
            i <= plain.len(),
            plain.len() - i <= 4,
            grouped(plain@) == shown@ + plain@.skip(i as int),
        decreases plain.len() - i,
    {
        shown.push(plain[i]);
        i = i + 1;
    }
    shown
}

/// Makes the key for `seed`: the low 32 bits of the seed in eight
/// hexadecimal digits, the obfuscated byte for each of the first `num_bytes`
/// parameter triples, the checksum of all that, and a dash after every fourth
/// character.
pub fn make_key(seed: &i64, num_bytes: &i8, byte_shifts: &Vec<(i16, i16, i16)>) -> (key: String)
    requires
        shifts_fit(byte_shifts@, *num_bytes as int),
    ensures
        key@ == key_text(*seed, *num_bytes as int, byte_shifts@),
{
    let count: usize = if *num_bytes < 0 {
        0
    } else {
        *num_bytes as usize
    };
    let mut plain: Vec<char> = Vec::new();
    push_hex(&mut plain, seed_low_bits(*seed), 8);
    let mut i: usize = 0;
    while i < count
        invariant
            i <= count <= byte_shifts.len(),
            count == (if *num_bytes < 0 { 0 } else { *num_bytes as int }),
            shifts_fit(byte_shifts@, *num_bytes as int),
            plain@ == key_body(*seed, byte_shifts@.take(i as int)),
        decreases count - i,
    {
        push_key_byte(&mut plain, *seed, byte_shifts[i]);
        proof {
            assert(byte_shifts@.take(i + 1).drop_last() =~= byte_shifts@.take(i as int));
        }
        i = i + 1;
    }
    let sum = checksum_of(&plain, plain.len());
    proof {
        assert(plain@.take(plain.len() as int) =~= plain@);
    }
    push_hex(&mut plain, sum as u64, 4);
    let shown = group_by_four(&plain);
    string_of(&shown)
}

/// The checksum test on a key that is already in normal form.
pub fn checksum_matches(key: &Vec<char>, num_bytes: i8) -> (ok: bool)
    ensures
        ok == checksum_holds(key@, num_bytes as int),
{
    let wanted: i32 = 12 + 2 * (num_bytes as i32);
    if wanted < 4 || key.len() > 266 || key.len() as i32 != wanted {
        return false;
    }
    let body_len: usize = key.len() - 4;
    let sum = checksum_of(key, body_len);
    let mut digits: Vec<char> = Vec::new();
    push_hex(&mut digits, sum as u64, 4);
    proof {
        crate::checksum::lemma_checksum_text_shape(key@.take(body_len as int));
    }
    let ok = digits[0] == key[body_len] && digits[1] == key[body_len + 1] && digits[2] == key[
        body_len + 2] && digits[3] == key[body_len + 3];
    proof {
        if ok {
            assert(key@.skip(key.len() - 4) =~= digits@);
        }
    }
    ok
}

/// Tests the checksum of a key as it was typed: in normal form the key must
/// have `12 + 2 * num_bytes` characters, the last four of which are the
/// checksum of the others.
pub fn check_key_checksum(key: &str, num_bytes: &i8) -> (ok: bool)
    ensures
        ok == checksum_holds(normalized(key@), *num_bytes as int),
{
    let normal = normalize_key(key);
    let chars = chars_of(normal.as_str());
    checksum_matches(&chars, *num_bytes)
}

} // verus!
