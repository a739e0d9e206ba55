//! The rolling checksum that closes a key. It catches typing mistakes; it is
//! no protection against forgery.

use vstd::prelude::*;
use crate::hex::{
    all_upper_hex, hex_padded, lemma_hex_padded_shape, lemma_sixteen_to_values, push_hex,
};
use crate::text::{chars_of, string_of};

verus! {

/// A sum above `0xFF` is brought down by `0xFF`, once.
pub open spec fn fold_byte(x: int) -> int {
    if x > 0xFF {
        x - 0xFF
    } else {
        x
    }
}

/// The two halves of the checksum before any character was read: `(left,
/// right)`.
pub open spec fn checksum_start() -> (int, int) {
    (0x56, 0xAF)
}

/// One character enters the checksum: its code is added to the right half,
/// which is folded; the right half is then added to the left half, which is
/// folded. Both halves are 16 bits wide, so each sum is taken modulo `2^16`.
pub open spec fn checksum_step(state: (int, int), c: char) -> (int, int) {
    let right = fold_byte((state.1 + c as int) % 0x1_0000);
    let left = fold_byte((state.0 + right) % 0x1_0000);
    (left, right)
}

/// The two halves after the characters of `s` were read in order, starting
/// from `state`.
pub open spec fn checksum_run(state: (int, int), s: Seq<char>) -> (int, int)
    decreases s.len(),
{
    if s.len() == 0 {
        state
    } else {
        checksum_step(checksum_run(state, s.drop_last()), s.last())
    }
}

/// The two halves after the characters of `s` were read in order.
pub open spec fn checksum_state(s: Seq<char>) -> (int, int) {
    checksum_run(checksum_start(), s)
}

/// The checksum of `s`: the left half moved up by eight bits, plus the right
/// half, in 16 bits.
pub open spec fn checksum_value(s: Seq<char>) -> int {
    let state = checksum_state(s);
    ((state.0 * 0x100) % 0x1_0000 + state.1) % 0x1_0000
}

/// The checksum of `s` as it stands in a key: four uppercase hexadecimal
/// digits.
pub open spec fn checksum_text(s: Seq<char>) -> Seq<char> {
    hex_padded(checksum_value(s) as nat, 4)
}

/// Every character code of `s` fits one byte.
pub open spec fn single_byte_codes(s: Seq<char>) -> bool {
    forall|i: int| 0 <= i < s.len() ==> (#[trigger] s[i]) as int <= 0xFF
}

/// The checksum text is exactly four uppercase hexadecimal digits.
pub proof fn lemma_checksum_text_shape(s: Seq<char>)
    ensures
        0 <= checksum_value(s) < 0x1_0000,
        checksum_text(s).len() == 4,
        all_upper_hex(checksum_text(s)),
{
    lemma_sixteen_to_values();
    lemma_hex_padded_shape(checksum_value(s) as nat, 4);
}

/// The state after one more character.
fn step(left: u32, right: u32, c: char) -> (next: (u32, u32))
    requires
        left < 0x1_0000,
        right < 0x1_0000,
    ensures
        (next.0 as int, next.1 as int) == checksum_step((left as int, right as int), c),
        next.0 < 0x1_0000,
        next.1 < 0x1_0000,
{
    let code: u32 = c as u32;
    let mut r: u32 = (right + code) % 0x1_0000;
    if r > 0xFF {
        r = r - 0xFF;
    }
    let mut l: u32 = (left + r) % 0x1_0000;
    if l > 0xFF {
        l = l - 0xFF;
    }
    (l, r)
}

/// Computes the checksum of a run of characters.
pub fn checksum_of(chars: &Vec<char>, len: usize) -> (sum: u32)
    requires
        len <= chars.len(),
    ensures
        sum == checksum_value(chars@.take(len as int)),
        sum < 0x1_0000,
{
    let mut left: u32 = 0x56;
    let mut right: u32 = 0xAF;
    let mut i: usize = 0;
    while i < len
        invariant
            i <= len <= chars.len(),
            left < 0x1_0000,
            right < 0x1_0000,
            (left as int, right as int) == checksum_state(chars@.take(i as int)),
        decreases len - i,
    {
        proof {
            assert(chars@.take(i + 1).drop_last() =~= chars@.take(i as int));
        }
        let next = step(left, right, chars[i]);
        left = next.0;
        right = next.1;
        i = i + 1;
    }
    ((left * 0x100) % 0x1_0000 + right) % 0x1_0000
}

/// The checksum of `s`, as four uppercase hexadecimal digits.
pub fn get_checksum(s: &str) -> (text: String)
    ensures
        text@ == checksum_text(s@),
{
    let chars = chars_of(s);
    let sum = checksum_of(&chars, chars.len());
    proof {
        assert(chars@.take(chars.len() as int) =~= chars@);
    }
    let mut digits: Vec<char> = Vec::new();
    push_hex(&mut digits, sum as u64, 4);
    string_of(&digits)
}

} // verus!
