//! What is left to chance: numbers, characters, and the positions that one
//! verification looks at.

use rand::Rng;
use vstd::prelude::*;

verus! {

/// `Rng::gen_range` of the rand crate, called on the generator that
/// `rand::thread_rng` hands out for the calling thread. For integers it
/// returns a number that is at least `low` and below `high`; which one is left
/// to chance. It panics where `low` is not below `high`, so that is required.
#[verifier::external_body]
pub(crate) fn random_in_range(low: usize, high: usize) -> (picked: usize)
    requires
        low < high,
    ensures
        low <= picked < high,
{
    rand::thread_rng().gen_range(low, high)
}

/// `rand::Rng::gen_ascii_chars` of the rand crate, called on the generator of
/// the calling thread: its iterator never ends, and each item is one of the
/// characters `A` to `Z`, `a` to `z` and `0` to `9`.
#[verifier::external_body]
fn random_ascii_char() -> (picked: Option<char>)
    ensures
        picked is Some,
        picked matches Some(c) ==> is_letter_or_digit(c),
{
    rand::thread_rng().gen_ascii_chars().next()
}

/// One of the characters `A` to `Z`, `a` to `z` and `0` to `9`.
pub open spec fn is_letter_or_digit(c: char) -> bool {
    ('A' <= c && c <= 'Z') || ('a' <= c && c <= 'z') || ('0' <= c && c <= '9')
}

/// Every character of `s` is a letter or a digit.
pub open spec fn all_letters_or_digits(s: Seq<char>) -> bool {
    forall|i: int| 0 <= i < s.len() ==> is_letter_or_digit(#[trigger] s[i])
}

/// The positions are all below `bound`, and none occurs twice.
pub open spec fn distinct_below(positions: Seq<usize>, bound: int) -> bool {
    &&& positions.no_duplicates()
    &&& forall|j: int| 0 <= j < positions.len() ==> (#[trigger] positions[j]) < bound
}

/// A string of `len` letters and digits, each left to chance.
pub fn random_text(len: usize) -> (text: String)
    ensures
        text@.len() == len,
        all_letters_or_digits(text@),
{
    let mut text = String::new();
    let mut i: usize = 0;
    while i < len
        invariant
            i <= len,
            text@.len() == i,
            all_letters_or_digits(text@),
        decreases len - i,
    {
        match random_ascii_char() {
            Some(c) => {
                text.push(c);
            },
            None => {},
        }
        i = i + 1;
    }
    text
}

/// Draws `count` different positions below `bound`. Each draw picks among the
/// positions not drawn before, all with the same chance, so the loop ends
/// after `count` draws whatever the generator returns.
pub fn draw_positions(count: usize, bound: usize) -> (positions: Vec<usize>)
    requires
        count <= bound,
    ensures
        positions.len() == count,
        distinct_below(positions@, bound as int),
{
    let mut left: Vec<usize> = Vec::new();
    let mut next: usize = 0;
    while next < bound
        invariant
            next <= bound,
            left.len() == next,
            forall|j: int| 0 <= j < left.len() ==> (#[trigger] left@[j]) == j,
        decreases bound - next,
    {
        left.push(next);
        next = next + 1;
    }
    let mut positions: Vec<usize> = Vec::new();
    while positions.len() < count
        invariant
            count <= bound,
            positions.len() <= count,
            left.len() + positions.len() == bound,
            distinct_below(left@, bound as int),
            distinct_below(positions@, bound as int),
            forall|j: int, k: int|
                0 <= j < positions.len() && 0 <= k < left.len() ==> (#[trigger] positions@[j])
                    != (#[trigger] left@[k]),
        decreases count - positions.len(),
    {
        let at = random_in_range(0, left.len());
        let position = left.remove(at);
        positions.push(position);
    }
    positions
}

} // verus!
