//! The pattern that the seed field of a key is held against.

use vstd::prelude::*;
use crate::hex::{all_upper_hex, is_upper_hex};

verus! {

/// From `start` on, `text` holds `count` characters that are each a digit or
/// one of the letters `A` to `F`.
pub open spec fn hex_run_at(text: Seq<char>, start: int, count: int) -> bool {
    &&& 0 <= start
    &&& start + count <= text.len()
    &&& forall|j: int| start <= j < start + count ==> is_upper_hex(#[trigger] text[j])
}

/// Somewhere in `text` stand `count` such characters in a row.
pub open spec fn has_hex_run(text: Seq<char>, count: int) -> bool {
    exists|start: int| hex_run_at(text, start, count)
}

/// The pattern for eight uppercase hexadecimal digits in a row, character by
/// character: `[A-F0-9]{8}`.
pub open spec fn seed_pattern() -> Seq<char> {
    seq!['[', 'A', '-', 'F', '0', '-', '9', ']', '{', '8', '}']
}

/// `Regex::new` of the regex crate compiles the pattern, and `Regex::is_match`
/// says whether the pattern matches anywhere in the text; `None` stands for a
/// pattern that does not compile. For the pattern `[A-F0-9]{8}`, which does
/// compile, the syntax of the crate gives the meaning: a character class of
/// the range `A` to `F` and the range `0` to `9`, repeated exactly eight
/// times. Nothing is claimed of any other pattern.
#[verifier::external_body]
fn pattern_found(pattern: &str, text: &str) -> (found: Option<bool>)
    ensures
        pattern@ == seed_pattern() ==> found == Some(has_hex_run(text@, 8)),
{
    match regex::Regex::new(pattern) {
        Ok(compiled) => Some(compiled.is_match(text)),
        Err(_) => None,
    }
}

/// In a text of eight characters a run of eight is the whole text.
pub proof fn lemma_hex_run_of_whole(text: Seq<char>)
    requires
        text.len() == 8,
    ensures
        has_hex_run(text, 8) == all_upper_hex(text),
{
    if all_upper_hex(text) {
        assert(hex_run_at(text, 0, 8));
    }
}

/// Whether the text holds eight uppercase hexadecimal digits in a row. For a
/// text of eight characters, such as the seed field of a key, that is to be
/// made of such digits only.
pub fn holds_seed_digits(text: &str) -> (found: bool)
    ensures
        found == has_hex_run(text@, 8),
        text@.len() == 8 ==> found == all_upper_hex(text@),
{
    let pattern = "[A-F0-9]{8}";
    proof {
        reveal_strlit("[A-F0-9]{8}");
        assert(pattern@ =~= seed_pattern());
        if text@.len() == 8 {
            lemma_hex_run_of_whole(text@);
        }
    }
    match pattern_found(pattern, text) {
        Some(found) => found,
        None => false,
    }
}

} // verus!
