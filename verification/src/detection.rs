//! What the checksum catches: in a text of characters whose codes fit one
//! byte, every change of a single character and every exchange of two
//! neighbours.

use vstd::prelude::*;
use crate::checksum::{
    checksum_run, checksum_start, checksum_state, checksum_step, checksum_text, checksum_value,
    fold_byte, single_byte_codes,
};
use crate::hex::lemma_hex_round_trip;
use crate::keygen::checksum_holds;

verus! {

/// Both halves of the state lie between 1 and `0xFF`.
pub open spec fn halves_in_byte(state: (int, int)) -> bool {
    1 <= state.0 <= 0xFF && 1 <= state.1 <= 0xFF
}

/// The codes of the two characters differ, and not by 255.
pub open spec fn codes_apart(a: char, b: char) -> bool {
    a as int % 255 != b as int % 255
}

/// A character code is never negative.
proof fn lemma_code_not_negative(c: char)
    ensures
        0 <= c as int,
{
}

/// One character whose code fits a byte keeps both halves between 1 and
/// `0xFF`, without any wrap.
proof fn lemma_step_in_byte(state: (int, int), c: char)
    requires
        halves_in_byte(state),
        c as int <= 0xFF,
    ensures
        halves_in_byte(checksum_step(state, c)),
        checksum_step(state, c).1 == fold_byte(state.1 + c as int),
        checksum_step(state, c).0 == fold_byte(state.0 + fold_byte(state.1 + c as int)),
{
    lemma_code_not_negative(c);
}

/// Reading a text in two parts is reading it whole.
pub proof fn lemma_run_concat(state: (int, int), s: Seq<char>, t: Seq<char>)
    ensures
        checksum_run(state, s + t) == checksum_run(checksum_run(state, s), t),
    decreases t.len(),
{
    if t.len() > 0 {
        lemma_run_concat(state, s, t.drop_last());
        assert((s + t).drop_last() =~= s + t.drop_last());
    }
}

/// A text of characters whose codes fit one byte keeps both halves between
/// 1 and `0xFF`.
pub proof fn lemma_run_in_byte(state: (int, int), t: Seq<char>)
    requires
        halves_in_byte(state),
        single_byte_codes(t),
    ensures
        halves_in_byte(checksum_run(state, t)),
    decreases t.len(),
{
    if t.len() > 0 {
        assert(single_byte_codes(t.drop_last()));
        lemma_run_in_byte(state, t.drop_last());
        lemma_step_in_byte(checksum_run(state, t.drop_last()), t.last());
    }
}

/// While a text holds only characters whose code fits one byte, nothing in
/// its checksum wraps: each half stays between 1 and `0xFF`, each step is the
/// plain sum followed by the fold, and the checksum is `left * 256 + right`.
pub proof fn law_checksum_without_wrap(s: Seq<char>)
    requires
        single_byte_codes(s),
    ensures
        halves_in_byte(checksum_state(s)),
        checksum_value(s) == checksum_state(s).0 * 0x100 + checksum_state(s).1,
        s.len() > 0 ==> {
            let before = checksum_state(s.drop_last());
            let right = fold_byte(before.1 + s.last() as int);
            checksum_state(s) == (fold_byte(before.0 + right), right)
        },
{
    lemma_run_in_byte(checksum_start(), s);
    if s.len() > 0 {
        assert(single_byte_codes(s.drop_last()));
        lemma_run_in_byte(checksum_start(), s.drop_last());
        lemma_step_in_byte(checksum_state(s.drop_last()), s.last());
    }
}

/// Two states that differ stay different, whatever text follows: right
/// halves that differ keep differing, and with equal right halves the left
/// halves keep differing.
pub proof fn lemma_run_stays_apart(first: (int, int), second: (int, int), t: Seq<char>)
    requires
        halves_in_byte(first),
        halves_in_byte(second),
        single_byte_codes(t),
    ensures
        first.1 != second.1 ==> checksum_run(first, t).1 != checksum_run(second, t).1,
        first.1 == second.1 ==> checksum_run(first, t).1 == checksum_run(second, t).1,
        first.1 == second.1 && first.0 != second.0 ==> checksum_run(first, t).0 != checksum_run(
            second,
            t,
        ).0,
    decreases t.len(),
{
    if t.len() > 0 {
        assert(single_byte_codes(t.drop_last()));
        lemma_run_stays_apart(first, second, t.drop_last());
        lemma_run_in_byte(first, t.drop_last());
        lemma_run_in_byte(second, t.drop_last());
        lemma_step_in_byte(checksum_run(first, t.drop_last()), t.last());
        lemma_step_in_byte(checksum_run(second, t.drop_last()), t.last());
    }
}

/// Two texts whose states differ, both between 1 and `0xFF`, have different
/// checksums, as numbers and as text.
proof fn lemma_states_apart(s: Seq<char>, t: Seq<char>)
    requires
        halves_in_byte(checksum_state(s)),
        halves_in_byte(checksum_state(t)),
        checksum_state(s) != checksum_state(t),
    ensures
        checksum_value(s) != checksum_value(t),
        checksum_text(s) != checksum_text(t),
{
    lemma_hex_round_trip(checksum_value(s) as nat, 4);
    lemma_hex_round_trip(checksum_value(t) as nat, 4);
}

/// The checksum catches a changed character: two texts of characters whose
/// codes fit one byte, alike but for one character, have different checksums
/// if the codes of the two characters differ, and not by 255.
pub proof fn law_checksum_catches_change(s: Seq<char>, a: char, b: char, t: Seq<char>)
    requires
        single_byte_codes(s),
        single_byte_codes(t),
        a as int <= 0xFF,
        b as int <= 0xFF,
        codes_apart(a, b),
    ensures
        checksum_value(s + seq![a] + t) != checksum_value(s + seq![b] + t),
        checksum_text(s + seq![a] + t) != checksum_text(s + seq![b] + t),
{
    let start = checksum_start();
    let before = checksum_run(start, s);
    lemma_run_in_byte(start, s);
    lemma_code_not_negative(a);
    lemma_code_not_negative(b);
    let with_a = checksum_step(before, a);
    let with_b = checksum_step(before, b);
    lemma_step_in_byte(before, a);
    lemma_step_in_byte(before, b);
    lemma_after_one(start, s, a, t);
    lemma_after_one(start, s, b, t);
    lemma_run_in_byte(with_a, t);
    lemma_run_in_byte(with_b, t);
    lemma_run_stays_apart(with_a, with_b, t);
    lemma_states_apart(s + seq![a] + t, s + seq![b] + t);
}

/// The state after `s`, one character and `t`.
proof fn lemma_after_one(state: (int, int), s: Seq<char>, c: char, t: Seq<char>)
    ensures
        checksum_run(state, s + seq![c] + t) == checksum_run(
            checksum_step(checksum_run(state, s), c),
            t,
        ),
{
    let one = seq![c];
    lemma_run_concat(state, s + one, t);
    assert((s + one).drop_last() =~= s);
}

/// The checksum catches two neighbours that changed places: two texts of
/// characters whose codes fit one byte, alike but for the order of two
/// neighbours, have different checksums if the codes of the two differ, and
/// not by 255.
pub proof fn law_checksum_catches_swap(s: Seq<char>, a: char, b: char, t: Seq<char>)
    requires
        single_byte_codes(s),
        single_byte_codes(t),
        a as int <= 0xFF,
        b as int <= 0xFF,
        codes_apart(a, b),
    ensures
        checksum_value(s + seq![a, b] + t) != checksum_value(s + seq![b, a] + t),
        checksum_text(s + seq![a, b] + t) != checksum_text(s + seq![b, a] + t),
{
    let start = checksum_start();
    let before = checksum_run(start, s);
    lemma_run_in_byte(start, s);
    lemma_code_not_negative(a);
    lemma_code_not_negative(b);
    let with_a = checksum_step(before, a);
    let with_b = checksum_step(before, b);
    lemma_step_in_byte(before, a);
    lemma_step_in_byte(before, b);
    let with_ab = checksum_step(with_a, b);
    let with_ba = checksum_step(with_b, a);
    lemma_step_in_byte(with_a, b);
    lemma_step_in_byte(with_b, a);
    lemma_after_two(start, s, a, b, t);
    lemma_after_two(start, s, b, a, t);
    lemma_run_in_byte(with_ab, t);
    lemma_run_in_byte(with_ba, t);
    lemma_run_stays_apart(with_ab, with_ba, t);
    lemma_states_apart(s + seq![a, b] + t, s + seq![b, a] + t);
}

/// The state after `s`, two characters and `t`.
proof fn lemma_after_two(state: (int, int), s: Seq<char>, c: char, d: char, t: Seq<char>)
    ensures
        checksum_run(state, s + seq![c, d] + t) == checksum_run(
            checksum_step(checksum_step(checksum_run(state, s), c), d),
            t,
        ),
{
    let first = s + seq![c];
    assert(s + seq![c, d] + t =~= first + seq![d] + t);
    lemma_after_one(state, first, d, t);
    assert(first.drop_last() =~= s);
}

/// A key in normal form with the right checksum loses it when one character
/// before the checksum is replaced by another, if the codes of all
/// characters fit one byte and those of the two differ, and not by 255. So
/// it is with every changed digit of the seed or of a byte.
pub proof fn law_changed_body_character(key: Seq<char>, num_bytes: int, i: int, c: char)
    requires
        checksum_holds(key, num_bytes),
        single_byte_codes(key),
        0 <= i < key.len() - 4,
        c as int <= 0xFF,
        codes_apart(key[i], c),
    ensures
        !checksum_holds(key.update(i, c), num_bytes),
{
    let cut = key.len() - 4;
    let s = key.take(i);
    let t = key.subrange(i + 1, cut);
    let changed = key.update(i, c);
    assert(key.take(cut) =~= s + seq![key[i]] + t);
    assert(changed.take(cut) =~= s + seq![c] + t);
    assert(changed.skip(cut) =~= key.skip(cut));
    law_checksum_catches_change(s, key[i], c, t);
}

/// A key in normal form with the right checksum loses it when two
/// neighbours before the checksum change places, if the codes of all
/// characters fit one byte and those of the two differ, and not by 255.
pub proof fn law_swapped_body_characters(key: Seq<char>, num_bytes: int, i: int)
    requires
        checksum_holds(key, num_bytes),
        single_byte_codes(key),
        0 <= i,
        i + 1 < key.len() - 4,
        codes_apart(key[i], key[i + 1]),
    ensures
        !checksum_holds(key.update(i, key[i + 1]).update(i + 1, key[i]), num_bytes),
{
    let cut = key.len() - 4;
    let s = key.take(i);
    let t = key.subrange(i + 2, cut);
    let changed = key.update(i, key[i + 1]).update(i + 1, key[i]);
    assert(key.take(cut) =~= s + seq![key[i], key[i + 1]] + t);
    assert(changed.take(cut) =~= s + seq![key[i + 1], key[i]] + t);
    assert(changed.skip(cut) =~= key.skip(cut));
    law_checksum_catches_swap(s, key[i], key[i + 1], t);
}

} // verus!
