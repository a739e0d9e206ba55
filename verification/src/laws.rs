//! What holds of keys, whatever the seed, the parameters and the sample.

use vstd::prelude::*;
use vstd::utf8::is_ascii_chars;
use crate::checksum::{checksum_text, lemma_checksum_text_shape};
use crate::detection::law_changed_body_character;
use crate::hex::{
    all_upper_hex, hex_number, lemma_hex_padded_shape, lemma_hex_round_trip,
    lemma_sixteen_to_values,
};
use crate::keygen::{
    byte_fields, checksum_holds, grouped, key_body, key_text, plain_key, seed_low, seed_text,
    used_shifts,
};
use crate::text::{
    ascii_upper, ascii_uppercase, dash_free, lemma_without_dashes_clean,
    lemma_without_dashes_concat, lemma_without_dashes_shape, normalized, uppercased,
    without_dashes,
};
use crate::transform::{key_byte_text, lemma_key_byte_reads_low_bits, lemma_key_byte_shape};
use crate::verify::{
    byte_agrees, byte_field, early_status, is_sample, is_seed, key_status,
    lemma_agreeing_sample_is_good, lemma_disagreeing_sample_is_phony, lemma_sample_decides,
    revoked, seed_field, Status,
};

verus! {

/// Uppercase hexadecimal digits are ASCII, are not dashes, and are their own
/// uppercase form.
pub proof fn lemma_upper_hex_is_plain(s: Seq<char>)
    requires
        all_upper_hex(s),
    ensures
        is_ascii_chars(s),
        dash_free(s),
        uppercased(s) == s,
        without_dashes(s) == s,
{
    lemma_without_dashes_clean(s);
}

/// The obfuscated bytes of a key: two uppercase hexadecimal digits for each
/// parameter triple, those of triple `i` at offset `2 * i`.
pub proof fn lemma_byte_fields_shape(seed: i64, shifts: Seq<(i16, i16, i16)>)
    ensures
        byte_fields(seed, shifts).len() == 2 * shifts.len(),
        all_upper_hex(byte_fields(seed, shifts)),
        forall|i: int|
            0 <= i < shifts.len() ==> #[trigger] byte_fields(seed, shifts).subrange(
                2 * i,
                2 * i + 2,
            ) == key_byte_text(seed, shifts[i]),
    decreases shifts.len(),
{
    if shifts.len() > 0 {
        let front = byte_fields(seed, shifts.drop_last());
        let last = key_byte_text(seed, shifts.last());
        lemma_byte_fields_shape(seed, shifts.drop_last());
        lemma_key_byte_shape(seed, shifts.last());
        assert forall|i: int| 0 <= i < shifts.len() implies #[trigger] (front + last).subrange(
            2 * i,
            2 * i + 2,
        ) == key_byte_text(seed, shifts[i]) by {
            if i < shifts.len() - 1 {
                assert((front + last).subrange(2 * i, 2 * i + 2) =~= front.subrange(
                    2 * i,
                    2 * i + 2,
                ));
            }
        }
    }
}

/// The plain form of a key: where its fields lie.
pub proof fn lemma_plain_key_shape(seed: i64, shifts: Seq<(i16, i16, i16)>)
    ensures
        plain_key(seed, shifts).len() == 12 + 2 * shifts.len(),
        all_upper_hex(plain_key(seed, shifts)),
        seed_field(plain_key(seed, shifts)) == seed_text(seed),
        is_seed(seed_text(seed)),
        hex_number(seed_text(seed)) == seed_low(seed),
        checksum_holds(plain_key(seed, shifts), shifts.len() as int),
        forall|i: int|
            0 <= i < shifts.len() ==> #[trigger] byte_field(plain_key(seed, shifts), i)
                == key_byte_text(seed, shifts[i]),
{
    let fields = byte_fields(seed, shifts);
    let body = key_body(seed, shifts);
    let plain = plain_key(seed, shifts);
    lemma_sixteen_to_values();
    lemma_hex_padded_shape(seed_low(seed), 8);
    lemma_hex_round_trip(seed_low(seed), 8);
    lemma_byte_fields_shape(seed, shifts);
    lemma_checksum_text_shape(body);
    assert(plain.take(plain.len() - 4) =~= body);
    assert(plain.skip(plain.len() - 4) =~= checksum_text(body));
    assert forall|i: int| 0 <= i < shifts.len() implies #[trigger] byte_field(plain, i)
        == key_byte_text(seed, shifts[i]) by {
        assert(byte_field(plain, i) =~= fields.subrange(2 * i, 2 * i + 2));
    }
}

/// Taking the dashes out of a grouped text gives the text back, if it held
/// none itself.
pub proof fn lemma_grouped_without_dashes(s: Seq<char>)
    requires
        dash_free(s),
    ensures
        without_dashes(grouped(s)) == s,
    decreases s.len(),
{
    if s.len() <= 4 {
        lemma_without_dashes_clean(s);
    } else {
        let first = s.take(4);
        let rest = s.skip(4);
        lemma_grouped_without_dashes(rest);
        lemma_without_dashes_clean(first);
        lemma_without_dashes_concat(first + seq!['-'], grouped(rest));
        lemma_without_dashes_concat(first, seq!['-']);
        lemma_without_dashes_single('-');
    }
}

/// The normal form of a key as `make_key` shows it is its plain form.
pub proof fn lemma_made_key_normalizes(seed: i64, shifts: Seq<(i16, i16, i16)>)
    ensures
        normalized(grouped(plain_key(seed, shifts))) == plain_key(seed, shifts),
{
    let plain = plain_key(seed, shifts);
    lemma_plain_key_shape(seed, shifts);
    lemma_upper_hex_is_plain(plain);
    lemma_grouped_without_dashes(plain);
}

/// A text is ASCII exactly if its pieces are.
pub proof fn lemma_ascii_concat(a: Seq<char>, b: Seq<char>)
    ensures
        is_ascii_chars(a + b) == (is_ascii_chars(a) && is_ascii_chars(b)),
{
    if is_ascii_chars(a + b) {
        assert forall|i: int| 0 <= i < a.len() implies '\0' <= #[trigger] a[i] <= '\u{7f}' by {
            assert(a[i] == (a + b)[i]);
        }
        assert forall|i: int| 0 <= i < b.len() implies '\0' <= #[trigger] b[i] <= '\u{7f}' by {
            assert(b[i] == (a + b)[a.len() + i]);
        }
    }
}

/// A text of one character, without its dashes.
pub proof fn lemma_without_dashes_single(c: char)
    ensures
        without_dashes(seq![c]) == (if c == '-' {
            Seq::<char>::empty()
        } else {
            seq![c]
        }),
{
    assert(without_dashes(seq![c].drop_last()) =~= Seq::<char>::empty());
}

/// The normal form of an ASCII text, seen as the characters before one
/// place, the character there, and the characters behind it.
pub proof fn lemma_normal_form_of_three(front: Seq<char>, c: char, back: Seq<char>)
    requires
        is_ascii_chars(front),
        is_ascii_chars(back),
        c <= '\u{7f}',
    ensures
        is_ascii_chars(front + seq![c] + back),
        is_ascii_chars(normalized(front + seq![c] + back)),
        normalized(front + seq![c] + back) == ascii_uppercase(without_dashes(front)) + (if c
            == '-' {
            Seq::<char>::empty()
        } else {
            ascii_uppercase(seq![c])
        }) + ascii_uppercase(without_dashes(back)),
{
    let one = seq![c];
    lemma_ascii_concat(front, one);
    lemma_ascii_concat(front + one, back);
    lemma_without_dashes_concat(front + one, back);
    lemma_without_dashes_concat(front, one);
    lemma_without_dashes_single(c);
    lemma_without_dashes_shape(front + one + back);
}

/// Every key that `make_key` makes passes `check_key`, as long as its seed
/// is not on the blacklist: for at least three bytes the status is `Good`,
/// whatever the seed and whichever of the bytes are looked at.
pub proof fn law_made_key_passes(
    seed: i64,
    num_bytes: int,
    shifts: Seq<(i16, i16, i16)>,
    blacklist: Seq<Seq<char>>,
    sample: Seq<usize>,
)
    requires
        3 <= num_bytes <= shifts.len(),
        !revoked(seed_text(seed), blacklist),
        forall|j: int| 0 <= j < sample.len() ==> (#[trigger] sample[j]) < num_bytes,
    ensures
        key_status(
            normalized(key_text(seed, num_bytes, shifts)),
            blacklist,
            num_bytes,
            shifts,
            sample,
        ) == Status::Good,
{
    let used = used_shifts(shifts, num_bytes);
    let plain = plain_key(seed, used);
    let read = seed_low(seed) as i64;
    lemma_made_key_normalizes(seed, used);
    lemma_plain_key_shape(seed, used);
    assert forall|j: int| 0 <= j < sample.len() implies 10 + 2 * (#[trigger] sample[j])
        <= plain.len() && byte_agrees(plain, read, shifts, sample[j] as int) by {
        let i = sample[j] as int;
        assert(byte_field(plain, i) == key_byte_text(seed, used[i]));
        lemma_key_byte_reads_low_bits(seed, shifts[i]);
    }
    lemma_agreeing_sample_is_good(plain, read, shifts, sample);
}

/// Every key that `make_key` makes passes `check_key`: for at least three
/// bytes and an empty blacklist the status is `Good`, whatever the seed and
/// whichever of the bytes are looked at.
pub proof fn law_made_key_is_good(
    seed: i64,
    num_bytes: int,
    shifts: Seq<(i16, i16, i16)>,
    sample: Seq<usize>,
)
    requires
        3 <= num_bytes <= shifts.len(),
        forall|j: int| 0 <= j < sample.len() ==> (#[trigger] sample[j]) < num_bytes,
    ensures
        key_status(
            normalized(key_text(seed, num_bytes, shifts)),
            Seq::empty(),
            num_bytes,
            shifts,
            sample,
        ) == Status::Good,
{
    law_made_key_passes(seed, num_bytes, shifts, Seq::empty(), sample);
}

/// The seed can be read back from a key: the seed field of the normal form
/// of a key writes the low 32 bits of its seed, which for a seed from 0 to
/// `2^32 - 1` is the seed.
pub proof fn law_seed_is_read_back(seed: i64, num_bytes: int, shifts: Seq<(i16, i16, i16)>)
    ensures
        is_seed(seed_field(normalized(key_text(seed, num_bytes, shifts)))),
        hex_number(seed_field(normalized(key_text(seed, num_bytes, shifts)))) == seed_low(seed),
        0 <= seed < 0x1_0000_0000 ==> seed_low(seed) == seed,
{
    let used = used_shifts(shifts, num_bytes);
    lemma_made_key_normalizes(seed, used);
    lemma_plain_key_shape(seed, used);
}

/// Where dashes stand in a key does not matter: a dash put in at any place
/// leaves the normal form of the key as it was, and with it the result of the
/// checksum test. Read from right to left, the same holds of a dash taken
/// out.
pub proof fn law_dash_is_ignored(key: Seq<char>, i: int, num_bytes: int)
    requires
        0 <= i <= key.len(),
    ensures
        normalized(key.insert(i, '-')) == normalized(key),
        checksum_holds(normalized(key.insert(i, '-')), num_bytes) == checksum_holds(
            normalized(key),
            num_bytes,
        ),
{
    let front = key.take(i);
    let back = key.skip(i);
    assert(key.insert(i, '-') =~= front + seq!['-'] + back);
    assert(key =~= front + back);
    lemma_without_dashes_concat(front + seq!['-'], back);
    lemma_without_dashes_concat(front, seq!['-']);
    lemma_without_dashes_concat(front, back);
    lemma_without_dashes_single('-');
}

/// The case of the letters in an ASCII key does not matter: a character
/// replaced by one with the same uppercase form leaves the normal form of the
/// key as it was, and with it the result of the checksum test.
pub proof fn law_case_is_ignored(key: Seq<char>, i: int, c: char, num_bytes: int)
    requires
        is_ascii_chars(key),
        0 <= i < key.len(),
        c <= '\u{7f}',
        ascii_upper(c) == ascii_upper(key[i]),
    ensures
        normalized(key.update(i, c)) == normalized(key),
        checksum_holds(normalized(key.update(i, c)), num_bytes) == checksum_holds(
            normalized(key),
            num_bytes,
        ),
{
    let front = key.take(i);
    let back = key.skip(i + 1);
    assert(key =~= front + seq![key[i]] + back);
    assert(key.update(i, c) =~= front + seq![c] + back);
    lemma_ascii_concat(front + seq![key[i]], back);
    lemma_ascii_concat(front, seq![key[i]]);
    lemma_normal_form_of_three(front, key[i], back);
    lemma_normal_form_of_three(front, c, back);
}

/// A changed character among the last four of a key in normal form breaks
/// the checksum.
pub proof fn law_changed_checksum_digit(key: Seq<char>, num_bytes: int, i: int, c: char)
    requires
        checksum_holds(key, num_bytes),
        key.len() - 4 <= i < key.len(),
        c != key[i],
    ensures
        !checksum_holds(key.update(i, c), num_bytes),
{
    let cut = key.len() - 4;
    assert(key.update(i, c).take(cut) =~= key.take(cut));
    assert(key.skip(cut)[i - cut] == key[i]);
    assert(key.update(i, c).skip(cut)[i - cut] == c);
}

/// The checksum test catches every single mistyped character: in an ASCII
/// key as it was typed, with or without dashes and in whatever case, a
/// character that is no dash cannot be replaced by another without breaking
/// the checksum, unless the new character has the same uppercase form as the
/// old one.
pub proof fn law_changed_character_fails_checksum(
    key: Seq<char>,
    num_bytes: int,
    i: int,
    c: char,
)
    requires
        checksum_holds(normalized(key), num_bytes),
        is_ascii_chars(key),
        0 <= i < key.len(),
        key[i] != '-',
        c <= '\u{7f}',
        ascii_upper(c) != ascii_upper(key[i]),
    ensures
        !checksum_holds(normalized(key.update(i, c)), num_bytes),
{
    let front = key.take(i);
    let back = key.skip(i + 1);
    let normal = normalized(key);
    let at = without_dashes(front).len() as int;
    assert(key =~= front + seq![key[i]] + back);
    assert(key.update(i, c) =~= front + seq![c] + back);
    lemma_ascii_concat(front + seq![key[i]], back);
    lemma_ascii_concat(front, seq![key[i]]);
    lemma_normal_form_of_three(front, key[i], back);
    lemma_normal_form_of_three(front, c, back);
    if c != '-' {
        let other = ascii_upper(c);
        assert(normalized(key.update(i, c)) =~= normal.update(at, other));
        assert(normal[at] == ascii_upper(key[i]));
        if at >= normal.len() - 4 {
            law_changed_checksum_digit(normal, num_bytes, at, other);
        } else {
            law_changed_body_character(normal, num_bytes, at, other);
        }
    }
}

/// A key with one mistyped character is invalid, whatever else is wrong
/// with it: under the conditions of `law_changed_character_fails_checksum`
/// the status is `Invalid` for every blacklist and every sample.
pub proof fn law_mistyped_key_is_invalid(
    key: Seq<char>,
    blacklist: Seq<Seq<char>>,
    num_bytes: int,
    shifts: Seq<(i16, i16, i16)>,
    sample: Seq<usize>,
    i: int,
    c: char,
)
    requires
        checksum_holds(normalized(key), num_bytes),
        is_ascii_chars(key),
        0 <= i < key.len(),
        key[i] != '-',
        c <= '\u{7f}',
        ascii_upper(c) != ascii_upper(key[i]),
    ensures
        key_status(normalized(key.update(i, c)), blacklist, num_bytes, shifts, sample)
            == Status::Invalid,
{
    law_changed_character_fails_checksum(key, num_bytes, i, c);
}

/// A forged byte is found whenever it is looked at: a key in normal form
/// that gets as far as the bytes, and in which the byte at a sampled position
/// is not the one that its seed gives, is phony.
pub proof fn law_forged_byte_is_phony(
    key: Seq<char>,
    blacklist: Seq<Seq<char>>,
    num_bytes: int,
    shifts: Seq<(i16, i16, i16)>,
    sample: Seq<usize>,
    j: int,
)
    requires
        early_status(key, blacklist, num_bytes) is None,
        forall|k: int| 0 <= k < sample.len() ==> (#[trigger] sample[k]) < num_bytes,
        0 <= j < sample.len(),
        !byte_agrees(key, hex_number(seed_field(key)) as i64, shifts, sample[j] as int),
    ensures
        key_status(key, blacklist, num_bytes, shifts, sample) == Status::Phony,
{
    lemma_disagreeing_sample_is_phony(
        key,
        hex_number(seed_field(key)) as i64,
        shifts,
        sample,
        j,
    );
}

/// What `check_key` can return once a key got as far as its bytes: `Phony`
/// if the sample that was drawn holds a position whose byte disagrees with
/// the seed, and `Good` otherwise.
pub proof fn law_drawn_sample_decides(
    key: Seq<char>,
    blacklist: Seq<Seq<char>>,
    num_bytes: int,
    shifts: Seq<(i16, i16, i16)>,
    sample: Seq<usize>,
)
    requires
        early_status(key, blacklist, num_bytes) is None,
        is_sample(sample, num_bytes),
    ensures
        key_status(key, blacklist, num_bytes, shifts, sample) == (if exists|j: int|
            0 <= j < sample.len() && !byte_agrees(
                key,
                hex_number(seed_field(key)) as i64,
                shifts,
                #[trigger] sample[j] as int,
            ) {
            Status::Phony
        } else {
            Status::Good
        }),
{
    lemma_sample_decides(key, hex_number(seed_field(key)) as i64, shifts, sample);
}

/// With three or four bytes nothing is left to chance: the first three
/// bytes are looked at, so the key is good exactly if all of those agree with
/// the seed.
pub proof fn law_short_key_is_checked_whole(
    key: Seq<char>,
    blacklist: Seq<Seq<char>>,
    num_bytes: int,
    shifts: Seq<(i16, i16, i16)>,
    sample: Seq<usize>,
)
    requires
        early_status(key, blacklist, num_bytes) is None,
        3 <= num_bytes <= 4,
        is_sample(sample, num_bytes),
    ensures
        key_status(key, blacklist, num_bytes, shifts, sample) == (if forall|i: int|
            0 <= i < 3 ==> #[trigger] byte_agrees(
                key,
                hex_number(seed_field(key)) as i64,
                shifts,
                i,
            ) {
            Status::Good
        } else {
            Status::Phony
        }),
{
    let seed = hex_number(seed_field(key)) as i64;
    law_drawn_sample_decides(key, blacklist, num_bytes, shifts, sample);
    assert forall|i: int| 0 <= i < 3 implies #[trigger] sample.contains(i as usize) by {
        assert(sample[0] == i || sample[1] == i || sample[2] == i);
    }
    if !(forall|i: int| 0 <= i < 3 ==> #[trigger] byte_agrees(key, seed, shifts, i)) {
        let i = choose|i: int| 0 <= i < 3 && !#[trigger] byte_agrees(key, seed, shifts, i);
        assert(sample.contains(i as usize));
    }
}

/// A key whose seed is on the blacklist is blacklisted before any byte is
/// looked at: with the right checksum and at least three bytes, a seed field
/// that is the uppercase form of a blacklist entry gives `Blacklisted`,
/// whatever the sample.
pub proof fn law_revoked_seed_is_blacklisted(
    key: Seq<char>,
    blacklist: Seq<Seq<char>>,
    num_bytes: int,
    shifts: Seq<(i16, i16, i16)>,
    sample: Seq<usize>,
    i: int,
)
    requires
        checksum_holds(key, num_bytes),
        num_bytes >= 3,
        0 <= i < blacklist.len(),
        uppercased(blacklist[i]) == seed_field(key),
    ensures
        early_status(key, blacklist, num_bytes) == Some(Status::Blacklisted),
        key_status(key, blacklist, num_bytes, shifts, sample) == Status::Blacklisted,
{
}

/// With fewer than three bytes every key is invalid.
pub proof fn law_few_bytes_is_invalid(
    key: Seq<char>,
    blacklist: Seq<Seq<char>>,
    num_bytes: int,
    shifts: Seq<(i16, i16, i16)>,
    sample: Seq<usize>,
)
    requires
        num_bytes < 3,
    ensures
        key_status(key, blacklist, num_bytes, shifts, sample) == Status::Invalid,
{
}

} // verus!
