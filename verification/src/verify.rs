//! Verifying a key: the checksum, the blacklist, the form of the seed, and
//! the obfuscated bytes at a few positions that are drawn anew for each call.

use vstd::prelude::*;
use crate::chance::{distinct_below, draw_positions};
use crate::hex::{all_upper_hex, hex_number, parse_hex, push_hex};
use crate::keygen::{checksum_holds, checksum_matches, shifts_fit};
use crate::pattern::holds_seed_digits;
use crate::text::{chars_of, normalize_key, normalized, string_of, uppercase_text, uppercased};
use crate::transform::{key_byte_text, key_byte_value, shift_ok};

verus! {

/// What verifying a key comes to.
#[derive(Debug, Clone, Copy, PartialEq, Eq, Structural)]
pub enum Status {
    /// The key passed every test that was made.
    Good,
    /// The key has the wrong length or the wrong checksum, or fewer than three
    /// bytes were asked for.
    Invalid,
    /// The seed of the key is on the blacklist.
    Blacklisted,
    /// The key has the right length and checksum, but its seed is no
    /// hexadecimal number or one of the bytes looked at is not the one that
    /// the seed gives.
    Phony,
}

/// The seed field of a key in normal form: its first eight characters.
pub open spec fn seed_field(key: Seq<char>) -> Seq<char> {
    key.take(8)
}

/// The uppercase form of some blacklist entry is `field`.
pub open spec fn revoked(field: Seq<char>, blacklist: Seq<Seq<char>>) -> bool {
    exists|i: int| 0 <= i < blacklist.len() && uppercased(#[trigger] blacklist[i]) == field
}

/// `field` is eight uppercase hexadecimal digits.
pub open spec fn is_seed(field: Seq<char>) -> bool {
    field.len() == 8 && all_upper_hex(field)
}

/// The two characters that stand for byte `i` in a key in normal form.
pub open spec fn byte_field(key: Seq<char>, i: int) -> Seq<char> {
    key.subrange(8 + 2 * i, 10 + 2 * i)
}

/// Byte `i` of the key is the one that `seed` and parameter triple `i` give.
pub open spec fn byte_agrees(
    key: Seq<char>,
    seed: i64,
    shifts: Seq<(i16, i16, i16)>,
    i: int,
) -> bool {
    byte_field(key, i) == key_byte_text(seed, shifts[i])
}

/// How many bytes one verification looks at: three for up to five bytes,
/// half of them beyond that.
pub open spec fn sample_size(num_bytes: int) -> int {
    if num_bytes <= 5 {
        3
    } else {
        num_bytes / 2
    }
}

/// The positions that a verification draws from are those below this bound:
/// all bytes but the last. With three bytes that would leave too few, so
/// there the last byte is drawn as well.
pub open spec fn sample_bound(num_bytes: int) -> int {
    if num_bytes <= 3 {
        num_bytes
    } else {
        num_bytes - 1
    }
}

/// A sample that `check_key` may draw for `num_bytes` bytes: `sample_size`
/// different positions below `sample_bound`.
pub open spec fn is_sample(sample: Seq<usize>, num_bytes: int) -> bool {
    &&& sample.len() == sample_size(num_bytes)
    &&& distinct_below(sample, sample_bound(num_bytes))
}

/// What is decided before any byte is looked at, if anything: a key with a
/// wrong checksum or with fewer than three bytes is invalid, a key whose seed
/// is on the blacklist is blacklisted, and a key whose seed field is not eight
/// hexadecimal digits is phony. `None` where the bytes decide.
pub open spec fn early_status(key: Seq<char>, blacklist: Seq<Seq<char>>, num_bytes: int) -> Option<
    Status,
> {
    if !checksum_holds(key, num_bytes) || num_bytes < 3 {
        Some(Status::Invalid)
    } else if revoked(seed_field(key), blacklist) {
        Some(Status::Blacklisted)
    } else if !is_seed(seed_field(key)) {
        Some(Status::Phony)
    } else {
        None
    }
}

/// What the bytes at the sampled positions decide, taken in the order of the
/// sample: the first position whose two characters would lie beyond the end
/// of the key makes it invalid, the first byte that disagrees makes it phony,
/// and a key that gets through the whole sample is good.
pub open spec fn sample_verdict(
    key: Seq<char>,
    seed: i64,
    shifts: Seq<(i16, i16, i16)>,
    sample: Seq<usize>,
) -> Status
    decreases sample.len(),
{
    if sample.len() == 0 {
        Status::Good
    } else if 10 + 2 * sample.first() > key.len() {
        Status::Invalid
    } else if !byte_agrees(key, seed, shifts, sample.first() as int) {
        Status::Phony
    } else {
        sample_verdict(key, seed, shifts, sample.drop_first())
    }
}

/// The status of a key in normal form, given the positions to look at.
pub open spec fn key_status(
    key: Seq<char>,
    blacklist: Seq<Seq<char>>,
    num_bytes: int,
    shifts: Seq<(i16, i16, i16)>,
    sample: Seq<usize>,
) -> Status {
    match early_status(key, blacklist, num_bytes) {
        Some(status) => status,
        None => sample_verdict(key, hex_number(seed_field(key)) as i64, shifts, sample),
    }
}

/// Every position of the sample has a parameter triple, and none of those
/// has a negative shift amount.
pub open spec fn sample_fits(sample: Seq<usize>, shifts: Seq<(i16, i16, i16)>) -> bool {
    forall|j: int|
        0 <= j < sample.len() ==> (#[trigger] sample[j]) < shifts.len() && shift_ok(
            shifts[sample[j] as int],
        )
}

/// A sample of positions at which every byte agrees with the seed, and which
/// all lie inside the key, ends in `Good`.
pub proof fn lemma_agreeing_sample_is_good(
    key: Seq<char>,
    seed: i64,
    shifts: Seq<(i16, i16, i16)>,
    sample: Seq<usize>,
)
    requires
        forall|j: int|
            0 <= j < sample.len() ==> 10 + 2 * (#[trigger] sample[j]) <= key.len() && byte_agrees(
                key,
                seed,
                shifts,
                sample[j] as int,
            ),
    ensures
        sample_verdict(key, seed, shifts, sample) == Status::Good,
    decreases sample.len(),
{
    if sample.len() > 0 {
        let rest = sample.drop_first();
        assert forall|j: int| 0 <= j < rest.len() implies 10 + 2 * (#[trigger] rest[j])
            <= key.len() && byte_agrees(key, seed, shifts, rest[j] as int) by {
            assert(rest[j] == sample[j + 1]);
        }
        lemma_agreeing_sample_is_good(key, seed, shifts, rest);
    }
}

/// Once a byte at a sampled position disagrees with the seed, the sample
/// ends in `Phony`, if all its positions lie inside the key.
pub proof fn lemma_disagreeing_sample_is_phony(
    key: Seq<char>,
    seed: i64,
    shifts: Seq<(i16, i16, i16)>,
    sample: Seq<usize>,
    j: int,
)
    requires
        forall|k: int| 0 <= k < sample.len() ==> 10 + 2 * (#[trigger] sample[k]) <= key.len(),
        0 <= j < sample.len(),
        !byte_agrees(key, seed, shifts, sample[j] as int),
    ensures
        sample_verdict(key, seed, shifts, sample) == Status::Phony,
    decreases sample.len(),
{
    if j > 0 && byte_agrees(key, seed, shifts, sample[0] as int) {
        let rest = sample.drop_first();
        assert forall|k: int| 0 <= k < rest.len() implies 10 + 2 * (#[trigger] rest[k])
            <= key.len() by {
            assert(rest[k] == sample[k + 1]);
        }
        assert(rest[j - 1] == sample[j]);
        lemma_disagreeing_sample_is_phony(key, seed, shifts, rest, j - 1);
    }
}

/// Where every position of a sample lies inside the key, the order of the
/// sample does not matter: the key is phony if the byte at some sampled
/// position disagrees with the seed, and good otherwise.
pub proof fn lemma_sample_decides(
    key: Seq<char>,
    seed: i64,
    shifts: Seq<(i16, i16, i16)>,
    sample: Seq<usize>,
)
    requires
        forall|k: int| 0 <= k < sample.len() ==> 10 + 2 * (#[trigger] sample[k]) <= key.len(),
    ensures
        sample_verdict(key, seed, shifts, sample) == (if exists|j: int|
            0 <= j < sample.len() && !byte_agrees(key, seed, shifts, #[trigger] sample[j] as int) {
            Status::Phony
        } else {
            Status::Good
        }),
{
    if exists|j: int|
        0 <= j < sample.len() && !byte_agrees(key, seed, shifts, #[trigger] sample[j] as int) {
        let j = choose|j: int|
            0 <= j < sample.len() && !byte_agrees(key, seed, shifts, #[trigger] sample[j] as int);
        lemma_disagreeing_sample_is_phony(key, seed, shifts, sample, j);
    } else {
        lemma_agreeing_sample_is_good(key, seed, shifts, sample);
    }
}

/// Whether the uppercase form of some blacklist entry is the seed field.
fn on_blacklist(field: &String, blacklist: &Vec<String>) -> (found: bool)
    ensures
        found == revoked(field@, blacklist.deep_view()),
{
    let mut i: usize = 0;
    while i < blacklist.len()
        invariant
            i <= blacklist.len(),
            forall|j: int| 0 <= j < i ==> uppercased(#[trigger] blacklist.deep_view()[j]) != field@,
        decreases blacklist.len() - i,
    {
        let upper = uppercase_text(blacklist[i].as_str());
        assert(blacklist.deep_view()[i as int] == blacklist@[i as int]@);
        if upper == *field {
            return true;
        }
        i = i + 1;
    }
    false
}

/// The tests on a key in normal form that come before any byte is looked at.
/// Where they decide, the status is returned as the error; otherwise the
/// number that the seed field writes.
pub fn early_checks(key: &Vec<char>, blacklist: &Vec<String>, num_bytes: i8) -> (found: Result<
    i64,
    Status,
>)
    ensures
        match found {
            Ok(seed) => {
                &&& early_status(key@, blacklist.deep_view(), num_bytes as int) is None
                &&& seed == hex_number(seed_field(key@))
            },
            Err(status) => early_status(key@, blacklist.deep_view(), num_bytes as int) == Some(
                status,
            ),
        },
{
    if !checksum_matches(key, num_bytes) {
        return Err(Status::Invalid);
    }
    if num_bytes < 3 {
        return Err(Status::Invalid);
    }
    let mut field: Vec<char> = Vec::new();
    let mut i: usize = 0;
    while i < 8
        invariant
            i <= 8,
            key.len() >= 18,
            field@ == key@.take(i as int),
        decreases 8 - i,
    {
        field.push(key[i]);
        i = i + 1;
    }
    let field_text = string_of(&field);
    if on_blacklist(&field_text, blacklist) {
        return Err(Status::Blacklisted);
    }
    if !holds_seed_digits(field_text.as_str()) {
        return Err(Status::Phony);
    }
    match parse_hex(&field) {
        Some(seed) => Ok(seed),
        None => Err(Status::Invalid),
    }
}

/// Looks at the bytes of a key in normal form at the sampled positions, in
/// the order of the sample.
pub fn verify_sample(
    key: &Vec<char>,
    seed: i64,
    byte_shifts: &Vec<(i16, i16, i16)>,
    sample: &Vec<usize>,
) -> (status: Status)
    requires
        sample_fits(sample@, byte_shifts@),
    ensures
        status == sample_verdict(key@, seed, byte_shifts@, sample@),
{
    let mut j: usize = 0;
    proof {
        assert(sample@.skip(0) =~= sample@);
    }
    while j < sample.len()
        invariant
            j <= sample.len(),
            sample_fits(sample@, byte_shifts@),
            sample_verdict(key@, seed, byte_shifts@, sample@) == sample_verdict(
                key@,
                seed,
                byte_shifts@,
                sample@.skip(j as int),
            ),
        decreases sample.len() - j,
    {
        let at = sample[j];
        proof {
            assert(sample@.skip(j as int).drop_first() =~= sample@.skip(j + 1));
        }
        if key.len() < 10 || at > (key.len() - 10) / 2 {
            return Status::Invalid;
        }
        let shift = byte_shifts[at];
        let byte = key_byte_value(seed, shift.0, shift.1, shift.2);
        let mut digits: Vec<char> = Vec::new();
        push_hex(&mut digits, byte as u64, 2);
        proof {
            crate::transform::lemma_key_byte_shape(seed, shift);
            let field = byte_field(key@, at as int);
            if digits[0] == key[8 + 2 * at as int] && digits[1] == key[9 + 2 * at as int] {
                assert(field =~= digits@);
            }
        }
        if !(digits[0] == key[8 + 2 * at] && digits[1] == key[9 + 2 * at]) {
            return Status::Phony;
        }
        j = j + 1;
    }
    Status::Good
}

/// Verifies a key in normal form at the given positions.
pub fn check_normal_key(
    key: &Vec<char>,
    blacklist: &Vec<String>,
    num_bytes: i8,
    byte_shifts: &Vec<(i16, i16, i16)>,
    sample: &Vec<usize>,
) -> (status: Status)
    requires
        sample_fits(sample@, byte_shifts@),
    ensures
        status == key_status(
            key@,
            blacklist.deep_view(),
            num_bytes as int,
            byte_shifts@,
            sample@,
        ),
{
    match early_checks(key, blacklist, num_bytes) {
        Ok(seed) => verify_sample(key, seed, byte_shifts, sample),
        Err(status) => status,
    }
}

/// Verifies a key as it was typed at the given positions instead of drawn
/// ones. The positions are looked at in the order given.
pub fn check_key_with_sample(
    s: &str,
    blacklist: &Vec<String>,
    num_bytes: &i8,
    byte_shifts: &Vec<(i16, i16, i16)>,
    sample: &Vec<usize>,
) -> (status: Status)
    requires
        sample_fits(sample@, byte_shifts@),
    ensures
        status == key_status(
            normalized(s@),
            blacklist.deep_view(),
            *num_bytes as int,
            byte_shifts@,
            sample@,
        ),
{
    let normal = normalize_key(s);
    let key = chars_of(normal.as_str());
    check_normal_key(&key, blacklist, *num_bytes, byte_shifts, sample)
}

/// Draws the positions that one verification of a key with `num_bytes` bytes
/// looks at.
pub fn draw_sample(num_bytes: i8) -> (sample: Vec<usize>)
    requires
        num_bytes >= 3,
    ensures
        is_sample(sample@, num_bytes as int),
{
    let count: usize = if num_bytes <= 5 {
        3
    } else {
        (num_bytes / 2) as usize
    };
    let bound: usize = if num_bytes <= 3 {
        num_bytes as usize
    } else {
        (num_bytes - 1) as usize
    };
    draw_positions(count, bound)
}

/// Verifies a key as it was typed.
///
/// The key is brought into normal form. A key with the wrong checksum or
/// length is invalid, and so is any key where fewer than three bytes are asked
/// for. A key whose seed field is on the blacklist, in whatever case the entry
/// was written, is blacklisted. A key whose seed field is not eight
/// hexadecimal digits is phony. Then `sample_size` different positions below
/// `sample_bound` are drawn; the key is phony if the byte at one of them is
/// not the one that the seed gives, and good otherwise.
pub fn check_key(
    s: &str,
    blacklist: &Vec<String>,
    num_bytes: &i8,
    byte_shifts: &Vec<(i16, i16, i16)>,
) -> (status: Status)
    requires
        *num_bytes >= 3 ==> shifts_fit(byte_shifts@, *num_bytes as int),
    ensures
        early_status(normalized(s@), blacklist.deep_view(), *num_bytes as int) matches Some(early)
            ==> status == early,
        early_status(normalized(s@), blacklist.deep_view(), *num_bytes as int) is None
            ==> exists|sample: Seq<usize>|
            is_sample(sample, *num_bytes as int) && status == key_status(
                normalized(s@),
                blacklist.deep_view(),
                *num_bytes as int,
                byte_shifts@,
                sample,
            ),
        early_status(normalized(s@), blacklist.deep_view(), *num_bytes as int) is None ==> status
            == Status::Good || status == Status::Phony,
        *num_bytes < 3 ==> status == Status::Invalid,
{
    let normal = normalize_key(s);
    let key = chars_of(normal.as_str());
    match early_checks(&key, blacklist, *num_bytes) {
        Ok(seed) => {
            let sample = draw_sample(*num_bytes);
            proof {
                lemma_sample_decides(key@, seed, byte_shifts@, sample@);
            }
            verify_sample(&key, seed, byte_shifts, &sample)
        },
        Err(status) => status,
    }
}

} // verus!
