//! The configuration that keys are issued under.

use vstd::prelude::*;
use crate::chance::{all_letters_or_digits, random_in_range, random_text};
use crate::keygen::shifts_fit;

verus! {

/// What a set of keys is issued and verified with. The shift parameters must
/// be kept as they are: keys made with other parameters do not verify.
#[derive(Debug)]
pub struct Config {
    /// How many obfuscated bytes a key holds.
    pub num_bytes: i8,
    /// One parameter triple for each obfuscated byte.
    pub byte_shifts: Vec<(i16, i16, i16)>,
    /// The secret that is mixed into the seed.
    pub hash: String,
    /// The seeds whose keys are revoked.
    pub blacklist: Vec<String>,
}

/// Every number of the triple is at least 0 and at most 255.
pub open spec fn shift_in_range(shift: (i16, i16, i16)) -> bool {
    &&& 0 <= shift.0 <= 255
    &&& 0 <= shift.1 <= 255
    &&& 0 <= shift.2 <= 255
}

/// What `generate_shifts` returns for `count`: that many parameter triples,
/// none where `count` is negative, and each number at least 0 and below 255.
pub open spec fn shifts_generated(shifts: Seq<(i16, i16, i16)>, count: int) -> bool {
    &&& shifts.len() == (if count < 0 { 0 } else { count })
    &&& forall|i: int|
        0 <= i < shifts.len() ==> shift_in_range(#[trigger] shifts[i]) && shifts[i].0 < 255
            && shifts[i].1 < 255 && shifts[i].2 < 255
}

impl Config {
    /// The configuration asks for at least three bytes and has one parameter
    /// triple for each, with its numbers in range.
    pub open spec fn well_formed(&self) -> bool {
        &&& self.num_bytes >= 3
        &&& self.byte_shifts@.len() == self.num_bytes
        &&& forall|i: int|
            0 <= i < self.byte_shifts@.len() ==> shift_in_range(#[trigger] self.byte_shifts@[i])
    }

    /// Keys can be made and verified with a well-formed configuration.
    pub proof fn law_well_formed_fits(&self)
        requires
            self.well_formed(),
        ensures
            shifts_fit(self.byte_shifts@, self.num_bytes as int),
    {
    }

    /// A new configuration with the given secret and blacklist and with shift
    /// parameters that are drawn at random. It is well-formed if at least
    /// three bytes are asked for.
    pub fn new(hash: &str, num_bytes: i8, blacklist: Vec<String>) -> (config: Config)
        ensures
            config.num_bytes == num_bytes,
            config.hash@ == hash@,
            config.blacklist == blacklist,
            shifts_generated(config.byte_shifts@, num_bytes as int),
            shifts_fit(config.byte_shifts@, num_bytes as int),
            num_bytes >= 3 ==> config.well_formed(),
    {
        Config {
            num_bytes,
            byte_shifts: Self::generate_shifts(num_bytes),
            hash: hash.to_owned(),
            blacklist,
        }
    }

    /// Draws `len` parameter triples, each number at least 0 and below 255;
    /// none where `len` is negative.
    pub fn generate_shifts(len: i8) -> (shifts: Vec<(i16, i16, i16)>)
        ensures
            shifts_generated(shifts@, len as int),
    {
        let mut shifts: Vec<(i16, i16, i16)> = Vec::new();
        let mut i: i8 = 0;
        while i < len
            invariant
                0 <= i,
                i <= len || i == 0,
                shifts_generated(shifts@, i as int),
            decreases len - i,
        {
            let a = random_in_range(0, 255) as i16;
            let b = random_in_range(0, 255) as i16;
            let c = random_in_range(0, 255) as i16;
            shifts.push((a, b, c));
            i = i + 1;
        }
        shifts
    }
}

/// A new secret: between 24 and 31 letters and digits, drawn at random.
pub fn create_hash() -> (secret: String)
    ensures
        24 <= secret@.len() < 32,
        all_letters_or_digits(secret@),
{
    let len = random_in_range(24, 32);
    random_text(len)
}

} // verus!
