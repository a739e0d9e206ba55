//! The seed of a key: a number that stands for what the key was issued to.

use vstd::prelude::*;
use vstd::string::StringExecFns;
use vstd::utf8::encode_utf8;

verus! {

/// The CRC-32 checksum, with the IEEE polynomial, of a sequence of bytes.
pub uninterp spec fn crc32_ieee(bytes: Seq<u8>) -> u32;

/// `crc32::checksum_ieee` of the crc crate computes the CRC-32 checksum of the
/// bytes from its table for the IEEE polynomial. The result depends on the
/// bytes alone and is only named here.
#[verifier::external_body]
fn checksum_ieee(bytes: &[u8]) -> (sum: u32)
    ensures
        sum == crc32_ieee(bytes@),
{
    crc::crc32::checksum_ieee(bytes)
}

/// The text that the seed is computed from: the input, a plus sign, and the
/// secret of the configuration.
pub open spec fn seed_source(input: Seq<char>, secret: Seq<char>) -> Seq<char> {
    input + seq!['+'] + secret
}

/// The seed for an input under a secret: the CRC-32 checksum of the UTF-8
/// bytes of `seed_source`. It is never negative and always below `2^32`, so
/// it fills the eight digits of the seed field exactly.
pub fn derive_seed(input: &str, secret: &str) -> (seed: i64)
    ensures
        seed == crc32_ieee(encode_utf8(seed_source(input@, secret@))),
        0 <= seed < 0x1_0000_0000,
{
    let mut source = String::new();
    source.append(input);
    source.push('+');
    source.append(secret);
    proof {
        assert(source@ =~= seed_source(input@, secret@));
    }
    let sum = checksum_ieee(source.as_str().as_bytes());
    sum as i64
}

} // verus!
