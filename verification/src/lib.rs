//! Offline serial keys: short hexadecimal strings that bind a seed to a set
//! of secret shift parameters, with a checksum against typing mistakes and a
//! partial, randomly sampled check of the obfuscated bytes against forgery.
//!
//! A key holds the seed, one obfuscated byte for each parameter triple, and a
//! checksum. [`make_key`] makes one, [`check_key_checksum`] tests its length
//! and checksum, and [`check_key`] verifies it: against a blacklist of seeds
//! and at a few bytes that are drawn anew for each call, so that no single
//! run shows which bytes count. What these functions compute is stated over
//! sequences of characters; the modules `laws` and `detection` prove what
//! follows from that for every key.
//!
//! The scheme obfuscates; it does not sign. Nothing here is a cryptographic
//! guarantee.

pub mod chance;
pub mod checksum;
pub mod config;
pub mod detection;
pub mod hex;
pub mod keygen;
pub mod laws;
pub mod pattern;
pub mod seed;
pub mod text;
pub mod transform;
pub mod verify;

pub use checksum::get_checksum;
pub use config::{create_hash, Config};
pub use keygen::{check_key_checksum, make_key, shifts_usable};
pub use seed::derive_seed;
pub use text::normalize_key;
pub use transform::get_key_byte;
pub use verify::{check_key, check_key_with_sample, Status};
