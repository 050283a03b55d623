//! AES-CTR from first principles, with verified byte-exact contracts.
//!
//! The cipher core builds the AES forward transform out of GF(2^8)
//! arithmetic ([`gf`]), the substitution table ([`sbox`]), the expanded
//! key schedule ([`schedule`]) and the round functions ([`block`]).
//! Counter mode turns it into a stream cipher: [`counter`] derives each
//! block's counter directly from the base value and the absolute block
//! index, and [`engine`] XORs the resulting keystream into the data,
//! chunk by chunk. [`plan`] checks a run's configuration and lays the
//! file out into independent chunk jobs that a pool of workers may
//! process in any order.
//!
//! Encryption and decryption are the same operation, and the engine's
//! round-trip and chunk-independence laws are proved in [`engine`].

pub mod block;
pub mod counter;
pub mod engine;
pub mod gf;
pub mod plan;
pub mod sbox;
pub mod schedule;
