//! The human-readable part of bech32 strings, parsed and checked as [BIP-173] defines it.
//!
//! A bech32 string is a human-readable part, the separator `1` and a data part. This crate holds
//! the first of the three: [`primitives::hrp::Hrp`] is a human-readable part that is known to be
//! printable ASCII, compared without regard to case. Every function carries a contract. The
//! properties that span several functions are proof functions in [`primitives::hrp::laws`], and what
//! the results are by position and by number in [`primitives::hrp::meaning`].
//!
//! [BIP-173]: <https://github.com/bitcoin/bips/blob/master/bip-0173.mediawiki>

pub mod primitives;
