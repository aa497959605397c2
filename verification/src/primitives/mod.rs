//! The parts that bech32 strings are made of.

pub mod hrp;
