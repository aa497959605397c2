# bech32

The human-readable part of [BIP-173] strings, as a Verus library: parsing with exact errors, case
insensitive equality, order and hash, iterators from both ends, and the checks for the Bitcoin
networks.

- `src/primitives/hrp/mod.rs`: the `Hrp` type and its parsers
- `src/primitives/hrp/validity.rs`: which texts are human-readable parts, and what is wrong with
  the others
- `src/primitives/hrp/repr.rs`: storage, in place up to 7 bytes and in a heap block of their own above
  that
- `src/primitives/hrp/formatter.rs`: parsing of text that arrives in pieces
- `src/primitives/hrp/iter.rs`, `compare.rs`, `display.rs`, `error.rs`, `numeral.rs`: iterators,
  comparison, text and errors
- `src/primitives/hrp/laws.rs`: properties that span several functions
- `src/primitives/hrp/std_items.rs`: what is believed of std
- `app/`: `Ord`

[BIP-173]: https://github.com/bitcoin/bips/blob/master/bip-0173.mediawiki
