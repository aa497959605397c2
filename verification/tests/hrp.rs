//! What the human-readable part promises its callers.

use core::hash::{Hash, Hasher};
use core::mem::{align_of, size_of};

use bech32::primitives::hrp::{Error, Hrp, BC, BCRT, INLINE_LEN, MAX_LEN, TB};

/// A value that is formatted in as many writes as it has pieces.
struct Pieces(Vec<String>);

impl Pieces {
    fn of(pieces: &[&str]) -> Self {
        Pieces(pieces.iter().map(|piece| piece.to_string()).collect())
    }

    fn letters(text: &str) -> Self {
        Pieces(text.chars().map(|c| c.to_string()).collect())
    }
}

impl core::fmt::Display for Pieces {
    fn fmt(&self, f: &mut core::fmt::Formatter<'_>) -> core::fmt::Result {
        for piece in &self.0 {
            f.write_str(piece)?;
        }
        Ok(())
    }
}

fn check_parse_ok(hrp: &str) {
    assert!(Hrp::parse(hrp).is_ok());
    assert!(Hrp::parse_display(hrp).is_ok());
}

fn check_parse_err(hrp: &str) {
    assert!(Hrp::parse(hrp).is_err());
    assert!(Hrp::parse_display(hrp).is_err());
}

#[test]
fn parse_ok_0() {
    check_parse_ok("a");
}

#[test]
fn parse_ok_1() {
    check_parse_ok("A");
}

#[test]
fn parse_ok_2() {
    check_parse_ok("abcdefg");
}

#[test]
fn parse_ok_3() {
    check_parse_ok("ABCDEFG");
}

#[test]
fn parse_ok_4() {
    check_parse_ok("abc123def");
}

#[test]
fn parse_ok_5() {
    check_parse_ok("ABC123DEF");
}

#[test]
fn parse_ok_6() {
    check_parse_ok("!\"#$%&'()*+,-./");
}

#[test]
fn parse_ok_7() {
    check_parse_ok("1234567890");
}

#[test]
fn parse_err_0() {
    check_parse_err("has-capitals-aAbB");
}

#[test]
fn parse_err_1() {
    check_parse_err("has-value-out-of-range-∈∈∈∈∈∈∈∈");
}

#[test]
fn parse_err_2() {
    check_parse_err("toolongtoolongtoolongtoolongtoolongtoolongtoolongtoolongtoolongtoolongtoolongtoolongtoolongtoolong");
}

#[test]
fn parse_err_3() {
    check_parse_err("has spaces in it");
}

fn check_iter(text: &str, len: usize) {
    let hrp = Hrp::parse(text).expect(&format!("failed to parse hrp {}", text));

    // Test ByteIter forwards.
    for (got, want) in hrp.byte_iter().zip(text.bytes()) {
        assert_eq!(got, want);
    }

    // Test ByteIter backwards.
    for (got, want) in hrp.byte_iter().rev().zip(text.bytes().rev()) {
        assert_eq!(got, want);
    }

    // Test exact sized works.
    let mut iter = hrp.byte_iter();
    for i in 0..len {
        assert_eq!(iter.len(), len - i);
        let _ = iter.next();
    }
    assert!(iter.next().is_none());

    // Test CharIter forwards.
    let iter = hrp.char_iter();
    assert_eq!(text.to_string(), iter.collect::<String>());

    for (got, want) in hrp.char_iter().zip(text.chars()) {
        assert_eq!(got, want);
    }

    // Test CharIter backwards.
    for (got, want) in hrp.char_iter().rev().zip(text.chars().rev()) {
        assert_eq!(got, want);
    }

    // Test LowercaseCharIter forwards (implicitly tests LowercaseByteIter)
    for (got, want) in hrp.lowercase_char_iter().zip(text.chars().map(|c| c.to_ascii_lowercase())) {
        assert_eq!(got, want);
    }

    // Test LowercaseCharIter backwards (implicitly tests LowercaseByteIter)
    for (got, want) in hrp.lowercase_char_iter().rev().zip(text.chars().rev().map(|c| c.to_ascii_lowercase())) {
        assert_eq!(got, want);
    }
}

#[test]
fn char_0() {
    check_iter("abc", 3);
}

#[test]
fn char_1() {
    check_iter("ABC", 3);
}

#[test]
fn char_2() {
    check_iter("abc123", 6);
}

#[test]
fn char_3() {
    check_iter("ABC123", 6);
}

#[test]
fn char_4() {
    check_iter("abc123def", 9);
}

#[test]
fn char_5() {
    check_iter("ABC123DEF", 9);
}

#[test]
fn representation_is_compact() {
    let ptr_len = size_of::<&u8>();
    let expected_len = if ptr_len > INLINE_LEN + 1 { ptr_len } else { INLINE_LEN + 1 };

    assert_eq!(size_of::<Hrp>(), expected_len);
    assert_eq!(align_of::<Hrp>(), align_of::<&u8>());
}

#[test]
fn hrp_is_send_and_sync() {
    fn assert_send_and_sync<T: Send + Sync>() {}
    assert_send_and_sync::<Hrp>();
}

#[test]
fn inline_storage_is_used_up_to_the_capacity() {
    for len in 1..=INLINE_LEN {
        let s = &"abcdefg"[..len];
        let hrp = Hrp::parse(s).expect("valid hrp");
        assert!(hrp.is_inline());
        assert_eq!(hrp.len(), len);
        assert_eq!(hrp.as_str(), s);
    }
}

#[test]
fn heap_storage_is_used_above_the_inline_capacity() {
    let s = "a".repeat(MAX_LEN);

    for len in INLINE_LEN + 1..=MAX_LEN {
        let s = &s[..len];
        let hrp = Hrp::parse(s).expect("valid hrp");
        assert!(!hrp.is_inline());
        assert_eq!(hrp.len(), len);
        assert_eq!(hrp.as_str(), s);
        assert_eq!(hrp.as_bytes(), s.as_bytes());
    }
}

#[test]
fn clone_is_independent_of_the_original() {
    let s = "averylonghumanreadablepart";
    let cloned = {
        let hrp = Hrp::parse(s).expect("valid hrp");
        let cloned = hrp.clone();
        assert_eq!(hrp, cloned);
        cloned
    };

    assert_eq!(cloned.as_str(), s);
}

#[test]
fn long_hrp_is_rejected_without_alloc() {
    assert_eq!(Hrp::parse_within("abcdefgh", INLINE_LEN).unwrap_err(), Error::TooLong(8));
    assert_eq!(Hrp::parse_display_within("abcdefgh", INLINE_LEN).unwrap_err(), Error::TooLong(8));
}

#[test]
#[should_panic]
fn parse_unchecked_inline_rejects_long_hrp() {
    let _ = Hrp::parse_unchecked_inline("abcdefgh");
}

#[test]
fn parse_unchecked_inline_replaces_invalid_bytes() {
    assert_eq!(Hrp::parse_unchecked_inline("a c").as_str(), "aXc");
}

#[test]
fn hrp_consts() {
    assert_eq!(BC(), Hrp::parse_unchecked("bc"));
    assert_eq!(TB(), Hrp::parse_unchecked("tb"));
    assert_eq!(BCRT(), Hrp::parse_unchecked("bcrt"));
}

#[test]
fn as_str() {
    let s = "arbitraryhrp";
    let hrp = Hrp::parse_unchecked(s);
    assert_eq!(hrp.as_str(), s);
}

#[test]
fn as_bytes() {
    let s = "arbitraryhrp";
    let hrp = Hrp::parse_unchecked(s);
    assert_eq!(hrp.as_bytes(), s.as_bytes());
}

#[test]
fn parse_display() {
    let hrp = Hrp::parse_display(Pieces::of(&["123", "_", "abc"])).unwrap();
    assert_eq!(hrp.as_str(), "123_abc");
}

#[test]
fn parse_display_long() {
    let hrp = Hrp::parse_display(Pieces::letters(&format!("{:083}", 1))).unwrap();
    assert_eq!(
        hrp.as_str(),
        "00000000000000000000000000000000000000000000000000000000000000000000000000000000001"
    );

    assert_eq!(Hrp::parse_display(Pieces::letters(&format!("{:084}", 1))), Err(Error::TooLong(84)),);

    assert_eq!(
        Hrp::parse_display(Pieces::letters(&format!("{:83}", 1))),
        Err(Error::InvalidAsciiByte(b' ')),
    );
}

#[test]
fn parse_non_ascii() {
    assert_eq!(Hrp::parse("❤").unwrap_err(), Error::NonAsciiChar('❤'));
}

#[test]
fn parse_display_non_ascii() {
    assert_eq!(Hrp::parse_display("❤").unwrap_err(), Error::NonAsciiChar('❤'));
}

#[test]
fn parse_display_returns_first_error() {
    assert_eq!(Hrp::parse_display("❤ ").unwrap_err(), Error::NonAsciiChar('❤'));
}

// This test shows that the error does not contain heart.
#[test]
fn parse_display_iterates_chars() {
    assert_eq!(Hrp::parse_display(" ❤").unwrap_err(), Error::InvalidAsciiByte(b' '));
    assert_eq!(Hrp::parse_display("_❤").unwrap_err(), Error::NonAsciiChar('❤'));
}

#[test]
fn display_and_lowercase() {
    let hrp = Hrp::parse_unchecked("test");
    assert_eq!(hrp.to_string(), "test");

    let hrp = Hrp::parse_unchecked("ABC");
    assert_eq!(hrp.to_lowercase(), "abc");
    let hrp2 = Hrp::parse_unchecked("abc");
    assert_eq!(hrp2.to_lowercase(), "abc");
}

#[test]
fn is_valid_on_networks() {
    let bc = Hrp::parse_unchecked("bc");
    assert!(bc.is_valid_on_mainnet());
    assert!(!bc.is_valid_on_testnet());
    assert!(!bc.is_valid_on_signet());
    assert!(!bc.is_valid_on_regtest());

    let tb = Hrp::parse_unchecked("tb");
    assert!(!tb.is_valid_on_mainnet());
    assert!(tb.is_valid_on_testnet());
    assert!(tb.is_valid_on_signet());
    assert!(!tb.is_valid_on_regtest());

    let bcrt = Hrp::parse_unchecked("bcrt");
    assert!(!bcrt.is_valid_on_mainnet());
    assert!(!bcrt.is_valid_on_testnet());
    assert!(!bcrt.is_valid_on_signet());
    assert!(bcrt.is_valid_on_regtest());
}

#[test]
fn ordering_and_hash() {
    let a = Hrp::parse_unchecked("a");
    let b = Hrp::parse_unchecked("b");
    assert_eq!(a.partial_cmp(&b), Some(core::cmp::Ordering::Less));

    struct Simple(u64);
    impl Hasher for Simple {
        fn finish(&self) -> u64 { self.0 }
        fn write(&mut self, bytes: &[u8]) {
            for &b in bytes {
                self.0 = self.0.wrapping_mul(31).wrapping_add(b as u64);
            }
        }
    }

    let x = Hrp::parse_unchecked("bc");
    let y = Hrp::parse_unchecked("bc");
    let mut h1 = Simple(0);
    let mut h2 = Simple(0);
    x.hash(&mut h1);
    y.hash(&mut h2);
    assert_ne!(h1.finish(), 0);
}

#[test]
fn iterator_next_back() {
    let hrp = Hrp::parse_unchecked("abc");
    let mut char_iter = hrp.char_iter();
    assert_eq!(char_iter.next_back(), Some('c'));

    let mut lower_char = hrp.lowercase_char_iter();
    assert_eq!(lower_char.next_back(), Some('c'));

    let hrp_upper = Hrp::parse_unchecked("ABC");
    let mut lower_byte = hrp_upper.lowercase_byte_iter();
    assert_eq!(lower_byte.next_back(), Some(b'c'));
    assert_eq!(lower_byte.next_back(), Some(b'b'));
    assert_eq!(lower_byte.next_back(), Some(b'a'));

    let mut lower_char_upper = hrp_upper.lowercase_char_iter();
    assert_eq!(lower_char_upper.next_back(), Some('c'));
}

#[test]
fn char_iter_size_hints() {
    let hrp = Hrp::parse_unchecked("test");
    let iter = hrp.char_iter();
    assert_eq!(iter.len(), 4);
    assert_eq!(iter.size_hint(), (4, Some(4)));

    let lower = hrp.lowercase_char_iter();
    assert_eq!(lower.len(), 4);
    assert_eq!(lower.size_hint(), (4, Some(4)));
}

#[test]
fn is_ascii_uppercase_with_non_letter_bytes() {
    // This ensures the lowercase iterator handles non-letter uppercase-range bytes correctly
    let hrp = Hrp::parse_unchecked("A]B");
    let lower_bytes: Vec<u8> = hrp.lowercase_byte_iter().collect();
    assert_eq!(lower_bytes, vec![b'a', b']', b'b']);
}

#[test]
fn error_display_non_empty() {
    let e = Error::Empty;
    assert!(!e.to_string().is_empty());
}

#[test]
fn parse_unchecked_replaces_invalid_bytes() {
    // Bytes < 33 or > 126 are replaced with 'X'
    let hrp = Hrp::parse_unchecked("a\x01b");
    assert_eq!(hrp.as_bytes()[1], b'X');
    // Boundary: byte 33 (!) is valid, byte 126 (~) is valid, byte 127 is invalid
    let hrp = Hrp::parse_unchecked("!\x7f~");
    assert_eq!(hrp.as_bytes()[0], b'!');
    assert_eq!(hrp.as_bytes()[1], b'X');
    assert_eq!(hrp.as_bytes()[2], b'~');
}

#[test]
fn test_parse_display_mixed_case_across_boundaries() {
    let result_lowercase_then_uppercase_static =
        Hrp::parse_display(Pieces::of(&["abc", "DEF"]));
    assert_eq!(
        result_lowercase_then_uppercase_static.unwrap_err(),
        Error::MixedCase,
        "Failed to detect mixed case when lowercase precedes uppercase across boundaries"
    );

    let lower_abc = "abc".to_string();
    let upper_def = "DEF".to_string();
    let result_lowercase_then_uppercase_heap =
        Hrp::parse_display(Pieces::of(&[&lower_abc, &upper_def]));
    assert_eq!(
        result_lowercase_then_uppercase_heap.unwrap_err(),
        Error::MixedCase,
        "Failed to detect mixed case when lowercase precedes uppercase across boundaries"
    );
}

#[test]
fn hash_matches_case_insensitive_eq() {
    // `Hrp`'s `Eq`/`Ord` are case-insensitive, so "BC" and "bc" are equal.
    // The `Hash`/`Eq` contract then requires them to hash identically.
    struct Simple(u64);
    impl Hasher for Simple {
        fn finish(&self) -> u64 { self.0 }
        fn write(&mut self, bytes: &[u8]) {
            for &b in bytes {
                self.0 = self.0.wrapping_mul(31).wrapping_add(b as u64);
            }
        }
    }

    let upper = Hrp::parse_unchecked("BC");
    let lower = Hrp::parse_unchecked("bc");
    assert_eq!(upper, lower);

    let mut h1 = Simple(0);
    let mut h2 = Simple(0);
    upper.hash(&mut h1);
    lower.hash(&mut h2);
    assert_eq!(h1.finish(), h2.finish());
}
