//! Exact results, edge cases and the laws on concrete values.

use core::cmp::Ordering;
use core::fmt::Write;
use core::hash::{Hash, Hasher};
use std::error::Error as _;

use bech32::primitives::hrp::{ByteFormatter, Error, Hrp, BC, BCRT, INLINE_LEN, MAX_LEN, TB};

struct Record(Vec<Vec<u8>>);

impl Hasher for Record {
    fn finish(&self) -> u64 {
        self.0.len() as u64
    }

    fn write(&mut self, bytes: &[u8]) {
        self.0.push(bytes.to_vec());
    }
}

fn fed(hrp: &Hrp) -> Vec<Vec<u8>> {
    let mut record = Record(Vec::new());
    hrp.hash(&mut record);
    record.0
}

fn in_pieces(pieces: &[&str], max_len: usize) -> Result<Hrp, Error> {
    let mut formatter = ByteFormatter::new(max_len);
    for piece in pieces {
        formatter.write_str(piece).expect("writing never fails");
    }
    formatter.finish()
}

struct Refusing;

impl core::fmt::Display for Refusing {
    fn fmt(&self, f: &mut core::fmt::Formatter<'_>) -> core::fmt::Result {
        f.write_str("bc")?;
        Err(core::fmt::Error)
    }
}

struct Pieces(Vec<&'static str>);

impl core::fmt::Display for Pieces {
    fn fmt(&self, f: &mut core::fmt::Formatter<'_>) -> core::fmt::Result {
        for piece in &self.0 {
            f.write_str(piece)?;
        }
        Ok(())
    }
}

#[test]
fn each_error_has_an_input() {
    assert_eq!(Hrp::parse("").unwrap_err(), Error::Empty);
    assert_eq!(Hrp::parse(&"a".repeat(84)).unwrap_err(), Error::TooLong(84));
    assert_eq!(Hrp::parse("a\u{e9}").unwrap_err(), Error::NonAsciiChar('\u{e9}'));
    assert_eq!(Hrp::parse("a b").unwrap_err(), Error::InvalidAsciiByte(32));
    assert_eq!(Hrp::parse("a\x7fb").unwrap_err(), Error::InvalidAsciiByte(127));
    assert_eq!(Hrp::parse("aB").unwrap_err(), Error::MixedCase);
    assert_eq!(Hrp::parse("Ab").unwrap_err(), Error::MixedCase);
}

#[test]
fn length_counts_bytes_and_comes_first() {
    // 28 characters of 3 bytes each.
    assert_eq!(Hrp::parse(&"\u{2764}".repeat(28)).unwrap_err(), Error::TooLong(84));
    assert_eq!(Hrp::parse(&" ".repeat(100)).unwrap_err(), Error::TooLong(100));
    assert_eq!(Hrp::parse_display(" ".repeat(100)).unwrap_err(), Error::TooLong(100));
}

#[test]
fn boundaries_of_the_printable_range() {
    assert_eq!(Hrp::parse("!~").unwrap().as_bytes(), &[33, 126]);
    assert_eq!(Hrp::parse("\x20").unwrap_err(), Error::InvalidAsciiByte(32));
    assert_eq!(Hrp::parse("\u{80}").unwrap_err(), Error::NonAsciiChar('\u{80}'));
}

#[test]
fn first_fault_is_reported_whatever_the_pieces() {
    assert_eq!(in_pieces(&[" ", "\u{2764}"], MAX_LEN).unwrap_err(), Error::InvalidAsciiByte(32));
    assert_eq!(in_pieces(&["\u{2764}", " "], MAX_LEN).unwrap_err(), Error::NonAsciiChar('\u{2764}'));
    assert_eq!(in_pieces(&["aB", " "], MAX_LEN).unwrap_err(), Error::MixedCase);
    assert_eq!(
        Hrp::parse_display(Pieces(vec![" ", "\u{2764}"])).unwrap_err(),
        Error::InvalidAsciiByte(32)
    );
}

#[test]
fn pieces_make_the_whole() {
    assert_eq!(in_pieces(&["abc", "", "123", "def"], MAX_LEN).unwrap().as_str(), "abc123def");
    assert_eq!(in_pieces(&["abc", "DEF"], MAX_LEN).unwrap_err(), Error::MixedCase);
    assert_eq!(in_pieces(&["ABC", "def"], MAX_LEN).unwrap_err(), Error::MixedCase);
    assert_eq!(in_pieces(&[], MAX_LEN).unwrap_err(), Error::Empty);
    assert_eq!(in_pieces(&["", ""], MAX_LEN).unwrap_err(), Error::Empty);
    let long = "a".repeat(80);
    assert_eq!(in_pieces(&[&long, "abc"], MAX_LEN).unwrap().len(), 83);
    assert_eq!(in_pieces(&[&long, "abcd", " ", ""], MAX_LEN).unwrap_err(), Error::TooLong(85));
    assert_eq!(Hrp::parse_display(Pieces(vec!["ab", "c"])).unwrap().as_str(), "abc");
    assert_eq!(Hrp::parse_display(Pieces(vec![])).unwrap_err(), Error::Empty);
    assert_eq!(Hrp::parse_display('x').unwrap().as_str(), "x");
    assert_eq!(Hrp::parse_display(1234567890).unwrap().as_str(), "1234567890");
    assert_eq!(
        Hrp::parse_display(Pieces(vec!["abc", "DEF"])).unwrap_err(),
        Error::MixedCase
    );
    assert_eq!(
        Hrp::parse_display(Pieces(vec!["a"; 90])).unwrap_err(),
        Error::TooLong(90)
    );
}

#[test]
fn a_limit_of_its_own() {
    assert_eq!(Hrp::parse_within("abcdefg", INLINE_LEN).unwrap().as_str(), "abcdefg");
    assert_eq!(Hrp::parse_within("abc", 2).unwrap_err(), Error::TooLong(3));
    assert_eq!(in_pieces(&["abcd", "efgh"], INLINE_LEN).unwrap_err(), Error::TooLong(8));
    assert!(Hrp::parse_display_within("abcdefg", INLINE_LEN).unwrap().is_inline());
}

#[test]
fn parsing_keeps_the_text() {
    for text in ["a", "BC", "abc123def", "ABC123DEF", "!\"#$%&'()*+,-./", "longer-than-eight"] {
        let hrp = Hrp::parse(text).unwrap();
        assert_eq!(hrp.as_str(), text);
        assert_eq!(hrp.as_bytes(), text.as_bytes());
        assert_eq!(hrp.len(), text.len());
        assert_eq!(Hrp::parse(hrp.as_str()).unwrap().as_bytes(), hrp.as_bytes());
        assert_eq!(Hrp::parse_unchecked(text).as_bytes(), hrp.as_bytes());
    }
}

#[test]
fn unchecked_replaces_each_byte() {
    assert_eq!(Hrp::parse_unchecked("\u{2764}").as_str(), "XXX");
    assert_eq!(Hrp::parse_unchecked("a long one, with blanks").as_str(), "aXlongXone,XwithXblanks");
    assert_eq!(Hrp::parse_unchecked_inline("\u{2764}a b").as_str(), "XXXaXb");
    assert_eq!(Hrp::parse_unchecked("aB").as_str(), "aB");
    assert_eq!(Hrp::parse_unchecked("").len(), 0);
    let once = Hrp::parse_unchecked("a\tb");
    assert_eq!(Hrp::parse_unchecked(once.as_str()).as_bytes(), once.as_bytes());
}

#[test]
fn lower_case() {
    let hrp = Hrp::parse("ABC[123]Z").unwrap();
    assert_eq!(hrp.to_lowercase(), "abc[123]z");
    let lower = Hrp::parse(&hrp.to_lowercase()).unwrap();
    assert_eq!(lower, hrp);
    assert_eq!(lower.to_lowercase(), "abc[123]z");
    assert_eq!(Hrp::parse_unchecked("@AZ[`az{").to_lowercase(), "@az[`az{");
}

#[test]
fn upper_case_parses_to_an_equal_part() {
    let hrp = Hrp::parse("abc[123]z").unwrap();
    let upper = Hrp::parse(&hrp.as_str().to_ascii_uppercase()).unwrap();
    assert_eq!(upper.as_str(), "ABC[123]Z");
    assert_eq!(upper, hrp);
}

#[test]
fn equality_does_not_regard_case() {
    let a = Hrp::parse("bech32").unwrap();
    let b = Hrp::parse("BECH32").unwrap();
    let c = Hrp::parse_unchecked("Bech32");
    assert_eq!(a, a);
    assert_eq!(a, b);
    assert_eq!(b, a);
    assert_eq!(b, c);
    assert_eq!(a, c);
    assert_ne!(a, Hrp::parse("bech3").unwrap());
    assert_ne!(a, Hrp::parse("bech33").unwrap());
    assert_ne!(a.as_bytes(), b.as_bytes());
}

#[test]
fn order_does_not_regard_case() {
    let a = Hrp::parse("A").unwrap();
    let ab = Hrp::parse("ab").unwrap();
    let b = Hrp::parse("B").unwrap();
    let long = Hrp::parse("abcdefghijk").unwrap();
    assert_eq!(a.cmp(&ab), Ordering::Less);
    assert_eq!(ab.cmp(&b), Ordering::Less);
    assert_eq!(a.cmp(&b), Ordering::Less);
    assert_eq!(b.cmp(&a), Ordering::Greater);
    assert_eq!(b.cmp(&Hrp::parse("b").unwrap()), Ordering::Equal);
    assert_eq!(long.partial_cmp(&ab), Some(Ordering::Greater));
    assert!(a < b && ab <= b && b > long && b >= b);
}

#[test]
fn hash_feeds_length_and_lower_case() {
    let upper = Hrp::parse("BC").unwrap();
    assert_eq!(fed(&upper), vec![2usize.to_ne_bytes().to_vec(), vec![98], vec![99]]);
    assert_eq!(fed(&upper), fed(&BC()));
    assert_ne!(fed(&upper), fed(&TB()));
}

#[test]
fn hasher_is_fed_behind_what_it_had() {
    let mut record = Record(Vec::new());
    record.write(&[1]);
    BC().hash(&mut record);
    TB().hash(&mut record);
    let expected: Vec<Vec<u8>> = vec![vec![1]]
        .into_iter()
        .chain(fed(&BC()))
        .chain(fed(&TB()))
        .collect();
    assert_eq!(record.0, expected);
}

#[test]
fn debug_escapes_quotes_and_backslashes() {
    for b in 33u8..=126 {
        let c = b as char;
        let expected = match c {
            '"' => "\"\\\"\"".to_string(),
            '\\' => "\"\\\\\"".to_string(),
            _ => ["\"", &c.to_string(), "\""].concat(),
        };
        assert_eq!(format!("{:?}", Hrp::parse(&c.to_string()).unwrap()), expected);
        assert_eq!(format!("{:#9?}", Hrp::parse(&c.to_string()).unwrap()), expected);
    }
}

#[test]
fn a_value_that_cannot_be_formatted() {
    assert!(Hrp::try_parse_display_within(&Refusing, MAX_LEN).is_none());
    assert_eq!(Hrp::try_parse_display_within(&"bc", MAX_LEN), Some(Ok(BC())));
    assert_eq!(Hrp::try_parse_display_within(&"", MAX_LEN), Some(Err(Error::Empty)));
    assert_eq!(Hrp::try_parse_display_within(&"bcrt", 3), Some(Err(Error::TooLong(4))));
}

#[test]
fn an_empty_part_is_displayed() {
    assert_eq!(Hrp::parse_unchecked("").to_string(), "");
    assert_eq!(format!("{:?}", Hrp::parse_unchecked("")), "\"\"");
}

#[test]
fn networks() {
    for text in ["bc", "BC"] {
        let hrp = Hrp::parse(text).unwrap();
        assert!(hrp.is_valid_segwit());
        assert!(hrp.is_valid_on_mainnet());
        assert!(!hrp.is_valid_on_testnet());
        assert!(!hrp.is_valid_on_regtest());
    }
    assert!(TB().is_valid_segwit());
    assert!(TB().is_valid_on_signet());
    assert!(!BCRT().is_valid_segwit());
    assert!(Hrp::parse_unchecked("bCrT").is_valid_on_regtest());
    assert_eq!(BC().as_str(), "bc");
    assert_eq!(TB().as_str(), "tb");
    assert_eq!(BCRT().as_str(), "bcrt");
}

#[test]
fn iterators_from_both_ends() {
    let hrp = Hrp::parse("ABCDEFGHI").unwrap();
    let mut bytes = hrp.byte_iter();
    assert_eq!(bytes.next(), Some(65));
    assert_eq!(bytes.next_back(), Some(73));
    assert_eq!(bytes.len(), 7);
    assert_eq!(bytes.size_hint(), (7, Some(7)));
    let mut lower = hrp.lowercase_char_iter();
    assert_eq!(lower.next_back(), Some('i'));
    assert_eq!(lower.next(), Some('a'));
    assert_eq!(lower.len(), 7);
    assert_eq!(hrp.char_iter().rev().collect::<String>(), "IHGFEDCBA");
    assert_eq!(hrp.lowercase_byte_iter().collect::<Vec<u8>>(), b"abcdefghi".to_vec());
    let mut one = hrp.char_iter().skip(8);
    assert_eq!(one.next(), Some('I'));
    assert_eq!(one.next(), None);
    assert_eq!(one.next(), None);
    let empty = Hrp::parse_unchecked("");
    assert_eq!(empty.byte_iter().next(), None);
    assert_eq!(empty.byte_iter().next_back(), None);
}

#[test]
fn storage_at_the_limits() {
    for len in [0, 1, 6, 7, 8, 9, 82, 83] {
        let text = "a".repeat(len);
        let hrp = Hrp::parse_unchecked(&text);
        assert_eq!(hrp.is_inline(), len <= INLINE_LEN);
        assert_eq!(hrp.len(), len);
        assert_eq!(hrp.as_str(), text);
        let copy = hrp.clone();
        assert_eq!(copy.is_inline(), hrp.is_inline());
        assert_eq!(copy.as_bytes(), hrp.as_bytes());
    }
}

#[test]
fn display_and_debug() {
    let hrp = Hrp::parse("A\"B\\C").unwrap();
    assert_eq!(format!("{}", hrp), "A\"B\\C");
    assert_eq!(format!("{:?}", hrp), "\"A\\\"B\\\\C\"");
    assert_eq!(format!("{:>9}", hrp), "A\"B\\C");
    assert_eq!(Hrp::parse_display(&hrp).unwrap(), hrp);
}

#[test]
fn error_messages() {
    assert_eq!(
        Error::TooLong(1084).to_string(),
        "hrp is too long, found 1084 characters, must be <= 83"
    );
    assert_eq!(
        Error::TooLong(8).message_within(INLINE_LEN),
        "hrp is too long, found 8 characters, must be <= 7"
    );
    assert_eq!(
        Error::TooLong(usize::MAX).message(),
        format!("hrp is too long, found {} characters, must be <= 83", usize::MAX)
    );
    assert_eq!(Error::Empty.to_string(), "hrp is empty, must have at least 1 character");
    assert_eq!(Error::NonAsciiChar('\u{2764}').to_string(), "found non-ASCII character: \u{2764}");
    for b in [0u8, 9, 10, 15, 16, 32, 127, 159, 160, 255] {
        assert_eq!(
            Error::InvalidAsciiByte(b).to_string(),
            format!("byte value is not valid US-ASCII: '{:x}'", b)
        );
    }
    assert_eq!(Error::MixedCase.to_string(), "hrp cannot mix upper and lower case");
}

#[test]
fn errors_have_no_source() {
    assert!(Error::Empty.source().is_none());
    assert!(Error::TooLong(84).source().is_none());
    assert_eq!(Error::NonAsciiChar('x').clone(), Error::NonAsciiChar('x'));
}
