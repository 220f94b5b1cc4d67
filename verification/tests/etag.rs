use etag::buffer::Buffer;
use etag::{EntityTag, FileMeta, FileTime, ParseError, SEED};

#[test]
fn test_etag_from_data() {
    const ZERO: &'static [u8] = b"";
    const FIRST: &'static [u8] = b"12";
    const SECOND: &'static [u8] = b"21";
    const BIG: &'static [u8] = b"123456789123456789123456789";
    const VERY_BIG: &'static [u8] = b"123456789123456789123456789123456789123456789123456789123456789123456789123456789123456789123456789123456789123456789123456789123456789123456789123456789123456789123456789123456789123456789123456789123456789123456789123456789123456789123456789";

    let zero = EntityTag::from_hash(ZERO);
    let zero_two = EntityTag::from_hash(ZERO);
    let first = EntityTag::from_hash(FIRST);
    let first_two = EntityTag::from_hash(FIRST);
    let second = EntityTag::from_hash(SECOND);

    let big = EntityTag::from_hash(BIG);
    let big_two = EntityTag::from_hash(BIG);
    let very_big = EntityTag::from_hash(VERY_BIG);
    let very_big_two = EntityTag::from_hash(VERY_BIG);

    assert_eq!(zero, zero_two);
    assert_eq!(first, first_two);
    assert_ne!(first, second);
    assert_eq!(big, big_two);
    assert_eq!(very_big, very_big_two);
}

#[test]
fn test_etag_size_limit() {
    const MAX: &'static str = "12345678901234567890123456789012345678901234567890123456789012";
    const ABOVE_MAX: &'static str =
        "123456789012345678901234567890123456789012345678901234567890123";
    assert_eq!(MAX.len(), 62);
    assert_eq!(ABOVE_MAX.len(), 63);

    assert_eq!(
        format!("\"{}\"", MAX).parse::<EntityTag>().unwrap(),
        EntityTag::checked_strong(MAX).unwrap()
    );
    assert_eq!(
        format!("\"{}\"", ABOVE_MAX).parse::<EntityTag>().unwrap_err(),
        etag::ParseError::Overflow
    );
}

#[test]
fn test_cmp() {
    const FIRST: &'static str = "FIRST";
    const SECOND: &'static str = "SECOND";

    let etag1 = EntityTag::weak(FIRST);
    let etag2 = EntityTag::weak(FIRST);
    assert!(!etag1.strong_eq(&etag2));
    assert!(etag1.weak_eq(&etag2));
    assert!(etag1.strong_ne(&etag2));
    assert!(!etag1.weak_ne(&etag2));

    let etag1 = EntityTag::weak(FIRST);
    let etag2 = EntityTag::weak(SECOND);
    assert!(!etag1.strong_eq(&etag2));
    assert!(!etag1.weak_eq(&etag2));
    assert!(etag1.strong_ne(&etag2));
    assert!(etag1.weak_ne(&etag2));

    let etag1 = EntityTag::weak(FIRST);
    let etag2 = EntityTag::strong(FIRST);
    assert!(!etag1.strong_eq(&etag2));
    assert!(etag1.weak_eq(&etag2));
    assert!(etag1.strong_ne(&etag2));
    assert!(!etag1.weak_ne(&etag2));

    let etag1 = EntityTag::strong(FIRST);
    let etag2 = EntityTag::strong(FIRST);
    assert!(etag1.strong_eq(&etag2));
    assert!(etag1.weak_eq(&etag2));
    assert!(!etag1.strong_ne(&etag2));
    assert!(!etag1.weak_ne(&etag2));
}

#[test]
fn test_etag_fmt() {
    assert_eq!(EntityTag::strong("foobar").to_text(), "\"foobar\"");
    assert_eq!(EntityTag::strong("").to_text(), "\"\"");
    assert_eq!(EntityTag::weak("weak-etag").to_text(), "W/\"weak-etag\"");
    assert_eq!(EntityTag::weak("\u{0065}").to_text(), "W/\"\x65\"");
    assert_eq!(EntityTag::weak("").to_text(), "W/\"\"");
}

#[test]
fn test_etag_parse_success() {
    assert_eq!(
        "\"foobar\"".parse::<EntityTag>().unwrap(),
        EntityTag::strong("foobar")
    );
    assert_eq!("\"\"".parse::<EntityTag>().unwrap(), EntityTag::strong(""));
    assert_eq!(
        "W/\"weaktag\"".parse::<EntityTag>().unwrap(),
        EntityTag::weak("weaktag")
    );
    assert_eq!(
        "W/\"\x65\x62\"".parse::<EntityTag>().unwrap(),
        EntityTag::weak("\x65\x62")
    );
    assert_eq!("W/\"\"".parse::<EntityTag>().unwrap(), EntityTag::weak(""));
}

#[test]
fn test_etag_parse_failures() {
    assert!("W/\"ろり\"".parse::<EntityTag>().is_err());
    assert!("no-dquotes".parse::<EntityTag>().is_err());
    assert!("w/\"the-first-w-is-case-sensitive\"".parse::<EntityTag>().is_err());
    assert!("".parse::<EntityTag>().is_err());
    assert!("\"unmatched-dquotes1".parse::<EntityTag>().is_err());
    assert!("unmatched-dquotes2\"".parse::<EntityTag>().is_err());
    assert!("matched-\"dquotes\"".parse::<EntityTag>().is_err());
}

#[test]
fn test_parse_error_variants() {
    assert_eq!(
        "W/\"ろり\"".parse::<EntityTag>().unwrap_err(),
        ParseError::NotAscii
    );
    assert_eq!(
        "no-dquotes".parse::<EntityTag>().unwrap_err(),
        ParseError::InvalidFormat
    );
    assert_eq!("".parse::<EntityTag>().unwrap_err(), ParseError::InvalidFormat);
    let above_max_quoted = format!("\"{}\"", "a".repeat(63));
    assert_eq!(
        above_max_quoted.parse::<EntityTag>().unwrap_err(),
        ParseError::Overflow
    );
}

#[test]
fn test_checked_new_errors() {
    assert_eq!(
        EntityTag::checked_new(false, "ろ").unwrap_err(),
        ParseError::NotAscii
    );
    assert_eq!(
        EntityTag::checked_weak("ろ").unwrap_err(),
        ParseError::NotAscii
    );
    let at_max = "a".repeat(62);
    let above_max = "a".repeat(63);
    let tag = EntityTag::checked_strong(&at_max).unwrap();
    assert_eq!(tag.tag(), at_max);
    assert!(!tag.weak);
    assert_eq!(
        EntityTag::checked_strong(&above_max).unwrap_err(),
        ParseError::Overflow
    );
    assert_eq!(
        EntityTag::checked_weak(&above_max).unwrap_err(),
        ParseError::Overflow
    );
}

#[test]
fn test_round_trip() {
    for text in ["", "x", "675af34563dc-tr34", "with space", "a\"b"] {
        for weak in [false, true] {
            let tag = EntityTag::new(weak, text);
            let back = tag.to_text().parse::<EntityTag>().unwrap();
            assert_eq!(back, tag);
            assert_eq!(back.weak, weak);
            assert_eq!(back.tag(), text);
        }
    }
}

#[test]
fn test_from_hash_format() {
    let tag = EntityTag::from_hash(b"12");
    assert!(!tag.weak);
    assert_eq!(tag.to_text(), format!("\"2-{}\"", wy::def_hash(b"12", SEED)));

    let empty = EntityTag::from_hash(b"");
    assert_eq!(empty.tag(), format!("0-{}", wy::def_hash(b"", SEED)));
}

#[test]
fn test_from_file_meta() {
    let meta = FileMeta {
        modified: Some(FileTime { secs: 1234567890, nanos: 42 }),
        size: 4096,
    };
    let tag = EntityTag::from_file_meta(&meta);
    assert_eq!(tag.weak, true);
    assert_eq!(tag.tag(), "1234567890.42-4096");
    assert_eq!(tag.to_text(), "W/\"1234567890.42-4096\"");

    let bare = FileMeta { modified: None, size: 7 };
    let tag = EntityTag::from_file_meta(&bare);
    assert_eq!(tag.weak, true);
    assert_eq!(tag.tag(), "7");
}

#[test]
fn test_buffer_writes() {
    let mut buf = Buffer::new();
    assert_eq!(buf.available_len(), 62);
    assert_eq!(buf.as_str(), "");

    assert!(buf.write_bytes(b"ab"));
    assert!(buf.write_bytes(b""));
    assert!(buf.write_bytes(b"cd"));
    assert_eq!(buf.as_str(), "abcd");
    assert_eq!(buf.available_len(), 58);

    // One byte more than the remaining space: refused, content unchanged.
    let too_much = [b'x'; 59];
    assert!(!buf.write_bytes(&too_much));
    assert_eq!(buf.as_str(), "abcd");
    assert_eq!(buf.available_len(), 58);

    // Exactly the remaining space still fits.
    let just_right = [b'y'; 58];
    assert!(buf.write_bytes(&just_right));
    assert_eq!(buf.available_len(), 0);
    assert_eq!(buf.as_str().len(), 62);
}

#[test]
fn test_parse_error_message() {
    assert_eq!(ParseError::InvalidFormat.message(), "EntityTag uses invalid format");
    assert_eq!(ParseError::NotAscii.message(), "EntityTag uses non-ASCII characters");
    assert_eq!(ParseError::Overflow.message(), "EntityTag size overflows buffer");
}
