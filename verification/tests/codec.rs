use vine::codec::{
    be_bytes, be_number, frame, get_text, get_varint, put_text, put_varint, to_signed, to_unsigned,
    ReadError,
};
use vine::ordering::sort_texts;
use vine::table::Table;
use vine::text::{
    decimal_i32, decimal_u64, first_word, join, parse_u16, split_at_each, split_at_last,
    split_words, strip_suffix, trim,
};

#[test]
fn varints_read_back() {
    for (n, bytes) in [
        (0, vec![0]),
        (127, vec![127]),
        (128, vec![0x80, 1]),
        (25565, vec![0xdd, 0xc7, 1]),
        (i32::MAX, vec![0xff, 0xff, 0xff, 0xff, 7]),
        (-1, vec![0xff, 0xff, 0xff, 0xff, 15]),
        (i32::MIN, vec![0x80, 0x80, 0x80, 0x80, 8]),
    ] {
        let mut out = vec![9];
        put_varint(&mut out, n);
        assert_eq!(&out[1..], &bytes[..]);
        assert_eq!(get_varint(&out, 1), Ok((n, out.len())));
    }
    assert_eq!(get_varint(&[0x80], 0), Err(ReadError::Incomplete));
    assert_eq!(get_varint(&[0x80; 6], 0), Err(ReadError::TooLarge));
    assert_eq!(to_signed(to_unsigned(-5) as u64), -5);
}

#[test]
fn texts_read_back() {
    let mut out = Vec::new();
    assert!(put_text(&mut out, "h\u{e9}"));
    assert_eq!(out, vec![3, b'h', 0xc3, 0xa9]);
    assert_eq!(get_text(&out, 0), Ok(("h\u{e9}".to_string(), 4)));
    assert_eq!(get_text(&out[..3], 0), Err(ReadError::Incomplete));
    assert_eq!(get_text(&[1, 0xff], 0), Err(ReadError::NotText));
    let mut long = Vec::new();
    put_varint(&mut long, 40_000);
    long.resize(50_000, b'a');
    assert_eq!(get_text(&long, 0), Err(ReadError::TooLarge));
    for e in [ReadError::Incomplete, ReadError::TooLarge, ReadError::NotText] {
        assert!(!e.message().is_empty());
    }
}

#[test]
fn numbers_read_back() {
    assert_eq!(be_bytes(0x0102, 4), vec![0, 0, 1, 2]);
    assert_eq!(be_number(&[9, 1, 2, 9], 1, 3), 0x0102);
    assert_eq!(frame(300, &[7]), vec![0xac, 2, 7]);
}

#[test]
fn texts_are_taken_apart() {
    assert_eq!(split_at_each("a,,b", ','), vec!["a", "", "b"]);
    assert_eq!(split_at_last("a:b:c", ':'), Some(("a:b".to_string(), "c".to_string())));
    assert_eq!(split_at_last("abc", ':'), None);
    assert_eq!(split_words("  a \t b\n"), vec!["a", "b"]);
    assert_eq!(first_word("  one two"), "one");
    assert_eq!(trim("\u{3000} x \u{85}"), "x");
    assert_eq!(strip_suffix("a.*", ".*").as_deref(), Some("a"));
    assert_eq!(join(&vec!["a".to_string(), "b".to_string()], ", "), "a, b");
    assert_eq!(decimal_u64(u64::MAX), "18446744073709551615");
    assert_eq!(decimal_i32(i32::MIN), "-2147483648");
    for (text, port) in [
        ("25565", Some(25565)),
        ("+7", Some(7)),
        ("007", Some(7)),
        ("65536", None),
        ("", None),
        ("+", None),
        ("-1", None),
        ("1a", None),
    ] {
        assert_eq!(parse_u16(text), port, "{}", text);
        assert_eq!(text.parse::<u16>().ok(), port, "{}", text);
    }
}

#[test]
fn texts_are_sorted_and_tables_are_kept() {
    let list: Vec<String> = ["b", "", "ab", "a", "\u{e9}", "B"].iter().map(|s| s.to_string()).collect();
    let mut expected = list.clone();
    expected.sort();
    assert_eq!(sort_texts(&list), expected);
    let mut table = Table::new();
    table.insert("a".to_string(), "1".to_string());
    table.insert("b".to_string(), "2".to_string());
    table.insert("a".to_string(), "3".to_string());
    assert_eq!(table.len(), 2);
    assert_eq!(table.get("a").map(|s| s.as_str()), Some("3"));
    assert_eq!(table.copied().keys().len(), 2);
    assert_eq!(table.remove("a").as_deref(), Some("3"));
    assert!(!table.contains_key("a"));
    assert_eq!(table.remove("a"), None);
}
