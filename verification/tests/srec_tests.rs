use go_modules::srec::{hex_byte, hex_digit, parse_record, split_lines, Record};

#[test]
fn lines_end_at_line_feeds_or_at_the_end() {
    assert_eq!(split_lines(b""), Vec::<Vec<u8>>::new());
    assert_eq!(split_lines(b"abc"), vec![b"abc".to_vec()]);
    assert_eq!(split_lines(b"abc\n"), vec![b"abc".to_vec()]);
    assert_eq!(split_lines(b"a\nb"), vec![b"a".to_vec(), b"b".to_vec()]);
    assert_eq!(split_lines(b"a\nb\n"), vec![b"a".to_vec(), b"b".to_vec()]);
    assert_eq!(split_lines(b"\n"), vec![Vec::<u8>::new()]);
    assert_eq!(split_lines(b"\n\n"), vec![Vec::<u8>::new(), Vec::new()]);
    assert_eq!(split_lines(b"a\n\n"), vec![b"a".to_vec(), Vec::new()]);
    assert_eq!(split_lines(b"a\r\nb"), vec![b"a\r".to_vec(), b"b".to_vec()]);
}

#[test]
fn split_lines_agrees_with_std_split_terminator() {
    for text in [
        "",
        "\n",
        "S0030000FC",
        "S0030000FC\n",
        "S0030000FC\nS3050000000AF0\n\nS70500000000FA\n",
        "S0030000FC\nS3050000000AF0\n\nS70500000000FA",
        "\n\n\n",
    ] {
        let expected: Vec<Vec<u8>> =
            text.split_terminator('\n').map(|l| l.as_bytes().to_vec()).collect();
        assert_eq!(split_lines(text.as_bytes()), expected, "{:?}", text);
    }
}

#[test]
fn hex_digits_in_both_cases() {
    assert_eq!(hex_digit(b'0'), Some(0));
    assert_eq!(hex_digit(b'9'), Some(9));
    assert_eq!(hex_digit(b'a'), Some(10));
    assert_eq!(hex_digit(b'F'), Some(15));
    assert_eq!(hex_digit(b'g'), None);
    assert_eq!(hex_digit(b'+'), None);
    assert_eq!(hex_digit(b' '), None);
    assert_eq!(hex_byte(b'f', b'F'), Some(255));
    assert_eq!(hex_byte(b'1', b'0'), Some(16));
    assert_eq!(hex_byte(b'+', b'f'), None);
    assert_eq!(hex_byte(b'0', b'x'), None);
}

#[test]
fn hex_agrees_with_std_on_every_pair_of_digits() {
    let digits = b"0123456789abcdefABCDEF";
    for hi in digits {
        for lo in digits {
            let text = format!("{}{}", *hi as char, *lo as char);
            assert_eq!(hex_byte(*hi, *lo), Some(u8::from_str_radix(&text, 16).unwrap()));
        }
    }
}

#[test]
fn record_is_type_count_and_bytes() {
    let record = parse_record(b"S3050000000AF0").unwrap();
    assert_eq!(record, Record { kind: 3, data: vec![5, 0, 0, 0, 0x0A, 0xF0] });
    let header = parse_record(b"S0030000FC").unwrap();
    assert_eq!(header, Record { kind: 0, data: vec![3, 0, 0, 0xFC] });
    let terminal = parse_record(b"S70500000000FA").unwrap();
    assert_eq!(terminal.kind, 7);
    assert_eq!(terminal.data, vec![5, 0, 0, 0, 0, 0xFA]);
}

#[test]
fn record_ignores_what_follows_it() {
    let record = parse_record(b"S10100\r").unwrap();
    assert_eq!(record, Record { kind: 1, data: vec![1, 0] });
    let longer = parse_record(b"S10100zz").unwrap();
    assert_eq!(longer, Record { kind: 1, data: vec![1, 0] });
}

#[test]
fn record_does_not_look_at_its_first_character() {
    assert_eq!(parse_record(b"X10100"), Some(Record { kind: 1, data: vec![1, 0] }));
}

#[test]
fn record_with_count_zero_holds_the_count_alone() {
    assert_eq!(parse_record(b"S900"), Some(Record { kind: 9, data: vec![0] }));
}

#[test]
fn lines_that_hold_no_record() {
    assert_eq!(parse_record(b""), None);
    assert_eq!(parse_record(b"S30"), None);
    assert_eq!(parse_record(b"Sx0100"), None);
    assert_eq!(parse_record(b"S1zz00"), None);
    assert_eq!(parse_record(b"S10200"), None);
    assert_eq!(parse_record(b"S1020g00"), None);
    assert_eq!(parse_record(b"S102000"), None);
    assert_eq!(parse_record(b"S1+100"), None);
}

#[test]
fn record_of_the_greatest_count() {
    let mut text = b"S2FF".to_vec();
    for _ in 0..255 {
        text.extend_from_slice(b"A5");
    }
    let record = parse_record(&text).unwrap();
    assert_eq!(record.kind, 2);
    assert_eq!(record.data.len(), 256);
    assert_eq!(record.data[0], 255);
    assert!(record.data[1..].iter().all(|b| *b == 0xA5));
    text.pop();
    assert_eq!(parse_record(&text), None);
}
