use go_modules::text::{
    chars_of, contains, digit_of, has_ending, join_chars, push_decimal, read_u8, same_text,
    split_chars, string_of,
};

fn chars(text: &str) -> Vec<char> {
    text.chars().collect()
}

#[test]
fn characters_of_a_string() {
    assert_eq!(chars_of("aä€😀b"), vec!['a', 'ä', '€', '😀', 'b']);
    assert_eq!(chars_of(""), Vec::<char>::new());
    assert_eq!(string_of(&['a', 'ä', '€', '😀', 'b']), "aä€😀b");
}

#[test]
fn split_agrees_with_the_standard_library() {
    for text in ["", ":", "a", "a:b", ":a", "a:", "::", "a::b:", "1:2:3:4:5:6:7:8"] {
        let expected: Vec<Vec<char>> = text.split(':').map(chars).collect();
        assert_eq!(split_chars(&chars(text), ':'), expected, "{:?}", text);
    }
}

#[test]
fn join_puts_the_separator_between_the_pieces() {
    assert_eq!(join_chars(&vec![], ':'), chars(""));
    assert_eq!(join_chars(&vec![chars("a")], ':'), chars("a"));
    assert_eq!(join_chars(&vec![chars(""), chars("")], ':'), chars(":"));
    assert_eq!(join_chars(&vec![chars("a"), chars(""), chars("bc")], ':'), chars("a::bc"));
    for text in ["", ":", "a:b", "::x::"] {
        assert_eq!(join_chars(&split_chars(&chars(text), ':'), ':'), chars(text));
    }
}

#[test]
fn bytes_are_read_as_the_standard_library_reads_them() {
    for text in [
        "0", "7", "007", "255", "256", "0255", "+0", "+255", "+256", "", "+", "++1", "-0", "1 ",
        " 1", "1_0", "0x10", "99999999999999999999", "٣", "１",
    ] {
        assert_eq!(read_u8(&chars(text)), text.parse::<u8>().ok(), "{:?}", text);
    }
    for n in 0..=300u32 {
        let text = n.to_string();
        assert_eq!(read_u8(&chars(&text)), text.parse::<u8>().ok());
    }
}

#[test]
fn digits() {
    assert_eq!(digit_of('0'), Some(0));
    assert_eq!(digit_of('9'), Some(9));
    assert_eq!(digit_of('a'), None);
    assert_eq!(digit_of('/'), None);
    assert_eq!(digit_of(':'), None);
    let mut text = String::from("x");
    push_decimal(&mut text, 1234567890);
    assert_eq!(text, "x1234567890");
}

#[test]
fn numbers_in_decimal() {
    for n in [0u32, 1, 9, 10, 11, 99, 100, 255, 256, 1000, 65535, 4294967295, 1000000000] {
        let mut text = String::from("n=");
        push_decimal(&mut text, n);
        assert_eq!(text, format!("n={}", n));
    }
}

#[test]
fn search_in_text() {
    assert!(contains(&chars("inactive"), &chars("in")));
    assert!(contains(&chars("begin"), &chars("in")));
    assert!(!contains(&chars("active"), &chars("in")));
    assert!(contains(&chars("abc"), &chars("")));
    assert!(contains(&chars(""), &chars("")));
    assert!(!contains(&chars(""), &chars("a")));
    assert!(!contains(&chars("ab"), &chars("abc")));
    assert!(contains(&chars("aab"), &chars("ab")));
    assert!(has_ending(&chars("x.srec"), &chars(".srec")));
    assert!(has_ending(&chars(".srec"), &chars(".srec")));
    assert!(!has_ending(&chars("srec"), &chars(".srec")));
    assert!(!has_ending(&chars("x.srec.bak"), &chars(".srec")));
    assert!(same_text(&chars("all"), &chars("all")));
    assert!(!same_text(&chars("all"), &chars("al")));
    assert!(!same_text(&chars("all"), &chars("alL")));
    assert!(same_text(&chars(""), &chars("")));
}
