use lcr::text::{
    centered, contains_text, decimal, is_whitespace, same_text, second_word, signed_decimal,
    to_chars,
};

#[test]
fn decimal_agrees_with_the_standard_rendering() {
    for n in [0u64, 1, 9, 10, 11, 99, 100, 101, 254, 255, 1000, 17515, 4294967295, u64::MAX] {
        assert_eq!(decimal(n), n.to_string());
    }
    for n in 0u64..2000 {
        assert_eq!(decimal(n), n.to_string());
    }
}

#[test]
fn signed_decimal_agrees_with_the_standard_rendering() {
    for n in [0i64, 1, -1, 9, -9, 10, -10, 12345, -12345, i64::MAX, i64::MIN, i64::MIN + 1] {
        assert_eq!(signed_decimal(n), n.to_string());
    }
}

#[test]
fn same_text_compares_characters() {
    assert!(same_text("", ""));
    assert!(same_text("GET", "GET"));
    assert!(!same_text("GET", "get"));
    assert!(!same_text("GET", "GET "));
    assert!(!same_text("", "a"));
}

#[test]
fn to_chars_lists_every_character() {
    assert_eq!(to_chars("héllo"), vec!['h', 'é', 'l', 'l', 'o']);
    assert_eq!(to_chars(""), Vec::<char>::new());
}

#[test]
fn contains_text_agrees_with_the_standard_search() {
    let haystacks = ["", "a", "DNC", "xDNC", "DNCx", "D NC", "dnc", "aDNaDNC", "DDNC", "é DNC é"];
    let needles = ["", "D", "DNC", "NC", "x", "DNCx", "é"];
    for haystack in haystacks {
        for needle in needles {
            assert_eq!(contains_text(haystack, needle), haystack.contains(needle));
        }
    }
}

#[test]
fn whitespace_agrees_with_the_standard_property() {
    for code in 0u32..=0x10FFFF {
        if let Some(c) = char::from_u32(code) {
            assert_eq!(is_whitespace(c), c.is_whitespace());
        }
    }
}

#[test]
fn second_word_agrees_with_the_standard_split() {
    let lines = [
        "",
        " ",
        "GET",
        " GET ",
        "GET /",
        "GET / HTTP/1.1",
        "  GET\t\t/path?x=1  HTTP/1.1\r\n",
        "a\u{2003}b\u{3000}c",
        "\n\nfirst\nsecond",
        "é ü",
    ];
    for line in lines {
        let expected = line.split_whitespace().nth(1).map(|word| word.to_string());
        assert_eq!(second_word(line), expected);
    }
}

#[test]
fn centered_agrees_with_the_standard_alignment() {
    let texts = ["", "M", "Age", "Male", "Count", "Female", "Months", "Running", "Percent", "12345678", "né"];
    for text in texts {
        assert_eq!(centered(text, 7), format!("{:^7}", text));
        assert_eq!(centered(text, 0), format!("{:^0}", text));
        assert_eq!(centered(text, 4), format!("{:^4}", text));
    }
    assert_eq!(centered("Male", 7), " Male  ");
    assert_eq!(centered("12", 7), "  12   ");
}
