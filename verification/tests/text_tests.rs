use dash_pipeline::text::{
    decimal_text, from_chars, parse_clamped, parse_unsigned, same_text, to_chars, trim,
};

#[test]
fn chars_round_trip() {
    let text = "a/é\n🎬";
    assert_eq!(to_chars(text), text.chars().collect::<Vec<char>>());
    assert_eq!(from_chars(&to_chars(text)), text);
    assert_eq!(from_chars(&Vec::new()), "");
}

#[test]
fn same_text_compares_characters() {
    assert!(same_text("av1", "av1"));
    assert!(!same_text("av1", "AV1"));
    assert!(!same_text("av1", "av"));
    assert!(same_text("", ""));
}

#[test]
fn trim_agrees_with_std() {
    let texts = [
        "",
        " ",
        "av1",
        "  av1\n",
        "\t\r\n 12 34 \u{a0}",
        "\u{2003}x\u{3000}",
        "\u{200b}x\u{200b}",
        "\u{85}\u{1680}y\u{2028}\u{2029}",
        " \n ",
        "a b",
    ];
    for text in texts {
        assert_eq!(trim(text), text.trim(), "on {:?}", text);
    }
    assert_eq!(trim("  av1\n"), "av1");
}

#[test]
fn decimal_text_agrees_with_std() {
    for n in [0u64, 1, 9, 10, 11, 99, 100, 101, 4294967295, 4294967296, u64::MAX] {
        assert_eq!(decimal_text(n), n.to_string());
    }
    assert_eq!(decimal_text(10), "10");
    assert_eq!(decimal_text(0), "0");
}

#[test]
fn numbers_within_range_are_read_as_std_reads_them() {
    let texts = [
        "",
        "0",
        "7",
        "42",
        "+42",
        "-42",
        "-0",
        "+0",
        "007",
        "+",
        "-",
        "+-1",
        "--1",
        "1+",
        " 1",
        "1 ",
        "1.0",
        "1e3",
        "0x10",
        "2147483647",
        "-2147483648",
        "+2147483647",
        "00000000000000000000002147483647",
        "１２",
        "१२",
        "1_000",
        "abc",
    ];
    for text in texts {
        assert_eq!(parse_clamped(text), text.parse::<i32>().ok(), "on {:?}", text);
    }
    assert_eq!(parse_clamped("250"), Some(250));
    assert_eq!(parse_clamped("-3"), Some(-3));
}

#[test]
fn numbers_beyond_range_are_brought_to_its_ends() {
    assert_eq!(parse_clamped("2147483648"), Some(i32::MAX));
    assert_eq!(parse_clamped("3000000000"), Some(i32::MAX));
    assert_eq!(parse_clamped("+99999999999999999999999999999999999999999"), Some(i32::MAX));
    assert_eq!(parse_clamped("-2147483649"), Some(i32::MIN));
    assert_eq!(parse_clamped("-99999999999999999999999999999999999999999"), Some(i32::MIN));
    assert_eq!(parse_clamped("99999999999999999999x"), None);
    for text in ["2147483648", "-2147483649", "170141183460469231731687303715884105727"] {
        let exact = text.parse::<i128>().unwrap();
        let nearest = exact.clamp(i32::MIN as i128, i32::MAX as i128) as i32;
        assert_eq!(parse_clamped(text), Some(nearest), "on {:?}", text);
    }
}

#[test]
fn white_space_is_the_unicode_property() {
    let listed = |c: char| {
        let n = c as u32;
        (0x09..=0x0d).contains(&n)
            || n == 0x20
            || n == 0x85
            || n == 0xa0
            || n == 0x1680
            || (0x2000..=0x200a).contains(&n)
            || n == 0x2028
            || n == 0x2029
            || n == 0x202f
            || n == 0x205f
            || n == 0x3000
    };
    let mut seen = 0;
    for n in 0..=0x10ffffu32 {
        if let Some(c) = char::from_u32(n) {
            assert_eq!(c.is_whitespace(), listed(c), "on U+{:04X}", n);
            if listed(c) {
                seen += 1;
                assert_eq!(trim(&format!("{}a{}", c, c)), "a", "on U+{:04X}", n);
            }
        }
    }
    assert_eq!(seen, 25);
    assert_eq!(trim("\u{200b}a\u{feff}"), "\u{200b}a\u{feff}");
}

#[test]
fn parse_unsigned_agrees_with_std() {
    let texts = [
        "", "0", "10", "+10", "-10", "-0", "4294967295", "4294967296", "18446744073709551615",
        "18446744073709551616", "+", "12a", " 12", "0012",
    ];
    for text in texts {
        assert_eq!(
            parse_unsigned(text, u32::MAX as u64),
            text.parse::<u32>().ok().map(|n| n as u64),
            "on {:?}",
            text
        );
        assert_eq!(parse_unsigned(text, u64::MAX), text.parse::<u64>().ok(), "on {:?}", text);
    }
    assert_eq!(parse_unsigned("10", 9), None);
    assert_eq!(parse_unsigned("9", 9), Some(9));
}
