use gopher_client::text::{
    chars_of, is_whitespace_char, parse_number, push_decimal, split_chars, split_lines, string_of,
    trim_chars,
};

fn to_chars(text: &str) -> Vec<char> {
    text.chars().collect()
}

fn to_strings(pieces: Vec<&[char]>) -> Vec<String> {
    pieces.into_iter().map(|piece| piece.iter().collect()).collect()
}

#[test]
fn chars_and_back() {
    assert_eq!(chars_of("a\u{fc}\u{2603}\u{1f600}"), vec!['a', '\u{fc}', '\u{2603}', '\u{1f600}']);
    assert_eq!(chars_of(""), Vec::<char>::new());
    assert_eq!(string_of(&['h', 'i', '\u{2603}']), "hi\u{2603}");
    assert_eq!(string_of(&[]), "");
}

#[test]
fn whitespace_is_what_the_standard_library_says() {
    for code in 0..=0x10ffffu32 {
        if let Some(c) = char::from_u32(code) {
            assert_eq!(is_whitespace_char(c), c.is_whitespace(), "U+{:04X}", code);
        }
    }
}

#[test]
fn trimming_removes_whitespace_at_both_ends_only() {
    let samples = [
        "", " ", "a", " a", "a ", "  a b  ", "\t\r\n x \u{a0}\u{3000}", "\u{2003}", "x\ty",
        "\u{200b}zero width is no space\u{200b}", " \u{85}inner \u{2028} kept\u{2029} ",
    ];
    for sample in samples {
        let chars = to_chars(sample);
        let trimmed: String = trim_chars(&chars).iter().collect();
        assert_eq!(trimmed, sample.trim(), "{:?}", sample);
    }
}

#[test]
fn splitting_gives_one_more_piece_than_separators() {
    assert_eq!(to_strings(split_chars(&to_chars(""), '\t')), vec![""]);
    assert_eq!(to_strings(split_chars(&to_chars("abc"), '\t')), vec!["abc"]);
    assert_eq!(to_strings(split_chars(&to_chars("a\tb"), '\t')), vec!["a", "b"]);
    assert_eq!(to_strings(split_chars(&to_chars("\t"), '\t')), vec!["", ""]);
    assert_eq!(to_strings(split_chars(&to_chars("\ta\t\tb\t"), '\t')), vec!["", "a", "", "b", ""]);
    assert_eq!(to_strings(split_chars(&to_chars("/a/b/"), '/')), vec!["", "a", "b", ""]);
}

#[test]
fn splitting_is_what_the_standard_library_does() {
    let samples = ["", "\t", "a", "a\tb\tc", "\t\t", "x\t", "\tx", "a b\tc d", "a/b\tc/d"];
    for sample in samples {
        for sep in ['\t', '/', ' '] {
            let expected: Vec<String> = sample.split(sep).map(str::to_string).collect();
            assert_eq!(to_strings(split_chars(&to_chars(sample), sep)), expected);
        }
    }
}

#[test]
fn lines_are_what_the_standard_library_gives() {
    let samples = [
        "", "\n", "\r\n", "\r", "a", "a\n", "a\r\n", "a\r", "a\nb", "a\r\nb\r\n", "a\n\nb",
        "a\r\n\r\nb", "\n\n", "a\r\r\n", "\ra\n", "a\n\r", "a\rb\nc", "one\ntwo\r\nthree",
        "\r\n\r\n\r\n", "x\n\r\n",
    ];
    for sample in samples {
        let expected: Vec<String> = sample.lines().map(str::to_string).collect();
        assert_eq!(to_strings(split_lines(&to_chars(sample))), expected, "{:?}", sample);
    }
}

#[test]
fn numbers_within_the_limit() {
    assert_eq!(parse_number(&to_chars("0"), 0), Some(0));
    assert_eq!(parse_number(&to_chars("1"), 0), None);
    assert_eq!(parse_number(&to_chars("70"), 65535), Some(70));
    assert_eq!(parse_number(&to_chars("65535"), 65535), Some(65535));
    assert_eq!(parse_number(&to_chars("65536"), 65535), None);
    assert_eq!(parse_number(&to_chars("+007"), 7), Some(7));
    assert_eq!(parse_number(&to_chars("18446744073709551615"), u64::MAX), Some(u64::MAX));
    assert_eq!(parse_number(&to_chars("18446744073709551616"), u64::MAX), None);
    assert_eq!(parse_number(&to_chars("99999999999999999999"), u64::MAX), None);
    assert_eq!(parse_number(&to_chars("255"), 255), Some(255));
    assert_eq!(parse_number(&to_chars("256"), 255), None);
    assert_eq!(parse_number(&to_chars("2560"), 255), None);
}

#[test]
fn text_that_is_no_number() {
    for sample in ["", "+", "-", "-0", "+-1", "1+", "a", "1a", " 1", "1 ", "\u{661}", "1.5"] {
        assert_eq!(parse_number(&to_chars(sample), u64::MAX), None, "{:?}", sample);
    }
}

#[test]
fn numbers_are_read_as_the_standard_library_reads_them() {
    let samples = ["", "+", "0", "00", "+0", "-0", "9", "10", "255", "256", "+255", "0255", "999"];
    for sample in samples {
        assert_eq!(
            parse_number(&to_chars(sample), 255),
            sample.parse::<u8>().ok().map(u64::from),
            "{:?}",
            sample
        );
    }
}

#[test]
fn decimal_digits_are_appended() {
    for n in [0u64, 1, 9, 10, 11, 99, 100, 101, 70, 65535, 1_000_000, u64::MAX] {
        let mut out = String::from("port ");
        push_decimal(&mut out, n);
        assert_eq!(out, format!("port {}", n));
    }
}

#[test]
fn written_numbers_read_back() {
    for n in [0u64, 5, 10, 70, 255, 65535, 65536, u64::MAX] {
        let mut out = String::new();
        push_decimal(&mut out, n);
        assert_eq!(parse_number(&to_chars(&out), u64::MAX), Some(n));
    }
}
