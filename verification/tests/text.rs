use textkit::align::{pad_center, pad_left, pad_right};
use textkit::case::starts_with_ignoring_case;
use textkit::numbers::{
    is_digits, parse_decimal, parse_signed, parse_unsigned, to_decimal, to_octal,
    to_signed_decimal,
};
use textkit::order::{compare, Order};
use textkit::text::{chars_of, find_char, split, split_lines, strip_line_end};
use textkit::trim::trim;

#[test]
fn chars_of_and_find_char() {
    assert_eq!(chars_of("añ\u{10348}"), vec!['a', 'ñ', '\u{10348}']);
    assert!(chars_of("").is_empty());
    let chars = chars_of("a,b,,c");
    assert_eq!(find_char(&chars, ','), 1);
    assert_eq!(find_char(&chars[2..], ','), 1);
    assert_eq!(find_char(&chars[4..], ','), 0);
    assert_eq!(find_char(&chars[5..], ','), 1);
    assert_eq!(find_char(&chars, 'x'), 6);
    assert_eq!(find_char(&[], 'x'), 0);
}

#[test]
fn split_is_the_split_of_strings() {
    for text in ["", ",", "a", "a,b", ",a", "a,", ",,", "a,,b,", "é,ü", "no comma"] {
        let expected: Vec<&str> = text.split(',').collect();
        assert_eq!(split(text, ','), expected, "{:?}", text);
        assert_eq!(split(text, ',').join(","), text);
    }
    assert_eq!(split("a%b%%c", '%'), vec!["a", "b", "", "c"]);
}

#[test]
fn split_lines_keeps_the_ends() {
    assert!(split_lines("").is_empty());
    assert_eq!(split_lines("a"), vec!["a"]);
    assert_eq!(split_lines("a\n"), vec!["a\n"]);
    assert_eq!(split_lines("a\nb"), vec!["a\n", "b"]);
    assert_eq!(split_lines("\n\nb\r\n"), vec!["\n", "\n", "b\r\n"]);
    for text in ["", "a", "a\n", "a\nb", "\n", "\n\nx", "a\r\nb\rc\n", "é\nü"] {
        let lines = split_lines(text);
        assert_eq!(lines.concat(), text);
        let stripped: Vec<String> = lines.iter().map(|l| strip_line_end(l)).collect();
        let expected: Vec<&str> = text.lines().collect();
        assert_eq!(stripped, expected, "{:?}", text);
    }
    assert_eq!(strip_line_end("a\r"), "a\r");
    assert_eq!(strip_line_end("a\r\n"), "a");
    assert_eq!(strip_line_end("a\n\n"), "a\n");
    assert_eq!(strip_line_end("\n"), "");
    assert_eq!(strip_line_end(""), "");
}

#[test]
fn decimal_numbers_are_written_and_read() {
    for n in (0..3000u64).chain([u32::MAX as u64, u64::MAX - 1, u64::MAX]) {
        let text = n.to_string();
        assert_eq!(to_decimal(n), text);
        assert_eq!(parse_decimal(&chars_of(&text), u64::MAX), Some(n));
        assert_eq!(parse_unsigned(&text, u64::MAX), Some(n));
        assert_eq!(parse_unsigned(&format!("+{}", text), u64::MAX), Some(n));
        assert_eq!(to_octal(n), format!("{:o}", n));
    }
    for n in (-1500..1500i64).chain([i64::MIN, i64::MIN + 1, i64::MAX]) {
        let text = n.to_string();
        assert_eq!(to_signed_decimal(n), text);
        assert_eq!(parse_signed(&text, i64::MIN, i64::MAX), Some(n));
    }
}

#[test]
fn parse_decimal_knows_its_limit() {
    assert_eq!(parse_decimal(&chars_of("255"), 255), Some(255));
    assert_eq!(parse_decimal(&chars_of("256"), 255), None);
    assert_eq!(parse_decimal(&chars_of("0000000000000000000000255"), 255), Some(255));
    assert_eq!(parse_decimal(&chars_of("18446744073709551615"), u64::MAX), Some(u64::MAX));
    assert_eq!(parse_decimal(&chars_of("18446744073709551616"), u64::MAX), None);
    assert_eq!(parse_decimal(&chars_of("99999999999999999999999"), u64::MAX), None);
    assert_eq!(parse_decimal(&chars_of("0"), 0), Some(0));
    assert_eq!(parse_decimal(&chars_of("1"), 0), None);
    assert_eq!(parse_decimal(&chars_of(""), 9), None);
    assert_eq!(parse_decimal(&chars_of("+1"), 9), None);
    assert_eq!(parse_decimal(&chars_of("1a"), 9), None);
    assert_eq!(parse_decimal(&chars_of("٣"), 9), None);
}

#[test]
fn parse_signed_keeps_within_its_bounds() {
    assert_eq!(parse_signed("-128", -128, 127), Some(-128));
    assert_eq!(parse_signed("-129", -128, 127), None);
    assert_eq!(parse_signed("127", -128, 127), Some(127));
    assert_eq!(parse_signed("+127", -128, 127), Some(127));
    assert_eq!(parse_signed("128", -128, 127), None);
    assert_eq!(parse_signed("-0", 0, 0), Some(0));
    assert_eq!(parse_signed("-1", 0, 5), None);
    assert_eq!(parse_signed("--1", -5, 5), None);
    assert_eq!(parse_signed("-+1", -5, 5), None);
    assert_eq!(parse_signed("", -5, 5), None);
    assert_eq!(parse_unsigned("-0", 5), None);
    assert_eq!(parse_unsigned("++0", 5), None);
    assert_eq!(parse_unsigned("+", 5), None);
    assert!(is_digits("0123456789"));
    assert!(!is_digits(""));
    assert!(!is_digits("12a"));
    assert!(!is_digits("-1"));
}

#[test]
fn padding_counts_characters() {
    assert_eq!(pad_left("7", 2), " 7");
    assert_eq!(pad_left("17", 2), "17");
    assert_eq!(pad_left("117", 2), "117");
    assert_eq!(pad_left("", 3), "   ");
    assert_eq!(pad_left("é", 3), "  é");
    assert_eq!(pad_right("ab", 5), "ab   ");
    assert_eq!(pad_right("abcdef", 5), "abcdef");
    assert_eq!(pad_center("May", 20), format!("{:^20}", "May"));
    assert_eq!(pad_center("April 2021", 20), format!("{:^20}", "April 2021"));
    assert_eq!(pad_center("ab", 5), " ab  ");
    assert_eq!(pad_center("abc", 2), "abc");
    for width in 0..12 {
        for text in ["", "x", "xy", "héllo", "0123456789ab"] {
            assert_eq!(pad_left(text, width), format!("{:>w$}", text, w = width));
            assert_eq!(pad_right(text, width), format!("{:<w$}", text, w = width));
            assert_eq!(pad_center(text, width), format!("{:^w$}", text, w = width));
        }
    }
}

#[test]
fn trim_is_the_trim_of_strings() {
    let spaces = [
        '\u{9}', '\u{a}', '\u{b}', '\u{c}', '\u{d}', ' ', '\u{85}', '\u{a0}', '\u{1680}',
        '\u{2000}', '\u{2005}', '\u{200a}', '\u{2028}', '\u{2029}', '\u{202f}', '\u{205f}',
        '\u{3000}',
    ];
    for c in spaces {
        assert!(c.is_whitespace());
        assert_eq!(trim(&format!("{}a {} b{}{}", c, c, c, c)), format!("a {} b", c));
        assert_eq!(trim(&c.to_string()), "");
    }
    // Characters next to the white space of Unicode that are none
    for c in ['\u{8}', '\u{e}', '\u{1f}', '\u{84}', '\u{86}', '\u{200b}', '\u{180e}', '\u{feff}'] {
        assert!(!c.is_whitespace());
        assert_eq!(trim(&format!("{} a {}", c, c)), format!("{} a {}", c, c));
    }
    for code in 0..0x3100u32 {
        if let Some(c) = char::from_u32(code) {
            let text = format!("{}x{}", c, c);
            assert_eq!(trim(&text), text.trim(), "{:?}", c);
        }
    }
    assert_eq!(trim(""), "");
    assert_eq!(trim("   "), "");
    assert_eq!(trim("a"), "a");
    assert_eq!(trim("\n a\tb \n"), "a\tb");
}

fn order_of(a: &str, b: &str) -> Order {
    if a < b {
        Order::Before
    } else if a == b {
        Order::Same
    } else {
        Order::After
    }
}

#[test]
fn compare_is_the_order_of_strings() {
    let texts = [
        "", "a", "A", "aa", "ab", "b", "B", "é", "e", "z", "~", "\u{7f}", "\u{80}", "\u{7ff}",
        "\u{800}", "\u{ffff}", "\u{10000}", "\u{10ffff}", "a\u{10000}", "a\u{ffff}", "ab\n", "ab",
    ];
    for a in texts {
        for b in texts {
            assert_eq!(compare(a, b), order_of(a, b), "{:?} {:?}", a, b);
        }
    }
}

#[test]
fn starts_with_ignoring_case_knows_ascii() {
    let name = chars_of("January");
    assert!(starts_with_ignoring_case(&name, &chars_of("jan")));
    assert!(starts_with_ignoring_case(&name, &chars_of("JANUARY")));
    assert!(starts_with_ignoring_case(&name, &chars_of("")));
    assert!(!starts_with_ignoring_case(&name, &chars_of("januaryy")));
    assert!(!starts_with_ignoring_case(&name, &chars_of("jen")));
    // The Kelvin sign is no k
    assert!(!starts_with_ignoring_case(&chars_of("kilo"), &chars_of("\u{212a}")));
    assert!(starts_with_ignoring_case(&chars_of("[x"), &chars_of("[X")));
    assert!(!starts_with_ignoring_case(&chars_of("[x"), &chars_of("{x")));
    assert!(!starts_with_ignoring_case(&chars_of("@"), &chars_of("`")));
}
