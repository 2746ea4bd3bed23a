use rojmer::text::{from_chars, insert_char, remove_char, split_trimmed, to_chars, trim_bounds};
use rojmer::Decimal;

fn parts(text: &str) -> Option<(bool, Vec<u8>, usize)> {
    Decimal::parse(text).map(|d| (d.negative, d.digits, d.scale))
}

#[test]
fn parse_reads_sign_digits_and_scale() {
    assert_eq!(parts("100.50"), Some((false, vec![1, 0, 0, 5, 0], 2)));
    assert_eq!(parts("42.00"), Some((false, vec![4, 2, 0, 0], 2)));
    assert_eq!(parts("0"), Some((false, vec![0], 0)));
    assert_eq!(parts("7"), Some((false, vec![7], 0)));
    assert_eq!(parts("-12"), Some((true, vec![1, 2], 0)));
    assert_eq!(parts("+12"), Some((false, vec![1, 2], 0)));
    assert_eq!(parts("-0.25"), Some((true, vec![0, 2, 5], 2)));
    assert_eq!(parts(".5"), Some((false, vec![5], 1)));
    assert_eq!(parts("5."), Some((false, vec![5], 0)));
    assert_eq!(parts("-.5"), Some((true, vec![5], 1)));
    assert_eq!(parts("007.10"), Some((false, vec![0, 0, 7, 1, 0], 2)));
}

#[test]
fn parse_takes_numbers_of_any_length() {
    let text = "123456789012345678901234567890123456789012345678901234567890.5";
    let (negative, digits, scale) = parts(text).unwrap();
    assert!(!negative);
    assert_eq!(digits.len(), 61);
    assert_eq!(scale, 1);
    assert_eq!(Decimal::parse(text).unwrap().to_text(), text);
}

#[test]
fn parse_refuses_what_is_no_decimal_number() {
    for text in [
        "", "+", "-", ".", "+.", "-.", "abc", "1a", "a1", "1.2.3", "1..2", "--1", "+-1", "1-",
        " 1", "1 ", "1,000", "1_000", "1e5", "1E5", "inf", "NaN", "0x10", "\u{663}", "1.5f",
    ] {
        assert!(Decimal::parse(text).is_none(), "{:?} was read", text);
    }
}

#[test]
fn to_text_writes_the_digits_as_they_are() {
    for text in ["100.50", "0", "-12", "-0.25", ".5", "-.5", "007.10", "3.000"] {
        assert_eq!(Decimal::parse(text).unwrap().to_text(), text);
    }
    assert_eq!(Decimal::parse("+12").unwrap().to_text(), "12");
    assert_eq!(Decimal::parse("5.").unwrap().to_text(), "5");
    assert_eq!(Decimal::zero().to_text(), "0");
}

#[test]
fn to_text_is_read_back_as_the_same_number() {
    for text in ["100.50", "0", "-12", "+12", "5.", ".5", "-.5", "007.10"] {
        let first = Decimal::parse(text).unwrap();
        let second = Decimal::parse(&first.to_text()).unwrap();
        assert_eq!(first.negative, second.negative);
        assert_eq!(first.digits, second.digits);
        assert_eq!(first.scale, second.scale);
    }
}

#[test]
fn zero_has_one_digit() {
    let zero = Decimal::zero();
    assert!(!zero.negative);
    assert_eq!(zero.digits, vec![0]);
    assert_eq!(zero.scale, 0);
}

#[test]
fn clone_keeps_every_part() {
    let d = Decimal::parse("-3.25").unwrap();
    let c = d.clone();
    assert_eq!((c.negative, c.digits, c.scale), (true, vec![3, 2, 5], 2));
}

#[test]
fn chars_round_trip() {
    let v = to_chars("a\u{e9}\u{1F600}z");
    assert_eq!(v, vec!['a', '\u{e9}', '\u{1F600}', 'z']);
    assert_eq!(from_chars(&v, 0, 4), "a\u{e9}\u{1F600}z");
    assert_eq!(from_chars(&v, 1, 3), "\u{e9}\u{1F600}");
    assert_eq!(from_chars(&v, 2, 2), "");
    assert!(to_chars("").is_empty());
}

#[test]
fn insert_and_remove_count_characters() {
    assert_eq!(insert_char("", 0, 'x'), "x");
    assert_eq!(insert_char("ac", 1, 'b'), "abc");
    assert_eq!(insert_char("ab", 2, 'c'), "abc");
    assert_eq!(insert_char("\u{e9}\u{e9}", 1, 'x'), "\u{e9}x\u{e9}");
    assert_eq!(remove_char("abc", 0), "bc");
    assert_eq!(remove_char("abc", 2), "ab");
    assert_eq!(remove_char("\u{e9}x\u{1F600}", 2), "\u{e9}x");
    assert_eq!(remove_char("\u{e9}x\u{1F600}", 0), "x\u{1F600}");
}

#[test]
fn trim_bounds_skip_whitespace_at_both_ends() {
    let v = to_chars("  a b\t\n");
    assert_eq!(trim_bounds(&v, 0, v.len()), (2, 5));
    assert_eq!(trim_bounds(&v, 3, v.len()), (4, 5));
    assert_eq!(trim_bounds(&v, 0, 2), (2, 2));
    let v = to_chars("\u{a0}\u{2003}x\u{3000}\u{85}");
    assert_eq!(trim_bounds(&v, 0, v.len()), (2, 3));
    let v = to_chars("\u{200b}x");
    assert_eq!(trim_bounds(&v, 0, v.len()), (0, 2));
}

#[test]
fn whitespace_is_what_std_calls_whitespace() {
    let mut c = '\0';
    loop {
        assert_eq!(rojmer::text::char_is_whitespace(c), c.is_whitespace(), "{:?}", c);
        if c == char::MAX {
            break;
        }
        c = char::from_u32(c as u32 + 1).unwrap_or('\u{e000}');
    }
}

#[test]
fn lower_case_is_what_std_gives_for_ascii() {
    for n in 0u8..=127 {
        let c = n as char;
        assert_eq!(rojmer::text::char_ascii_lower(c), c.to_ascii_lowercase());
    }
    assert_eq!(rojmer::text::char_ascii_lower('\u{c9}'), '\u{c9}');
    assert_eq!(rojmer::text::char_ascii_lower('\u{212a}'), '\u{212a}');
}

#[test]
fn lowercase_equals_ignores_ascii_case_only() {
    assert!(rojmer::text::lowercase_equals(&to_chars("InCome"), "income"));
    assert!(rojmer::text::lowercase_equals(&to_chars(""), ""));
    assert!(!rojmer::text::lowercase_equals(&to_chars("income"), "Income"));
    assert!(!rojmer::text::lowercase_equals(&to_chars("incom"), "income"));
    assert!(!rojmer::text::lowercase_equals(&to_chars("\u{c9}"), "\u{e9}"));
}

#[test]
fn split_gives_one_more_piece_than_separators() {
    assert_eq!(split_trimmed(&to_chars(""), ','), vec![""]);
    assert_eq!(split_trimmed(&to_chars("a"), ','), vec!["a"]);
    assert_eq!(split_trimmed(&to_chars("a,b"), ','), vec!["a", "b"]);
    assert_eq!(split_trimmed(&to_chars(" a , b c ,"), ','), vec!["a", "b c", ""]);
    assert_eq!(split_trimmed(&to_chars(",,"), ','), vec!["", "", ""]);
    assert_eq!(split_trimmed(&to_chars("a;b"), ','), vec!["a;b"]);
    let text = " x ,y,, z";
    let std: Vec<String> = text.split(',').map(|p| p.trim().to_string()).collect();
    assert_eq!(split_trimmed(&to_chars(text), ','), std);
}

#[test]
fn well_formed_numbers_have_digits_within_bounds() {
    assert!(Decimal::zero().is_well_formed());
    assert!(Decimal::parse("-12.50").unwrap().is_well_formed());
    let no_digits = Decimal {
        negative: false,
        digits: vec![],
        scale: 0,
    };
    assert!(!no_digits.is_well_formed());
    let digit_too_large = Decimal {
        negative: false,
        digits: vec![1, 10],
        scale: 0,
    };
    assert!(!digit_too_large.is_well_formed());
    let scale_too_large = Decimal {
        negative: true,
        digits: vec![1, 2],
        scale: 3,
    };
    assert!(!scale_too_large.is_well_formed());
    let all_fractional = Decimal {
        negative: true,
        digits: vec![1, 2],
        scale: 2,
    };
    assert!(all_fractional.is_well_formed());
    assert_eq!(all_fractional.to_text(), "-.12");
}
