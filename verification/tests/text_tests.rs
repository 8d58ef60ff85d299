use festats::text::{
    char_is_whitespace, chars_of, is_list_of_numbers, is_number, parse_integer, split_list,
    str_eq, trim,
};

const SAMPLES: [&str; 60] = [
    "", " ", "0", "5", "5.5", "5.", ".5", ".", "+", "-", "+5", "-5", "+.5", "-.5e3", "1e5", "1E5",
    "1e", "1e+", "1e+5", "1e-5", "e5", "1.e5", ".e5", "1e5.0", "1.5.2", "inf", "-inf", "+infinity",
    "Infinity", "INF", "NaN", "nan", "-nan", "infinit", "infinityy", "na", "1,5", "1 5", " 5",
    "5 ", "0x10", "1_000", "१२", "5f", "--5", "+-5", "١", "00012", "0.000", "1e0005",
    "18446744073709551615", "18446744073709551616", "99999999999999999999999", "１", "+0", "-0",
    "1e", "E", ".E1", "2.5E-10",
];

#[test]
fn numbers_are_those_that_parse_as_floats() {
    for s in SAMPLES {
        assert_eq!(is_number(s), s.parse::<f64>().is_ok(), "{:?}", s);
    }
}

#[test]
fn number_grammar_examples() {
    assert!(is_number("3.14"));
    assert!(is_number("-3.14"));
    assert!(is_number("2.5E10"));
    assert!(is_number("5."));
    assert!(is_number(".5"));
    assert!(is_number("+infinity"));
    assert!(is_number("NaN"));
    assert!(!is_number(""));
    assert!(!is_number("."));
    assert!(!is_number("abc"));
    assert!(!is_number(" 3.14"));
    assert!(!is_number("3.14 "));
    assert!(!is_number("1e"));
}

#[test]
fn integers_are_those_that_parse_as_u64() {
    for s in SAMPLES {
        assert_eq!(parse_integer(s), s.parse::<u64>().ok(), "{:?}", s);
    }
}

#[test]
fn integer_examples() {
    assert_eq!(parse_integer("5"), Some(5));
    assert_eq!(parse_integer("+5"), Some(5));
    assert_eq!(parse_integer("007"), Some(7));
    assert_eq!(parse_integer("18446744073709551615"), Some(u64::MAX));
    assert_eq!(parse_integer("18446744073709551616"), None);
    assert_eq!(parse_integer("5.5"), None);
    assert_eq!(parse_integer("5."), None);
    assert_eq!(parse_integer("-5"), None);
    assert_eq!(parse_integer(" 5"), None);
    assert_eq!(parse_integer(""), None);
    assert_eq!(parse_integer("+"), None);
}

#[test]
fn trim_removes_white_space_at_both_ends() {
    for s in ["", " ", "  5  ", "\t5\n", "a b", " a b ", "\u{a0}x\u{3000}", "x", "\r\n", " µ "] {
        assert_eq!(trim(s), s.trim(), "{:?}", s);
    }
    assert_eq!(trim("  12.5 "), "12.5");
    assert_eq!(trim(" a  b "), "a  b");
}

#[test]
fn chars_are_kept_in_order() {
    assert_eq!(chars_of("χ2 Pdf"), vec!['χ', '2', ' ', 'P', 'd', 'f']);
    assert_eq!(chars_of(""), Vec::<char>::new());
}

#[test]
fn lists_split_on_commas() {
    assert_eq!(split_list("1,2,3"), vec!["1", "2", "3"]);
    assert_eq!(split_list(""), vec![""]);
    assert_eq!(split_list(","), vec!["", ""]);
    assert_eq!(split_list("1, 2,"), vec!["1", " 2", ""]);
    assert_eq!(split_list("abc"), vec!["abc"]);
    for s in ["1,2,3", "", ",", ",,", "a,b", "1, 2,", "λ,µ,,σ"] {
        let expected: Vec<String> = s.split(',').map(|p| p.to_string()).collect();
        assert_eq!(split_list(s), expected, "{:?}", s);
    }
}

#[test]
fn lists_of_numbers() {
    assert!(is_list_of_numbers("1,2,3"));
    assert!(is_list_of_numbers(" 1.5 , -2e3 ,+.5"));
    assert!(is_list_of_numbers("7"));
    assert!(!is_list_of_numbers(""));
    assert!(!is_list_of_numbers("1,,2"));
    assert!(!is_list_of_numbers("1,2,"));
    assert!(!is_list_of_numbers("1,a"));
    assert!(!is_list_of_numbers("1 2"));
}

fn words(alphabet: &[char], longest: usize) -> Vec<String> {
    let mut all = vec![String::new()];
    let mut last = vec![String::new()];
    for _ in 0..longest {
        let mut next = Vec::new();
        for word in &last {
            for c in alphabet {
                let mut longer = word.clone();
                longer.push(*c);
                next.push(longer);
            }
        }
        all.extend(next.iter().cloned());
        last = next;
    }
    all
}

#[test]
fn number_grammar_agrees_with_float_parsing_on_short_texts() {
    let alphabet = ['0', '7', '+', '-', '.', 'e', 'E', ' ', 'x'];
    for word in words(&alphabet, 5) {
        assert_eq!(is_number(&word), word.parse::<f64>().is_ok(), "{:?}", word);
    }
}

#[test]
fn special_words_agree_with_float_parsing() {
    let alphabet = ['i', 'n', 'f', 'a', 'N', 'I', '-', '1'];
    for word in words(&alphabet, 4) {
        assert_eq!(is_number(&word), word.parse::<f64>().is_ok(), "{:?}", word);
    }
    for word in [
        "infinity",
        "INFINITY",
        "+Infinity",
        "-iNfInItY",
        "infinit",
        "infinitye",
        "infinity1",
        "1infinity",
        "nan1",
        "inf.",
        "ınf",
        "İnf",
        "infınity",
    ] {
        assert_eq!(is_number(word), word.parse::<f64>().is_ok(), "{:?}", word);
    }
}

#[test]
fn integer_grammar_agrees_with_integer_parsing_on_short_texts() {
    let alphabet = ['0', '1', '9', '+', '-', '.', ' ', '_'];
    for word in words(&alphabet, 5) {
        assert_eq!(parse_integer(&word), word.parse::<u64>().ok(), "{:?}", word);
    }
    for word in [
        "18446744073709551614",
        "18446744073709551615",
        "18446744073709551616",
        "18446744073709551620",
        "+18446744073709551615",
        "000000000000000000000000000018446744073709551615",
        "28446744073709551615",
        "184467440737095516150",
    ] {
        assert_eq!(parse_integer(word), word.parse::<u64>().ok(), "{:?}", word);
    }
}

fn is_listed_white_space(c: char) -> bool {
    matches!(
        c as u32,
        0x0009..=0x000D
            | 0x0020
            | 0x0085
            | 0x00A0
            | 0x1680
            | 0x2000..=0x200A
            | 0x2028
            | 0x2029
            | 0x202F
            | 0x205F
            | 0x3000
    )
}

#[test]
fn white_space_is_the_listed_characters_and_no_other() {
    let mut count = 0;
    for code in 0..=0x10FFFFu32 {
        if let Some(c) = char::from_u32(code) {
            assert_eq!(c.is_whitespace(), is_listed_white_space(c), "{:?}", c);
            assert_eq!(char_is_whitespace(c), c.is_whitespace(), "{:?}", c);
            let padded = format!("{}x{}", c, c);
            let expected = if is_listed_white_space(c) { "x" } else { padded.as_str() };
            assert_eq!(trim(&padded), expected, "{:?}", c);
            if is_listed_white_space(c) {
                count += 1;
            }
        }
    }
    assert_eq!(count, 25);
}

#[test]
fn texts_are_equal_when_their_characters_are() {
    let texts = ["", " ", "a", "b", "ab", "ba", "abc", "χ2 Pdf", "χ2 Cdf", "x̄", "x", "A", "a "];
    for a in texts {
        for b in texts {
            assert_eq!(str_eq(a, b), a == b, "{:?} {:?}", a, b);
        }
    }
}
