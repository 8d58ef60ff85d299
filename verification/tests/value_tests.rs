use festats::value::number_equals;

fn words(alphabet: &[char], longest: usize) -> Vec<String> {
    let mut all = vec![String::new()];
    let mut last = vec![String::new()];
    for _ in 0..longest {
        let mut next = Vec::new();
        for word in &last {
            for c in alphabet {
                let mut longer = word.clone();
                longer.push(*c);
                next.push(longer);
            }
        }
        all.extend(next.iter().cloned());
        last = next;
    }
    all
}

/// On texts this short the nearest float is the exact value wherever the
/// value is a small whole number above zero.
fn float_equals(text: &str, n: u64) -> bool {
    match text.parse::<f64>() {
        Ok(value) => value == n as f64,
        Err(_) => false,
    }
}

#[test]
fn value_agrees_with_float_parsing_on_short_texts() {
    let alphabet = ['0', '9', '5', '.', 'e', '+', '-', '1', '2'];
    for word in words(&alphabet, 6) {
        for n in [9u64, 90, 95, 99, 100, 950] {
            assert_eq!(number_equals(&word, n), float_equals(&word, n), "{:?} {}", word, n);
        }
    }
}

#[test]
fn zero_agrees_with_float_parsing_where_no_exponent_is_written() {
    let alphabet = ['0', '9', '.', '+', '-'];
    for word in words(&alphabet, 6) {
        assert_eq!(number_equals(&word, 0), float_equals(&word, 0), "{:?}", word);
    }
    assert!(!number_equals("9e-900", 0));
}

#[test]
fn one_value_has_many_texts() {
    for text in ["90", "90.0", "+90", "090", "9e1", "9E1", "9e+1", "0.9e2", "900e-1", "90."] {
        assert!(number_equals(text, 90), "{:?}", text);
        assert!(!number_equals(text, 9), "{:?}", text);
        assert!(!number_equals(text, 900), "{:?}", text);
    }
    for text in ["1200", "12e2", "1.2e3", "0.12E4", "120000e-2", "+1200.000", "12000.e-1"] {
        assert!(number_equals(text, 1200), "{:?}", text);
        assert!(!number_equals(text, 12), "{:?}", text);
    }
}

#[test]
fn zero_is_zero_however_written() {
    for text in ["0", "-0", "+0", "0.0", ".0", "0.", "000", "0e5", "-0.00e-7", "0e99999999999999"] {
        assert!(number_equals(text, 0), "{:?}", text);
        assert!(!number_equals(text, 1), "{:?}", text);
    }
    for text in ["1", "0.1", "1e-400", "-1", "", "-", "zero", "inf", "nan"] {
        assert!(!number_equals(text, 0), "{:?}", text);
    }
}

#[test]
fn value_is_exact() {
    assert!(number_equals("18446744073709551615", u64::MAX));
    assert!(number_equals("1844674407370955161500e-2", u64::MAX));
    assert!(number_equals("1.8446744073709551615e19", u64::MAX));
    assert!(!number_equals("18446744073709551616", u64::MAX));
    assert!(!number_equals("18446744073709551614", u64::MAX));
    assert!(!number_equals("1.8446744073709551615e20", u64::MAX));
    assert!(number_equals("1e19", 10_000_000_000_000_000_000));
    assert!(!number_equals("1e20", 10_000_000_000_000_000_000));
    assert!(!number_equals("90.000000000000000000000000001", 90));
    assert!(!number_equals("89.999999999999999999999999999", 90));
    assert!(number_equals("0.000000000000000000000000000090e30", 90));
    assert!(number_equals("9e0000000000000000000000000000000000000001", 90));
    assert!(!number_equals("9e1000000000000000000000000000000000000000", 90));
    assert!(!number_equals("9e-1000000000000000000000000000000000000000", 90));
    assert!(!number_equals("-90", 90));
    assert!(!number_equals(" 90", 90));
    assert!(!number_equals("90 ", 90));
}
