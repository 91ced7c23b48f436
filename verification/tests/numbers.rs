use query_gguf::decimal::is_float_chars;
use query_gguf::number::{
    parse_bool_chars, parse_i32_chars, parse_usize_chars, render_bool_chars, render_i32, render_u64,
};

fn chars(s: &str) -> Vec<char> {
    s.chars().collect()
}

fn text(v: Vec<char>) -> String {
    v.into_iter().collect()
}

const SAMPLES: [&str; 40] = [
    "", "0", "7", "40", "007", "+5", "-5", "+", "-", "--1", "+-1", "1-", " 1", "1 ", "1_000",
    "12a", "a12", "2147483647", "2147483648", "-2147483648", "-2147483649", "4294967295",
    "4294967296", "18446744073709551615", "18446744073709551616", "99999999999999999999999999",
    "000000000000000000000000000001", "-0", "+0", "0x10", "1e3", "1.0", "٣", "１", "abc", "+00012",
    "-00012", "9223372036854775807", "9223372036854775808", "\u{0}",
];

#[test]
fn usize_is_read_as_std_reads_it() {
    for s in SAMPLES {
        assert_eq!(parse_usize_chars(&chars(s)), s.parse::<usize>().ok(), "{:?}", s);
    }
}

#[test]
fn i32_is_read_as_std_reads_it() {
    for s in SAMPLES {
        assert_eq!(parse_i32_chars(&chars(s)), s.parse::<i32>().ok(), "{:?}", s);
    }
}

#[test]
fn usize_exact_values() {
    assert_eq!(parse_usize_chars(&chars("42")), Some(42));
    assert_eq!(parse_usize_chars(&chars("+42")), Some(42));
    assert_eq!(parse_usize_chars(&chars("-42")), None);
    assert_eq!(parse_usize_chars(&chars("")), None);
}

#[test]
fn i32_exact_values() {
    assert_eq!(parse_i32_chars(&chars("-2147483648")), Some(i32::MIN));
    assert_eq!(parse_i32_chars(&chars("2147483647")), Some(i32::MAX));
    assert_eq!(parse_i32_chars(&chars("2147483648")), None);
    assert_eq!(parse_i32_chars(&chars("abc")), None);
}

#[test]
fn bool_is_read_exactly() {
    assert_eq!(parse_bool_chars(&chars("true")), Some(true));
    assert_eq!(parse_bool_chars(&chars("false")), Some(false));
    for s in ["", "True", "TRUE", "1", "0", "yes", " true", "true ", "truee", "fals"] {
        assert_eq!(parse_bool_chars(&chars(s)), s.parse::<bool>().ok(), "{:?}", s);
        assert_eq!(parse_bool_chars(&chars(s)), None);
    }
}

#[test]
fn integers_are_written_as_std_writes_them() {
    for v in [0, 1, 9, 10, 11, 99, 100, 2000, -1, -10, -2000, i32::MAX, i32::MIN, i32::MIN + 1] {
        assert_eq!(text(render_i32(v)), v.to_string());
    }
    for v in [0u64, 5, 10, 12345, u64::MAX] {
        assert_eq!(text(render_u64(v)), v.to_string());
    }
    assert_eq!(text(render_bool_chars(true)), "true");
    assert_eq!(text(render_bool_chars(false)), "false");
}

#[test]
fn written_integers_read_back() {
    for v in [0, 7, -7, 40, 2000, i32::MAX, i32::MIN] {
        assert_eq!(parse_i32_chars(&render_i32(v)), Some(v));
    }
    for v in [0usize, 1, 10, 123456789] {
        assert_eq!(parse_usize_chars(&render_u64(v as u64)), Some(v));
    }
}

const FLOAT_SAMPLES: [&str; 64] = [
    "", "0", "0.8", "0.9", "1", "1.", ".5", ".", "+", "-", "+.5", "-.5", "+.", "1e5", "1E5", "1e",
    "1e+", "1e-", "1e+5", "1e-5", "e5", ".e5", "1.e5", "1.5e10", "1.5e1.0", "1e5x", "inf", "INF",
    "Inf", "+inf", "-inf", "infinity", "Infinity", "INFINITY", "infinit", "infinityy", "nan", "NaN",
    "NAN", "+nan", "-nan", "nane", "na", " 1", "1 ", "1,5", "1_0", "0x10", "--1", "+-1", "1.2.3",
    "abc", "1f", "1.0f32", "00.00", "123456789012345678901234567890", "1e999", "1e-999", "١", "1..",
    "..1", "e", "E5", "in",
];

#[test]
fn float_literals_are_those_that_std_reads() {
    for s in FLOAT_SAMPLES {
        assert_eq!(is_float_chars(&chars(s)), s.parse::<f32>().is_ok(), "{:?}", s);
        assert_eq!(is_float_chars(&chars(s)), s.parse::<f64>().is_ok(), "{:?}", s);
    }
}

#[test]
fn float_literal_examples() {
    assert!(is_float_chars(&chars("0.8")));
    assert!(is_float_chars(&chars("-1.5e-3")));
    assert!(!is_float_chars(&chars("abc")));
    assert!(!is_float_chars(&chars("")));
    assert!(!is_float_chars(&chars("0.8|x")));
}
