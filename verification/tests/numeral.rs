use remo_e_exporter::numeral::{parse_u8, Numeral};

fn written(text: &str) -> Option<String> {
    Numeral::parse(text).map(|numeral| numeral.as_str().to_string())
}

fn as_float(text: &str) -> Option<f64> {
    Numeral::parse(text).map(|numeral| numeral.as_str().parse().unwrap())
}

#[test]
fn takes_whole_numbers() {
    for text in ["0", "7", "1234", "007", "+12", "-12", "-0"] {
        assert_eq!(written(text), Some(text.to_string()));
    }
}

#[test]
fn takes_fractions() {
    for text in ["123.4", "50.0", "0.001", "5.", ".5", "-0.25", "+.5", "-5."] {
        assert_eq!(written(text), Some(text.to_string()));
    }
}

#[test]
fn takes_exponents() {
    for text in ["1e3", "1E3", "1.5e3", "1.5e-3", "1.5e+3", "2.e1", ".25E2", "1e007", "-1E-0"] {
        assert_eq!(written(text), Some(text.to_string()));
    }
}

#[test]
fn takes_numbers_of_any_length() {
    assert_eq!(as_float("100000000000000000000"), Some(1e20));
    assert_eq!(as_float("1.00000000000000000000"), Some(1.0));
    assert_eq!(as_float("9223372036854775808"), Some(9223372036854775808.0));
    assert_eq!(as_float("92233720368547758.08"), Some(92233720368547758.08));
    assert_eq!(as_float("0.30000000000000000000000000000000000000004"), Some(0.3));
    let long = "1".repeat(400);
    assert_eq!(written(&long), Some(long.clone()));
    assert_eq!(as_float(&long), Some(f64::INFINITY));
}

#[test]
fn takes_exponents_of_any_size() {
    assert_eq!(as_float("1e2147483647"), Some(f64::INFINITY));
    assert_eq!(as_float("1e2147483648"), Some(f64::INFINITY));
    assert_eq!(as_float("1e-2147483649"), Some(0.0));
    assert_eq!(as_float("0.1e-2147483648"), Some(0.0));
    assert_eq!(as_float("1e99999999999999999999999999999999999999999999"), Some(f64::INFINITY));
    assert_eq!(as_float("-1e99999999999999999999999999999999999999999999"), Some(f64::NEG_INFINITY));
    assert_eq!(as_float("1e-99999999999999999999999999999999999999999999"), Some(0.0));
}

#[test]
fn takes_the_words_for_what_is_not_finite() {
    for text in [
        "inf", "INF", "Inf", "iNf", "+inf", "-inf", "infinity", "Infinity", "INFINITY", "+infinity",
        "-InFiNiTy", "nan", "NaN", "NAN", "+nan", "-nan", "nAn",
    ] {
        assert_eq!(written(text), Some(text.to_string()), "{:?}", text);
    }
    assert_eq!(as_float("inf"), Some(f64::INFINITY));
    assert_eq!(as_float("-Infinity"), Some(f64::NEG_INFINITY));
    assert!(as_float("NaN").unwrap().is_nan());
}

#[test]
fn refuses_what_is_no_numeral() {
    for text in [
        "", "+", "-", ".", "+.", "e5", ".e5", "abc", "1e", "1e+", "1e-", "1.2.3", "1 ", " 1", "1,5",
        "--1", "+-1", "1e5.0", "1e5e5", "0x10", "1_000", "１２", "1é", "in", "infi", "infinit",
        "infinityy", "na", "nana", "n", "i", "++inf", "inf ", " nan", "1inf", "inf1", "nan.", "ınf",
        "İnf", "nän", "+", "-", "iNF!", "\u{0}", "ianf", "&.&", "INFINITi",
    ] {
        assert_eq!(written(text), None, "{:?}", text);
    }
}

#[test]
fn capitals_are_the_only_other_spelling() {
    let words: [&str; 3] = ["inf", "nan", "infinity"];
    for word in words {
        for at in 0..word.len() {
            for byte in 0..=127u8 {
                let mut bytes = word.as_bytes().to_vec();
                bytes[at] = byte;
                let text = String::from_utf8(bytes).unwrap();
                assert_eq!(written(&text).is_some(), text.parse::<f64>().is_ok(), "{:?}", text);
            }
        }
    }
}

#[test]
fn numerals_are_the_texts_that_floats_are_read_from() {
    let pieces: [&str; 14] = ["", "+", "-", ".", "0", "1", "9", "e", "E", "inf", "nan", "a", " ", "12"];
    for a in pieces {
        for b in pieces {
            for c in pieces {
                for d in pieces {
                    let text = format!("{}{}{}{}", a, b, c, d);
                    assert_eq!(
                        written(&text).is_some(),
                        text.parse::<f64>().is_ok(),
                        "{:?}",
                        text
                    );
                }
            }
        }
    }
}

#[test]
fn numeral_reads_as_the_float_of_its_text() {
    for text in [
        "0", "1", "-1", "+1", "123.4", "50.0", "0.1", "0.01", "0.001", "0.0001", "10", "100", "1000",
        "10000", "1e3", "1E-3", "-2.5e+2", ".5", "5.", "00012.3400", "3.141592653589793",
        "9007199254740993", "0.30000000000000004", "1e308", "1e309", "1e-400", "4.9e-324",
        "179769313486231570", "2.2250738585072014e-308", "100000000000000000000", "inf", "-inf",
    ] {
        assert_eq!(as_float(text), text.parse::<f64>().ok(), "{:?}", text);
    }
}

#[test]
fn copy_of_a_numeral_is_the_same() {
    let numeral = Numeral::parse("123.4").unwrap();
    assert_eq!(numeral.duplicate(), numeral);
    assert_eq!(numeral.duplicate().as_str(), "123.4");
    assert_ne!(Numeral::parse("50.0"), Numeral::parse("50"));
}

#[test]
fn parses_bytes() {
    assert_eq!(parse_u8("0"), Some(0));
    assert_eq!(parse_u8("2"), Some(2));
    assert_eq!(parse_u8("13"), Some(13));
    assert_eq!(parse_u8("255"), Some(255));
    assert_eq!(parse_u8("+7"), Some(7));
    assert_eq!(parse_u8("007"), Some(7));
    assert_eq!(parse_u8("0000255"), Some(255));
}

#[test]
fn rejects_what_is_no_byte() {
    for text in ["", "+", "-1", "256", "1000", "1.0", "a", "0x0A", " 1", "1 ", "++1", "99999999999999999999999999999999999999999"] {
        assert_eq!(parse_u8(text), None, "{:?}", text);
    }
}

#[test]
fn bytes_are_read_as_u8_reads_them() {
    for text in ["0", "9", "10", "255", "256", "+1", "-1", "", "+", "001", "1e1", "12a", "٣", "65535", "65536", "655350"] {
        assert_eq!(parse_u8(text), text.parse::<u8>().ok(), "{:?}", text);
    }
    for number in 0..=70000u32 {
        let text = number.to_string();
        assert_eq!(parse_u8(&text), text.parse::<u8>().ok());
    }
}
