use half_line::numeral::{is_number, numeral};

#[test]
fn decimals_are_numbers() {
    for text in [
        "0", "1", "42", "007", "1.", "1.5", ".5", "0.0", "-1", "+1", "-.5", "+5.", "1e5", "1E5",
        "1e+5", "1e-5", "1.e1", ".1e1", "1.5e300", "-0", "9999999999999999999999999999", "1e999",
        "0e0", "2E-0003",
    ] {
        assert!(is_number(text), "{text:?}");
    }
}

#[test]
fn the_words_for_infinity_and_nan_are_numbers() {
    for text in [
        "inf", "INF", "Inf", "iNf", "infinity", "Infinity", "INFINITY", "iNfInItY", "nan", "NaN",
        "NAN", "-inf", "+inf", "-infinity", "+Infinity", "-nan", "+NaN",
    ] {
        assert!(is_number(text), "{text:?}");
    }
}

#[test]
fn other_texts_are_not_numbers() {
    for text in [
        "", "+", "-", ".", "+.", "-.", "e", "e5", ".e5", "1e", "1e+", "1e-", "1e5.", "1e5e5",
        "1e.5", "1..", "1.2.3", "..1", "--1", "+-1", "1-", "1+", " 1", "1 ", "1,", "1_000", "0x10",
        "1f", "1d", "in", "infi", "infinit", "infinityy", "infx", "na", "nann", "n", "i", "++inf",
        "inf.", "nan0", "1inf", "\u{661}", "\u{ff11}", "1\u{a0}", "\u{131}nf", "\u{130}nf",
        "\u{212a}", "1e\u{b2}",
    ] {
        assert!(!is_number(text), "{text:?}");
    }
}

#[test]
fn a_number_is_what_the_standard_library_parses() {
    let texts = [
        "", "0", "-0", "+0", "1.5", "1.", ".5", ".", "+.", "1e5", "1e", "e5", "1E+05", "1e-",
        "inf", "INF", "infinity", "infinit", "nan", "NaN", "-nan", "+NAN", "nane", "1,5", " 1",
        "1 ", "1_0", "0x1", "0b1", "1f64", "1.0f", "\u{661}", "\u{ff11}", "1e5.0", "1.5.5", "--1", "+-1",
        "infinity ", "iNF", "InFiNiTy", "i", "n", "\u{6c38}", "\u{0}", "\u{7f}", "1\n",
    ];
    for text in texts {
        assert_eq!(is_number(text), text.parse::<f64>().is_ok(), "{text:?}");
    }
}

#[test]
fn every_short_text_is_a_number_where_the_standard_library_parses_it() {
    let alphabet = ['0', '7', '+', '-', '.', 'e', 'E', 'i', 'n', 'f', 'a', 'N', ' ', ','];
    let mut texts = vec![String::new()];
    let mut from = 0;
    for _ in 0..5 {
        let upto = texts.len();
        for k in from..upto {
            for c in alphabet {
                let mut text = texts[k].clone();
                text.push(c);
                texts.push(text);
            }
        }
        from = upto;
    }
    assert_eq!(texts.len(), 579195);
    for text in &texts {
        assert_eq!(is_number(text), text.parse::<f64>().is_ok(), "{text:?}");
    }
}

#[test]
fn every_text_near_the_word_infinity_is_a_number_where_the_standard_library_parses_it() {
    let letters = ['i', 'n', 'f', 'i', 'n', 'i', 't', 'y'];
    let others = ['I', 'N', 'F', 'T', 'Y', 'x', '1', '\u{131}', '\u{130}'];
    for sign in ["", "+", "-", "++"] {
        for length in 0..=9 {
            for at in 0..=length {
                for other in others {
                    let mut text: String = sign.to_string();
                    for k in 0..length {
                        text.push(if k == at { other } else { letters[k % 8] });
                    }
                    assert_eq!(is_number(&text), text.parse::<f64>().is_ok(), "{text:?}");
                }
            }
        }
    }
}

#[test]
fn every_double_is_written_as_a_number() {
    let mut bits: u64 = 3;
    for _ in 0..20000 {
        bits = bits.wrapping_mul(6364136223846793005).wrapping_add(1442695040888963407);
        let value = f64::from_bits(bits);
        assert!(is_number(&value.to_string()), "{value:?}");
        assert!(is_number(&format!("{value:e}")), "{value:e}");
        assert!(is_number(&format!("{value:?}")), "{value:?}");
        assert!(is_number(&format!("{value:+.3}")), "{value:+.3}");
    }
}

#[test]
fn chars_are_tested_as_the_text_is() {
    for text in ["1.5", "-inf", "x", "", "1e"] {
        let chars: Vec<char> = text.chars().collect();
        assert_eq!(numeral(&chars), is_number(text), "{text:?}");
    }
}
