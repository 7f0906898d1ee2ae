use aster_ui::number::{graph_samples, number_token_of};
use aster_ui::{place_in_range, Decimal, NumberToken, Placement};

const SAMPLES: &[&str] = &[
    "0", "-0", "+0", "1", "1.", ".5", "0.5", "-.5", "1e3", "1E-3", "1e+3", "12.5e-1", "00012",
    "1.2.3", "", ".", "-", "+", "e5", "1e", "1e+", "5px", " 1", "1 ", "inf", "-inf", "+INF",
    "Infinity", "-infinity", "NaN", "nan", "-nan", "infin", "1_000", "0x10", "1e400", "-1e400",
    "1e-50", "1e-46", "3.4028235e38", "3.4028236e38", "3.40282357e38", "1.0000000596046448",
    "1.00000006", "0.0000000000000000000000000000000000000000000007", "123456789012345678901234567890",
];

/// The decimal's value as `f32::from_str` reads its digits.
fn to_f32(d: &Decimal) -> f32 {
    let mut text = String::new();
    if d.has_minus() {
        text.push('-');
    }
    if d.digits().is_empty() {
        text.push('0');
    }
    for digit in d.digits() {
        text.push(char::from(b'0' + *digit));
    }
    text.push_str(&format!("e{}", d.exponent()));
    text.parse::<f32>().unwrap()
}

#[test]
fn number_tokens_accept_what_f32_parsing_accepts() {
    for sample in SAMPLES {
        let token = number_token_of(sample);
        let parsed = sample.parse::<f32>();
        assert_eq!(token.is_some(), parsed.is_ok(), "{sample:?}");
        match (token, parsed) {
            (Some(NumberToken::Finite(d)), Ok(value)) => {
                assert_eq!(to_f32(&d).to_bits(), value.to_bits(), "{sample:?}");
            }
            (Some(NumberToken::Infinite(negative)), Ok(value)) => {
                assert!(value.is_infinite(), "{sample:?}");
                assert_eq!(negative, value < 0.0, "{sample:?}");
            }
            (Some(NumberToken::NotANumber), Ok(value)) => assert!(value.is_nan(), "{sample:?}"),
            _ => {}
        }
    }
}

#[test]
fn rounding_predicates_agree_with_f32() {
    for sample in SAMPLES {
        let (Some(NumberToken::Finite(d)), Ok(value)) = (number_token_of(sample), sample.parse::<f32>())
        else {
            continue;
        };
        assert_eq!(d.rounds_finite(), value.is_finite(), "{sample:?}");
        assert_eq!(d.rounds_nonzero(), value != 0.0, "{sample:?}");
        assert_eq!(d.rounds_non_negative(), value >= 0.0, "{sample:?}");
        assert_eq!(d.rounds_positive(), value > 0.0, "{sample:?}");
        assert_eq!(d.rounds_at_most_one(), value <= 1.0, "{sample:?}");
    }
}

#[test]
fn decimals_compare_as_numbers() {
    let values = ["-1e2", "-99.5", "-0", "0", "0.001", "1e-2", "0.1", "1", "1.0", "10", "1e1", "99.99"];
    for a in values {
        for b in values {
            let (Some(NumberToken::Finite(x)), Some(NumberToken::Finite(y))) =
                (number_token_of(a), number_token_of(b))
            else {
                panic!("{a} and {b} are numbers");
            };
            let fa: f64 = a.parse().unwrap();
            let fb: f64 = b.parse().unwrap();
            let expected = if fa < fb { -1 } else if fa > fb { 1 } else { 0 };
            assert_eq!(x.compare(&y), expected, "{a} vs {b}");
        }
    }
}

#[test]
fn values_are_placed_in_a_range_and_clamped() {
    let min = Decimal::from_digit_text("0", 0);
    let max = Decimal::from_digit_text("100", 0);
    assert!(matches!(place_in_range("", &min, &max), Placement::Blank));
    assert!(matches!(place_in_range("not-a-number", &min, &max), Placement::NotNumeric));
    assert!(matches!(place_in_range("inf", &min, &max), Placement::NotNumeric));
    assert!(matches!(place_in_range("NaN", &min, &max), Placement::NotNumeric));
    assert!(matches!(place_in_range("-5", &min, &max), Placement::AtOrBelowMin));
    assert!(matches!(place_in_range("0", &min, &max), Placement::AtOrBelowMin));
    assert!(matches!(place_in_range("100", &min, &max), Placement::AtOrAboveMax));
    assert!(matches!(place_in_range("150", &min, &max), Placement::AtOrAboveMax));
    match place_in_range("47.5", &min, &max) {
        Placement::Within(d) => {
            let mut v = 0.0f64;
            for digit in d.digits() {
                v = v * 10.0 + *digit as f64;
            }
            let v = v * 10f64.powi(d.exponent() as i32);
            assert!(!d.has_minus());
            assert!((v - 47.5).abs() < 1e-9, "{v}");
        }
        other => panic!("{other:?}"),
    }
}

#[test]
fn graph_samples_are_comma_separated_finite_numbers() {
    let samples = graph_samples(" 0, 25 ,100,50 ").unwrap();
    let digits: Vec<Vec<u8>> = samples.iter().map(|d| d.digits().to_vec()).collect();
    assert_eq!(samples.len(), 4);
    assert_eq!(digits[1], vec![2u8, 5]);
    assert!(graph_samples("").unwrap().is_empty());
    assert!(graph_samples("   ").unwrap().is_empty());
    assert!(graph_samples("1, nope, 3").is_none());
    assert!(graph_samples("1,,3").is_none());
    assert!(graph_samples("1, inf").is_none());
}
