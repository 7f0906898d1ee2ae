use aster_ui::{
    Binding, BindingParseError, BindingResolveError, NumberOutcome, NumberTable, Resolution,
    ResolveFailure, ValueMap,
};

/// What the `number(..)` filter's formatting gives for a value text.
fn format_number(raw: &str, precision: usize) -> NumberOutcome {
    match raw.parse::<f64>() {
        Err(_) => NumberOutcome::NotANumber,
        Ok(number) if !number.is_finite() => NumberOutcome::NotFinite,
        Ok(number) => NumberOutcome::Formatted(format!("{number:.precision$}")),
    }
}

/// Resolves a binding, formatting numbers as they are asked for.
fn resolve(binding: &Binding, values: &ValueMap) -> Result<String, BindingResolveError> {
    let mut numbers = NumberTable::new();
    loop {
        match binding.resolve(values, &numbers) {
            Resolution::Resolved(text) => return Ok(text),
            Resolution::Failed(error) => return Err(error),
            Resolution::NeedsNumber { raw, precision } => {
                let outcome = format_number(&raw, precision);
                numbers.insert(raw, precision, outcome);
            }
        }
    }
}

fn values(pairs: &[(&str, &str)]) -> ValueMap {
    let mut map = ValueMap::new();
    for (key, value) in pairs {
        map.insert(key.to_string(), value.to_string());
    }
    map
}

#[test]
fn resolves_multiple_bindings_and_filters() {
    let binding = Binding::parse(
        r#"CPU {{ cpu | number(1) }}%, host {{ hostname | default("unknown") }}"#,
    )
    .unwrap();
    let values = values(&[("cpu", "47.66")]);

    assert_eq!(resolve(&binding, &values).unwrap(), "CPU 47.7%, host unknown");
}

#[test]
fn missing_values_resolve_to_empty_strings() {
    let binding = Binding::parse("{{ missing }}").unwrap();
    assert_eq!(resolve(&binding, &ValueMap::new()).unwrap(), "");
}

#[test]
fn rejects_invalid_syntax_at_parse_time() {
    assert!(Binding::parse("{{ value | unknown }}").is_err());
    assert!(Binding::parse("{{ value").is_err());
    assert!(Binding::parse("{{ value | number(-1) }}").is_err());
}

#[test]
fn rejects_non_numeric_present_values() {
    let binding = Binding::parse("{{ value | number(0) }}").unwrap();
    let values = values(&[("value", "invalid")]);
    assert!(resolve(&binding, &values).is_err());
}

#[test]
fn literal_text_resolves_to_itself() {
    let binding = Binding::parse("plain text, no expressions").unwrap();
    assert_eq!(resolve(&binding, &ValueMap::new()).unwrap(), "plain text, no expressions");
    let empty = Binding::parse("").unwrap();
    assert_eq!(resolve(&empty, &ValueMap::new()).unwrap(), "");
}

#[test]
fn default_applies_to_missing_and_empty_values() {
    let binding = Binding::parse(r#"{{ a | default("x") }}/{{ b | default('y') }}/{{ c | default("z") }}"#).unwrap();
    let values = values(&[("a", ""), ("c", "set")]);
    assert_eq!(resolve(&binding, &values).unwrap(), "x/y/set");
}

#[test]
fn default_strings_understand_escapes() {
    let binding = Binding::parse(r#"{{ a | default("q\"b\\n\nt\t") }}"#).unwrap();
    assert_eq!(resolve(&binding, &ValueMap::new()).unwrap(), "q\"b\\n\nt\t");
}

#[test]
fn number_filter_rounds_to_the_precision() {
    let binding = Binding::parse("{{ v | number(0) }} {{ v | number(3) }} {{ w | number(2) }}").unwrap();
    let values = values(&[("v", "2.5"), ("w", "-0.125")]);
    assert_eq!(resolve(&binding, &values).unwrap(), "2 2.500 -0.12");
}

#[test]
fn number_filter_skips_missing_and_empty_values() {
    let binding = Binding::parse("[{{ v | number(2) }}][{{ w | number(2) }}]").unwrap();
    let values = values(&[("w", "")]);
    assert_eq!(resolve(&binding, &values).unwrap(), "[][]");
}

#[test]
fn default_then_number_formats_the_default() {
    let binding = Binding::parse(r#"{{ v | default("1.239") | number(2) }}"#).unwrap();
    assert_eq!(resolve(&binding, &ValueMap::new()).unwrap(), "1.24");
}

#[test]
fn later_values_replace_earlier_ones() {
    let mut map = ValueMap::new();
    map.insert("k".to_string(), "first".to_string());
    map.insert("k".to_string(), "second".to_string());
    assert_eq!(map.get(&"k".to_string()), Some("second".to_string()));
    assert_eq!(map.get(&"other".to_string()), None);
    let binding = Binding::parse("{{ k }}").unwrap();
    assert_eq!(resolve(&binding, &map).unwrap(), "second");
}

#[test]
fn resolve_errors_name_the_key_and_value() {
    let binding = Binding::parse("{{ temp | number(1) }}").unwrap();
    let error = resolve(&binding, &values(&[("temp", "warm")])).unwrap_err();
    assert_eq!(error.key, "temp");
    assert!(matches!(&error.failure, ResolveFailure::NotANumber(raw) if raw == "warm"));
    assert_eq!(error.message(), "sensor \"temp\": expected a number, got \"warm\"");

    let error = resolve(&binding, &values(&[("temp", "inf")])).unwrap_err();
    assert!(matches!(&error.failure, ResolveFailure::NotFinite(raw) if raw == "inf"));
    assert_eq!(error.message(), "sensor \"temp\": expected a finite number, got \"inf\"");
}

#[test]
fn resolution_asks_for_each_number_it_needs() {
    let binding = Binding::parse("{{ v | number(1) }}").unwrap();
    let values = values(&[("v", "3.14159")]);
    match binding.resolve(&values, &NumberTable::new()) {
        Resolution::NeedsNumber { raw, precision } => {
            assert_eq!(raw, "3.14159");
            assert_eq!(precision, 1);
        }
        other => panic!("expected a number request, got {other:?}"),
    }
}

#[test]
fn parse_errors_have_kinds_and_messages() {
    let cases: Vec<(&str, &str)> = vec![
        ("{{ value", "unclosed binding expression"),
        ("text }}", "binding expression has an unexpected closing delimiter"),
        ("{{ }}", "binding expression requires a sensor key"),
        ("{{ | number(1) }}", "binding expression requires a sensor key"),
        (r#"{{ v | default("open) }}"#, "binding filter contains an unclosed quoted string"),
        ("{{ v | default(x) }}", "default filter requires a quoted string"),
        (r#"{{ v | default("a\") }}"#, "binding filter contains an unclosed quoted string"),
        (r#"{{ v | default("a\q") }}"#, r"unsupported escape sequence \q"),
        ("{{ v | number(x) }}", "number filter requires a non-negative integer, got \"x\""),
        ("{{ v | number(-1) }}", "number filter requires a non-negative integer, got \"-1\""),
        ("{{ v | number(11) }}", "number filter precision must be between 0 and 10"),
        (
            "{{ v | upper }}",
            "unsupported binding filter \"upper\"; expected default(\"value\") or number(digits)",
        ),
    ];
    for (input, message) in cases {
        let error = Binding::parse(input).unwrap_err();
        assert_eq!(error.message(), message, "{input}");
    }
    assert!(matches!(
        Binding::parse("{{ v | number(12) }}").unwrap_err(),
        BindingParseError::PrecisionOutOfRange
    ));
    assert!(matches!(
        Binding::parse(r#"{{ v | default('a\") }}"#).unwrap_err(),
        BindingParseError::UnclosedQuote
    ));
}

#[test]
fn number_precision_ten_is_accepted() {
    let binding = Binding::parse("{{ v | number(10) }}").unwrap();
    assert_eq!(resolve(&binding, &values(&[("v", "1")])).unwrap(), "1.0000000000");
}

#[test]
fn precision_takes_the_forms_usize_parsing_takes() {
    let binding = Binding::parse("{{ v | number( +2 ) }}").unwrap();
    assert_eq!(resolve(&binding, &values(&[("v", "1.005")])).unwrap(), "1.00");
}

#[test]
fn sensor_files_give_trimmed_values_and_later_lines_win() {
    let map = ValueMap::from_sensor_text(
        "cpu_percent: 47.66\r\nhostname :  aoostar \nno colon here\n\ncpu_percent: 50\nuptime: 1:02:03",
    );
    assert_eq!(map.get(&"cpu_percent".to_string()), Some("50".to_string()));
    assert_eq!(map.get(&"hostname".to_string()), Some("aoostar".to_string()));
    assert_eq!(map.get(&"uptime".to_string()), Some("1:02:03".to_string()));
    assert_eq!(map.get(&"no colon here".to_string()), None);
    let empty = ValueMap::from_sensor_text("");
    assert_eq!(empty.get(&"cpu_percent".to_string()), None);
}

#[test]
fn bindings_resolve_piece_by_piece_and_read_only_named_sensors() {
    let first = Binding::parse("CPU {{ cpu | number(1) }}%").unwrap();
    let second = Binding::parse(" on {{ host | default(\"unknown\") }}").unwrap();
    let whole = Binding::parse("CPU {{ cpu | number(1) }}% on {{ host | default(\"unknown\") }}")
        .unwrap();
    let v = values(&[("cpu", "47.66"), ("host", "aoostar"), ("other", "x")]);
    let joined = format!("{}{}", resolve(&first, &v).unwrap(), resolve(&second, &v).unwrap());
    assert_eq!(resolve(&whole, &v).unwrap(), joined);
    assert_eq!(joined, "CPU 47.7% on aoostar");
    let fewer = values(&[("cpu", "47.66"), ("host", "aoostar")]);
    assert_eq!(resolve(&whole, &fewer).unwrap(), joined);
    let bad = values(&[("cpu", "hot"), ("host", "aoostar")]);
    let error = resolve(&whole, &bad).unwrap_err();
    assert_eq!(error.key, "cpu");
    assert!(matches!(error.failure, ResolveFailure::NotANumber(ref raw) if raw == "hot"));
}

#[test]
fn default_fills_missing_and_empty_values_only() {
    let binding = Binding::parse("{{ k | default(\"N/A\") }}").unwrap();
    assert_eq!(resolve(&binding, &values(&[])).unwrap(), "N/A");
    assert_eq!(resolve(&binding, &values(&[("k", "")])).unwrap(), "N/A");
    assert_eq!(resolve(&binding, &values(&[("k", "7")])).unwrap(), "7");
    let number = Binding::parse("{{ k | number(2) }}").unwrap();
    assert_eq!(resolve(&number, &values(&[])).unwrap(), "");
    assert_eq!(resolve(&number, &values(&[("k", "")])).unwrap(), "");
    assert_eq!(resolve(&number, &values(&[("k", "1.005e1")])).unwrap(), "10.05");
    let error = resolve(&number, &values(&[("k", "inf")])).unwrap_err();
    assert!(matches!(error.failure, ResolveFailure::NotFinite(ref raw) if raw == "inf"));
}

#[test]
fn quoted_defaults_read_back_their_escaped_text() {
    let binding = Binding::parse("{{ k | default(  \"a\\\"b\\\\c\\n\\td'e\"  ) }}").unwrap();
    assert_eq!(resolve(&binding, &values(&[])).unwrap(), "a\"b\\c\n\td'e");
    let piped = Binding::parse("{{ k | default(\"x|y\") }}").unwrap();
    assert_eq!(resolve(&piped, &values(&[])).unwrap(), "x|y");
}
