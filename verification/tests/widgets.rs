use aster_ui::{
    Binding, Condition, ConditionComparison, Evaluation, FlexDirection, NumberOutcome,
    NumberTable, ValueMap, Widget, WidgetKind, WidgetType,
};

fn values(pairs: &[(&str, &str)]) -> ValueMap {
    let mut map = ValueMap::new();
    for (key, value) in pairs {
        map.insert(key.to_string(), value.to_string());
    }
    map
}

fn decide(condition: &Condition, values: &ValueMap) -> bool {
    let mut numbers = NumberTable::new();
    loop {
        match condition.evaluate(values, &numbers) {
            Evaluation::Decided(result) => return result,
            Evaluation::Failed(error) => panic!("{}", error.message()),
            Evaluation::NeedsNumber { raw, precision } => {
                let outcome = match raw.parse::<f64>() {
                    Err(_) => NumberOutcome::NotANumber,
                    Ok(n) if !n.is_finite() => NumberOutcome::NotFinite,
                    Ok(n) => NumberOutcome::Formatted(format!("{n:.precision$}")),
                };
                numbers.insert(raw, precision, outcome);
            }
        }
    }
}

fn truthy(value: &str) -> bool {
    let condition = Condition::new(Binding::parse("{{ v }}").unwrap(), ConditionComparison::Truthy);
    decide(&condition, &values(&[("v", value)]))
}

#[test]
fn truthy_conditions_reject_empty_and_false_words() {
    assert!(truthy("yes"));
    assert!(truthy("1"));
    assert!(truthy(" on-ish "));
    assert!(!truthy(""));
    assert!(!truthy("   "));
    assert!(!truthy("0"));
    assert!(!truthy("FALSE"));
    assert!(!truthy(" No "));
    assert!(!truthy("off"));
    let missing = Condition::new(Binding::parse("{{ absent }}").unwrap(), ConditionComparison::Truthy);
    assert!(!decide(&missing, &ValueMap::new()));
}

#[test]
fn equals_and_not_equals_decide_oppositely() {
    let map = values(&[("state", "ready")]);
    for expected in ["ready", "busy", ""] {
        let equals = Condition::new(
            Binding::parse("{{ state }}").unwrap(),
            ConditionComparison::Equals(expected.to_string()),
        );
        let differs = Condition::new(
            Binding::parse("{{ state }}").unwrap(),
            ConditionComparison::NotEquals(expected.to_string()),
        );
        assert_eq!(decide(&equals, &map), expected == "ready");
        assert_eq!(decide(&differs, &map), expected != "ready");
    }
}

#[test]
fn conditions_compare_formatted_values() {
    let condition = Condition::new(
        Binding::parse("{{ v | number(0) }}").unwrap(),
        ConditionComparison::Equals("3".to_string()),
    );
    assert!(decide(&condition, &values(&[("v", "2.9")])));
    assert!(!decide(&condition, &values(&[("v", "3.6")])));
}

#[test]
fn widgets_report_their_type_and_children() {
    let child = Widget::new("root.children[0]".to_string(), None, vec![], WidgetKind::spacer());
    let root = Widget::new(
        "root".to_string(),
        Some("main".to_string()),
        vec!["a".to_string()],
        WidgetKind::flex(FlexDirection::Column, vec![child]),
    );
    assert_eq!(root.widget_type(), WidgetType::Column);
    assert_eq!(root.widget_type_name(), "column");
    assert_eq!(root.children().len(), 1);
    assert_eq!(root.children()[0].widget_type_name(), "spacer");
    assert!(root.children()[0].children().is_empty());
    assert_eq!(root.id(), &Some("main".to_string()));
    assert_eq!(root.source_path(), "root");
    let image = Widget::new("img".to_string(), None, vec![], WidgetKind::image("/a.png".to_string()));
    assert_eq!(image.image_source().map(|s| s.as_str()), Some("/a.png"));
    assert_eq!(root.image_source(), None);
}

#[test]
fn only_a_conditional_whose_condition_fails_is_hidden() {
    let shown = |widget: &Widget, values: &ValueMap| {
        let mut numbers = NumberTable::new();
        loop {
            match widget.visibility(values, &numbers) {
                Evaluation::Decided(result) => return result,
                Evaluation::Failed(error) => panic!("{}", error.message()),
                Evaluation::NeedsNumber { raw, precision } => {
                    numbers.insert(raw, precision, NumberOutcome::NotANumber);
                }
            }
        }
    };
    let hidden_child = Widget::new(
        "root.children[0]".to_string(),
        None,
        vec![],
        WidgetKind::text(Binding::parse("{{ invalid | number(2) }}").unwrap()),
    );
    let conditional = Widget::new(
        "root".to_string(),
        None,
        vec![],
        WidgetKind::conditional(
            Condition::new(
                Binding::parse("{{ enabled }}").unwrap(),
                ConditionComparison::Equals("yes".to_string()),
            ),
            vec![hidden_child],
        ),
    );
    assert!(!shown(&conditional, &values(&[])));
    assert!(!shown(&conditional, &values(&[("enabled", "no")])));
    assert!(shown(&conditional, &values(&[("enabled", "yes")])));
    let spacer = Widget::new("root".to_string(), None, vec![], WidgetKind::spacer());
    assert!(shown(&spacer, &values(&[])));
}
