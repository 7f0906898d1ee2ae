use aster_ui::{
    ConfigErrorKind, Dashboard, Decimal, FileLookup, FileTable, FlexDirection, NumberToken,
    ProgressOrientation, RawDashboard, RawDashboardOptions, RawWidget, RawWidgetType, StyleSheet,
    Widget, WidgetKind,
};

fn raw(kind: RawWidgetType) -> RawWidget {
    RawWidget {
        kind,
        id: None,
        classes: vec![],
        children: vec![],
        text: None,
        source: None,
        value: None,
        min: None,
        max: None,
        orientation: None,
        start_angle: None,
        sweep_angle: None,
        thickness: None,
        needle_width: None,
        line_width: None,
        fill: None,
        equals: None,
        not_equals: None,
        component: None,
        params: vec![],
    }
}

fn number(digits: &str, exponent: i64) -> Option<NumberToken> {
    Some(NumberToken::Finite(Decimal::from_digit_text(digits, exponent)))
}

fn negative(digits: &str) -> Option<NumberToken> {
    Some(NumberToken::Finite(Decimal::from_digit_text(digits, 0).negated()))
}

fn options() -> RawDashboardOptions {
    RawDashboardOptions {
        width: 960,
        height: 376,
        stylesheet: "dashboard.css".to_string(),
        background: None,
        fonts: vec![],
    }
}

fn files() -> FileTable {
    let mut files = FileTable::new();
    files.insert(
        "dashboard.css".to_string(),
        FileLookup::Found("/dashboards/dashboard.css".to_string()),
    );
    files
}

fn dashboard(root: RawWidget, components: Vec<(String, RawWidget)>) -> RawDashboard {
    RawDashboard { dashboard: options(), components, root }
}

/// Builds the widget tree, or gives the error message.
fn build(d: &RawDashboard) -> Result<Widget, String> {
    d.normalize_root(&files()).map_err(|error| error.message())
}

fn value(d: &Decimal) -> f64 {
    let mut v = 0.0f64;
    for digit in d.digits() {
        v = v * 10.0 + *digit as f64;
    }
    let e = d.exponent() as i32;
    let v = if e >= 0 { v * 10f64.powi(e) } else { v / 10f64.powi(-e) };
    if d.has_minus() { -v } else { v }
}

#[test]
fn loads_and_normalizes_nested_widgets() {
    let mut root = raw(RawWidgetType::Row);
    root.id = Some("dashboard".to_string());
    root.classes = vec!["dashboard".to_string()];
    let mut label = raw(RawWidgetType::Text);
    label.text = Some("CPU".to_string());
    let mut progress = raw(RawWidgetType::Progress);
    progress.value = Some("{{ cpu_percent }}".to_string());
    root.children = vec![label, progress];
    let mut d = dashboard(root, vec![]);
    d.dashboard.background = Some("#101318".to_string());

    let options = d.normalize_options(&files()).unwrap();
    assert_eq!(options.width(), 960);
    assert_eq!(options.height(), 376);
    assert!(options.stylesheet().starts_with('/'));
    let root = d.normalize_root(&files()).unwrap();
    assert_eq!(root.source_path(), "root");

    let WidgetKind::Flex { direction, children } = root.kind() else {
        panic!("root should normalize to a flex widget");
    };
    assert_eq!(*direction, FlexDirection::Row);
    assert_eq!(children.len(), 2);
    assert_eq!(children[1].source_path(), "root.children[1]");
}

#[test]
fn rejects_fields_for_the_wrong_widget_type() {
    let mut root = raw(RawWidgetType::Row);
    root.text = Some("not valid".to_string());
    let error = build(&dashboard(root, vec![])).unwrap_err();
    assert!(error.contains("root"), "{error}");
    assert!(error.contains("field \"text\" is not valid"), "{error}");
}

#[test]
fn rejects_duplicate_widget_ids() {
    let mut root = raw(RawWidgetType::Row);
    let mut first = raw(RawWidgetType::Spacer);
    first.id = Some("duplicate".to_string());
    let mut second = raw(RawWidgetType::Spacer);
    second.id = Some("duplicate".to_string());
    root.children = vec![first, second];
    let error = build(&dashboard(root, vec![])).unwrap_err();
    assert!(error.contains("root.children[1]"), "{error}");
    assert!(error.contains("duplicate widget id"), "{error}");
}

#[test]
fn rejects_invalid_progress_range() {
    let mut root = raw(RawWidgetType::Progress);
    root.value = Some("50".to_string());
    root.min = number("100", 0);
    root.max = number("0", 0);
    let error = build(&dashboard(root, vec![])).unwrap_err();
    assert!(error.contains("progress range"), "{error}");
    assert_eq!(error, "root: progress range must be finite and min < max, got 100..0");
}

#[test]
fn reusable_components_expand_and_apply_instance_identity() {
    let mut card = raw(RawWidgetType::Column);
    card.classes = vec!["card".to_string()];
    let mut metric = raw(RawWidgetType::Text);
    metric.text = Some("metric".to_string());
    card.children = vec![metric];
    let mut root = raw(RawWidgetType::Row);
    let mut first = raw(RawWidgetType::Component);
    first.component = Some("card".to_string());
    first.id = Some("first".to_string());
    let mut second = raw(RawWidgetType::Component);
    second.component = Some("card".to_string());
    second.id = Some("second".to_string());
    root.children = vec![first, second];

    let root = build(&dashboard(root, vec![("card".to_string(), card)])).unwrap();
    assert_eq!(root.children().len(), 2);
    assert_eq!(root.children()[0].id().as_deref(), Some("first"));
    assert_eq!(root.children()[1].id().as_deref(), Some("second"));
    assert_eq!(root.children()[0].classes(), &["card".to_string()]);
    assert!(matches!(root.children()[0].kind(), WidgetKind::Flex { .. }));
    assert_eq!(root.children()[1].children()[0].source_path(), "root.children[1].children[0]");
}

#[test]
fn reusable_component_cycles_are_rejected() {
    let mut first = raw(RawWidgetType::Component);
    first.component = Some("second".to_string());
    let mut second = raw(RawWidgetType::Component);
    second.component = Some("first".to_string());
    let mut root = raw(RawWidgetType::Component);
    root.component = Some("first".to_string());
    let error = build(&dashboard(
        root,
        vec![("first".to_string(), first), ("second".to_string(), second)],
    ))
    .unwrap_err();
    assert!(error.contains("component cycle detected"), "{error}");
    assert!(error.contains("first -> second -> first"), "{error}");
}

#[test]
fn component_classes_follow_the_template_and_uses_keep_their_own_id() {
    let mut template = raw(RawWidgetType::Spacer);
    template.classes = vec!["base".to_string()];
    let mut root = raw(RawWidgetType::Component);
    root.component = Some("item".to_string());
    root.classes = vec!["extra".to_string()];
    let root = build(&dashboard(root, vec![("item".to_string(), template)])).unwrap();
    assert_eq!(root.classes(), &["base".to_string(), "extra".to_string()]);
    assert_eq!(root.id(), &None);
}

#[test]
fn component_errors() {
    let mut root = raw(RawWidgetType::Component);
    root.component = Some("missing".to_string());
    assert_eq!(build(&dashboard(root, vec![])).unwrap_err(), "root: unknown component \"missing\"");

    let root = raw(RawWidgetType::Component);
    assert_eq!(build(&dashboard(root, vec![])).unwrap_err(), "root: widget requires non-empty component");

    let mut root = raw(RawWidgetType::Component);
    root.component = Some("x".to_string());
    root.text = Some("t".to_string());
    assert_eq!(
        build(&dashboard(root, vec![])).unwrap_err(),
        "root: field \"text\" is not valid for this widget type"
    );

    let mut with_id = raw(RawWidgetType::Spacer);
    with_id.id = Some("fixed".to_string());
    let error = build(&dashboard(raw(RawWidgetType::Spacer), vec![("tmpl".to_string(), with_id)]))
        .unwrap_err();
    assert_eq!(
        error,
        "component \"tmpl\" contains an id; reusable component templates cannot define ids"
    );
    let error = build(&dashboard(raw(RawWidgetType::Spacer), vec![("bad name".to_string(), raw(RawWidgetType::Spacer))]))
        .unwrap_err();
    assert_eq!(error, "invalid component name \"bad name\"; use letters, digits, '_' or '-'");
}

#[test]
fn identity_errors() {
    let mut root = raw(RawWidgetType::Spacer);
    root.id = Some("no spaces".to_string());
    assert_eq!(
        build(&dashboard(root, vec![])).unwrap_err(),
        "root: invalid id \"no spaces\"; use letters, digits, '_' or '-'"
    );
    let mut root = raw(RawWidgetType::Spacer);
    root.classes = vec!["ok".to_string(), "not.ok".to_string()];
    assert_eq!(
        build(&dashboard(root, vec![])).unwrap_err(),
        "root: invalid class \"not.ok\"; use letters, digits, '_' or '-'"
    );
    let mut root = raw(RawWidgetType::Text);
    root.text = Some("x".to_string());
    root.children = vec![raw(RawWidgetType::Spacer)];
    assert_eq!(
        build(&dashboard(root, vec![])).unwrap_err(),
        "root: this widget cannot contain children"
    );
}

#[test]
fn content_errors() {
    let mut root = raw(RawWidgetType::Text);
    root.text = Some("   ".to_string());
    assert_eq!(build(&dashboard(root, vec![])).unwrap_err(), "root: widget requires non-empty text");

    let mut root = raw(RawWidgetType::Text);
    root.text = Some("{{ cpu".to_string());
    assert_eq!(
        build(&dashboard(root, vec![])).unwrap_err(),
        "root: invalid text binding: unclosed binding expression"
    );

    let root = raw(RawWidgetType::Image);
    assert_eq!(build(&dashboard(root, vec![])).unwrap_err(), "root: image requires source");

    let mut root = raw(RawWidgetType::Conditional);
    root.value = Some("{{ x }}".to_string());
    root.equals = Some("a".to_string());
    root.not_equals = Some("b".to_string());
    assert_eq!(
        build(&dashboard(root, vec![])).unwrap_err(),
        "root: conditional accepts either equals or not-equals, not both"
    );
}

#[test]
fn image_sources_come_from_the_file_table() {
    let mut root = raw(RawWidgetType::Image);
    root.source = Some("logo.png".to_string());
    let d = dashboard(root, vec![]);
    let mut table = files();
    table.insert("logo.png".to_string(), FileLookup::Found("/dashboards/logo.png".to_string()));
    let widget = d.normalize_root(&table).unwrap();
    assert!(matches!(widget.kind(), WidgetKind::Image { source } if source == "/dashboards/logo.png"));

    let mut table = files();
    table.insert(
        "logo.png".to_string(),
        FileLookup::NotAFile("\"/dashboards/logo.png\"".to_string()),
    );
    let error = d.normalize_root(&table).unwrap_err();
    assert_eq!(error.kind, ConfigErrorKind::NotAFile);
    assert_eq!(error.message(), "root.source must reference a file, got \"/dashboards/logo.png\"");

    let error = d.normalize_root(&files()).unwrap_err();
    assert_eq!(error.kind, ConfigErrorKind::UnreadableFile);
}

#[test]
fn option_errors() {
    let mut d = dashboard(raw(RawWidgetType::Spacer), vec![]);
    d.dashboard.width = 0;
    assert_eq!(
        d.normalize_options(&files()).unwrap_err().message(),
        "dashboard width and height must be greater than zero"
    );
    let mut d = dashboard(raw(RawWidgetType::Spacer), vec![]);
    d.dashboard.background = Some("#12345".to_string());
    assert_eq!(
        d.normalize_options(&files()).unwrap_err().message(),
        "dashboard.background must be #RRGGBB or #RRGGBBAA, got \"#12345\""
    );
    let mut d = dashboard(raw(RawWidgetType::Spacer), vec![]);
    d.dashboard.fonts = vec!["a.ttf".to_string(), "b.ttf".to_string()];
    let mut table = files();
    table.insert("a.ttf".to_string(), FileLookup::Found("/f/a.ttf".to_string()));
    table.insert(
        "b.ttf".to_string(),
        FileLookup::Unreadable("\"/f/b.ttf\": No such file or directory (os error 2)".to_string()),
    );
    assert_eq!(
        d.normalize_options(&table).unwrap_err().message(),
        "dashboard.fonts[1] references unreadable file \"/f/b.ttf\": No such file or directory (os error 2)"
    );
    table.insert("b.ttf".to_string(), FileLookup::Found("/f/b.ttf".to_string()));
    let options = d.normalize_options(&table).unwrap();
    assert_eq!(options.fonts(), &["/f/a.ttf".to_string(), "/f/b.ttf".to_string()]);
    assert_eq!(options.background(), &None);
}

#[test]
fn progress_defaults_and_arc_checks() {
    let mut root = raw(RawWidgetType::Progress);
    root.value = Some("{{ v }}".to_string());
    let widget = build(&dashboard(root, vec![])).unwrap();
    let WidgetKind::Progress { min, max, orientation, .. } = widget.kind() else {
        panic!("expected a progress widget");
    };
    assert_eq!(value(min), 0.0);
    assert_eq!(value(max), 100.0);
    assert_eq!(*orientation, ProgressOrientation::Horizontal);

    let mut root = raw(RawWidgetType::Gauge);
    root.value = Some("{{ v }}".to_string());
    let widget = build(&dashboard(root, vec![])).unwrap();
    let WidgetKind::Gauge { start_angle, sweep_angle, thickness, needle_width, .. } = widget.kind() else {
        panic!("expected a gauge");
    };
    assert_eq!(value(start_angle), -135.0);
    assert_eq!(value(sweep_angle), 270.0);
    assert_eq!(value(thickness), 8.0);
    assert_eq!(value(needle_width), 3.0);

    let mut root = raw(RawWidgetType::CircularProgress);
    root.value = Some("{{ v }}".to_string());
    root.sweep_angle = negative("361");
    assert_eq!(
        build(&dashboard(root, vec![])).unwrap_err(),
        "root: angles must be finite and sweep-angle must be non-zero and at most 360 degrees"
    );
    let mut root = raw(RawWidgetType::CircularProgress);
    root.value = Some("{{ v }}".to_string());
    root.sweep_angle = negative("360");
    root.thickness = number("0", 0);
    assert_eq!(
        build(&dashboard(root, vec![])).unwrap_err(),
        "root: thickness must be finite and greater than zero"
    );
    let mut root = raw(RawWidgetType::Gauge);
    root.value = Some("{{ v }}".to_string());
    root.min = Some(NumberToken::NotANumber);
    assert_eq!(
        build(&dashboard(root, vec![])).unwrap_err(),
        "root: gauge range must be finite and min < max, got NaN..100"
    );
}

#[test]
fn graph_checks() {
    let mut root = raw(RawWidgetType::Graph);
    root.value = Some("{{ history }}".to_string());
    root.min = number("5", -1);
    root.max = number("5", -1);
    assert_eq!(
        build(&dashboard(root, vec![])).unwrap_err(),
        "root: graph min and max must be finite and min < max"
    );
    let mut root = raw(RawWidgetType::Graph);
    root.value = Some("{{ history }}".to_string());
    root.line_width = Some(NumberToken::Infinite(false));
    assert_eq!(
        build(&dashboard(root, vec![])).unwrap_err(),
        "root: line-width must be finite and greater than zero"
    );
    let mut root = raw(RawWidgetType::Graph);
    root.value = Some("{{ history }}".to_string());
    root.max = number("25", -1);
    let widget = build(&dashboard(root, vec![])).unwrap();
    let WidgetKind::Graph { min, max, line_width, fill, .. } = widget.kind() else {
        panic!("expected a graph");
    };
    assert!(min.is_none());
    assert_eq!(value(max.as_ref().unwrap()), 2.5);
    assert_eq!(value(line_width), 2.0);
    assert!(!fill);
}

#[test]
fn dashboards_list_their_assets() {
    let mut root = raw(RawWidgetType::Row);
    let mut image = raw(RawWidgetType::Image);
    image.source = Some("logo.png".to_string());
    root.children = vec![image];
    let mut d = dashboard(root, vec![]);
    d.dashboard.fonts = vec!["a.ttf".to_string()];
    let mut table = files();
    table.insert("logo.png".to_string(), FileLookup::Found("/d/logo.png".to_string()));
    table.insert("a.ttf".to_string(), FileLookup::Found("/d/a.ttf".to_string()));
    let options = d.normalize_options(&table).unwrap();
    let root = d.normalize_root(&table).unwrap();
    let sheet = StyleSheet::parse("/dashboards/dashboard.css", "").unwrap();
    let dashboard = Dashboard::new("/d/dashboard.toml".to_string(), options, sheet, root);
    assert_eq!(
        dashboard.asset_list(),
        vec![
            "/d/dashboard.toml".to_string(),
            "/dashboards/dashboard.css".to_string(),
            "/d/a.ttf".to_string(),
            "/d/logo.png".to_string(),
        ]
    );
}

#[test]
fn invalid_bindings_are_rejected_during_dashboard_load() {
    let mut root = raw(RawWidgetType::Text);
    root.text = Some("{{ value | number(-1) }}".to_string());
    let mut d = dashboard(root, vec![]);
    d.dashboard.width = 20;
    d.dashboard.height = 10;
    assert!(d.normalize_options(&files()).is_ok());
    let error = build(&d).unwrap_err();
    assert!(error.contains("invalid text binding"), "{error}");
}

#[test]
fn asset_paths_are_sorted_by_component_and_unique() {
    let mut root = raw(RawWidgetType::Row);
    let mut first = raw(RawWidgetType::Image);
    first.source = Some("a-b.png".to_string());
    let mut second = raw(RawWidgetType::Image);
    second.source = Some("a/b.png".to_string());
    let mut third = raw(RawWidgetType::Image);
    third.source = Some("a-b.png".to_string());
    root.children = vec![first, second, third];
    let mut d = dashboard(root, vec![]);
    d.dashboard.fonts = vec!["z.ttf".to_string(), "z.ttf".to_string()];
    let mut table = files();
    table.insert("a-b.png".to_string(), FileLookup::Found("/d/a-b.png".to_string()));
    table.insert("a/b.png".to_string(), FileLookup::Found("/d/a/b.png".to_string()));
    table.insert("z.ttf".to_string(), FileLookup::Found("/d/z.ttf".to_string()));
    let options = d.normalize_options(&table).unwrap();
    let root = d.normalize_root(&table).unwrap();
    let sheet = StyleSheet::parse("/dashboards/dashboard.css", "").unwrap();
    let dashboard = Dashboard::new("/d/dashboard.toml".to_string(), options, sheet, root);
    let expected = vec![
        "/d/a/b.png".to_string(),
        "/d/a-b.png".to_string(),
        "/d/dashboard.toml".to_string(),
        "/d/z.ttf".to_string(),
        "/dashboards/dashboard.css".to_string(),
    ];
    assert_eq!(dashboard.asset_paths(), expected);
    let mut by_path: Vec<std::path::PathBuf> =
        expected.iter().map(std::path::PathBuf::from).collect();
    by_path.reverse();
    by_path.sort();
    let sorted: Vec<String> = by_path.iter().map(|p| p.display().to_string()).collect();
    assert_eq!(sorted, expected);
}

fn resolve_text(binding: &aster_ui::Binding, pairs: &[(&str, &str)]) -> String {
    let mut values = aster_ui::ValueMap::new();
    for (key, value) in pairs {
        values.insert(key.to_string(), value.to_string());
    }
    match binding.resolve(&values, &aster_ui::NumberTable::new()) {
        aster_ui::Resolution::Resolved(text) => text,
        _ => panic!("expected a resolved text"),
    }
}

fn params(pairs: &[(&str, &str)]) -> Vec<(String, String)> {
    pairs.iter().map(|(k, v)| (k.to_string(), v.to_string())).collect()
}

fn component_use(name: &str, pairs: &[(&str, &str)]) -> RawWidget {
    let mut used = raw(RawWidgetType::Component);
    used.component = Some(name.to_string());
    used.params = params(pairs);
    used
}

#[test]
fn each_component_use_binds_its_own_parameters() {
    let mut meter = raw(RawWidgetType::Progress);
    meter.value = Some("{{ @value }}".to_string());
    let mut root = raw(RawWidgetType::Row);
    root.children = vec![
        component_use("meter", &[("value", "{{ cpu }}")]),
        component_use("meter", &[("value", "{{ memory }}")]),
    ];
    let widget = build(&dashboard(root, vec![("meter".to_string(), meter)])).unwrap();
    let values = [("cpu", "25"), ("memory", "75")];
    let mut seen = vec![];
    for child in widget.children() {
        let WidgetKind::Progress { value, .. } = child.kind() else {
            panic!("expected a progress bar");
        };
        seen.push(resolve_text(value, &values));
    }
    assert_eq!(seen, vec!["25".to_string(), "75".to_string()]);
}

#[test]
fn component_parameters_support_text_and_nested_forwarding() {
    let mut label = raw(RawWidgetType::Text);
    label.classes = vec!["{{ @style-class }}".to_string()];
    label.text = Some("{{ @prefix }}: {{ @value }}".to_string());
    let forwarder = component_use(
        "label",
        &[("prefix", "{{ @title }}"), ("value", "{{ @sensor }}"), ("style-class", "{{ @class-name }}")],
    );
    let root = component_use(
        "forwarder",
        &[("title", "CPU"), ("sensor", "{{ cpu }}"), ("class-name", "cpu-label")],
    );
    let widget = build(&dashboard(
        root,
        vec![("label".to_string(), label), ("forwarder".to_string(), forwarder)],
    ))
    .unwrap();
    let WidgetKind::Text { text } = widget.kind() else {
        panic!("forwarded component should expand to text");
    };
    assert_eq!(widget.classes(), &["cpu-label"]);
    assert_eq!(resolve_text(text, &[("cpu", "42")]), "CPU: 42");
}

#[test]
fn component_parameters_are_validated_strictly() {
    let cases: [(&[(&str, &str)], &str); 3] = [
        (&[], "missing parameter \"value\" for component \"meter\""),
        (
            &[("value", "50"), ("extra", "unused")],
            "unknown parameter \"extra\" for component \"meter\"",
        ),
        (&[("value", "50")], "expected {{ @name }}, got {{ @value | number(0) }}"),
    ];
    for (pairs, expected) in cases {
        let placeholder = if expected.contains("expected") {
            "{{ @value | number(0) }}"
        } else {
            "{{ @value }}"
        };
        let mut meter = raw(RawWidgetType::Progress);
        meter.value = Some(placeholder.to_string());
        let root = component_use("meter", pairs);
        let error = build(&dashboard(root, vec![("meter".to_string(), meter)])).unwrap_err();
        assert!(error.contains(expected), "{error}");
    }
}

#[test]
fn parameters_belong_to_component_uses_only() {
    let mut root = raw(RawWidgetType::Text);
    root.text = Some("x".to_string());
    root.params = params(&[("a", "b")]);
    let error = build(&dashboard(root, vec![])).unwrap_err();
    assert!(error.contains("field \"params\" is not valid"), "{error}");
    let mut plain = raw(RawWidgetType::Text);
    plain.text = Some("{{ cpu }} and {{ @n }}".to_string());
    let widget = build(&dashboard(
        component_use("plain", &[("n", "{{ gpu }}")]),
        vec![("plain".to_string(), plain)],
    ))
    .unwrap();
    let WidgetKind::Text { text } = widget.kind() else {
        panic!("expected text");
    };
    assert_eq!(resolve_text(text, &[("cpu", "1"), ("gpu", "2")]), "1 and 2");
}
