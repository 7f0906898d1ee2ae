use aster_ui::{
    Binding, Color, Decimal, Display, FlexDirection, Length, ObjectFit, StyleErrorKind, StyleSheet,
    TextAlign, Widget, WidgetKind,
};

fn widget(kind: WidgetKind, id: Option<&str>, classes: &[&str]) -> Widget {
    Widget::new(
        "root".to_string(),
        id.map(str::to_string),
        classes.iter().map(|class| class.to_string()).collect(),
        kind,
    )
}

fn text(content: &str) -> WidgetKind {
    WidgetKind::text(Binding::parse(content).unwrap())
}

/// The value of a decimal as a float.
fn value(d: &Decimal) -> f64 {
    let mut v = 0.0f64;
    for digit in d.digits() {
        v = v * 10.0 + *digit as f64;
    }
    let e = d.exponent() as i32;
    let v = if e >= 0 { v * 10f64.powi(e) } else { v / 10f64.powi(-e) };
    if d.has_minus() { -v } else { v }
}

fn error_message(contents: &str) -> String {
    StyleSheet::parse("test.css", contents).unwrap_err().message()
}

#[test]
fn selector_specificity_and_order_are_applied() {
    let stylesheet = StyleSheet::parse(
        "test.css",
        r#"
text { color: #111111; }
.metric { color: #222222; font-size: 20px; }
text.metric { color: #333333; }
#cpu { color: #444444; }
#cpu { font-size: 24px; }
"#,
    )
    .unwrap();
    let widget = widget(text("CPU"), Some("cpu"), &["metric"]);

    let style = stylesheet.compute(&widget, None);
    assert_eq!(
        style.color,
        Color {
            red: 0x44,
            green: 0x44,
            blue: 0x44,
            alpha: 0xff,
        }
    );
    assert_eq!(value(&style.font_size), 24.0);
}

#[test]
fn inherited_properties_flow_to_children() {
    let stylesheet = StyleSheet::parse(
        "test.css",
        r#"
.parent {
    color: #123456;
    font-family: "Test Font";
    font-size: 22px;
    text-align: center;
}
"#,
    )
    .unwrap();
    let child = widget(text("child"), None, &[]);
    let parent = widget(WidgetKind::flex(FlexDirection::Row, vec![child]), None, &["parent"]);

    let tree = stylesheet.compute_tree(&parent);
    let child_style = &tree.children[0].style;
    assert_eq!(child_style.color, tree.style.color);
    assert_eq!(child_style.font_family, "Test Font");
    assert_eq!(value(&child_style.font_size), 22.0);
    assert_eq!(child_style.text_align, TextAlign::Center);
    assert_eq!(child_style.background_color, Color::transparent());
}

#[test]
fn rejects_unsupported_selector_syntax() {
    let error = error_message(".parent text { color: #ffffff; }");
    assert!(error.contains("unsupported selector"), "{error}");
}

#[test]
fn parses_all_initial_properties() {
    let stylesheet = StyleSheet::parse(
        "test.css",
        r#"
.all {
    display: flex;
    flex-direction: column;
    flex-grow: 1;
    flex-shrink: 0;
    width: 50%;
    height: 20px;
    min-width: 0;
    min-height: auto;
    max-width: 100%;
    max-height: 200px;
    gap: 4px;
    margin: auto;
    padding: 8px;
    align-items: center;
    align-self: end;
    justify-content: space-between;
    color: #112233;
    background-color: #44556677;
    opacity: 0.5;
    border-width: 2px;
    border-color: transparent;
    border-radius: 6px;
    overflow: hidden;
    font-family: "DejaVu Sans";
    font-size: 18px;
    font-weight: 700;
    line-height: 1.4;
    text-align: center;
    text-overflow: ellipsis;
    white-space: nowrap;
    object-fit: cover;
    object-position: center;
}
"#,
    )
    .unwrap();
    assert_eq!(stylesheet.rules().len(), 1);
}

#[test]
fn rejects_unknown_properties() {
    let error = error_message("text { magic: yes; }");
    assert!(error.contains("unsupported property"), "{error}");
}

#[test]
fn rejects_unsupported_units() {
    let error = error_message("text { width: 10em; }");
    assert!(error.contains("requires px"), "{error}");
}

#[test]
fn declarations_set_the_computed_values() {
    let stylesheet = StyleSheet::parse(
        "test.css",
        ".a { width: 50%; height: 0; margin: auto; padding: 8px; opacity: 0.5; \
         font-weight: bold; background-color: #44556677; object-fit: none; display: none; }",
    )
    .unwrap();
    let style = stylesheet.compute(&widget(text("x"), None, &["a"]), None);
    assert!(matches!(&style.width, Length::Percent(d) if value(d) == 50.0));
    assert!(matches!(&style.height, Length::Px(d) if value(d) == 0.0));
    assert!(matches!(style.margin.top, Length::Auto));
    assert!(matches!(&style.padding.left, Length::Px(d) if value(d) == 8.0));
    assert_eq!(value(&style.opacity), 0.5);
    assert_eq!(style.font_weight, 700);
    assert_eq!(
        style.background_color,
        Color {
            red: 0x44,
            green: 0x55,
            blue: 0x66,
            alpha: 0x77,
        }
    );
    assert_eq!(style.object_fit, ObjectFit::NaturalSize);
    assert_eq!(style.display, Display::Collapse);
}

#[test]
fn initial_style_follows_the_widget_kind() {
    let stylesheet = StyleSheet::parse("test.css", "").unwrap();
    let stack = widget(WidgetKind::stack(vec![]), None, &[]);
    let column = widget(WidgetKind::flex(FlexDirection::Column, vec![]), None, &[]);
    let stack_style = stylesheet.compute(&stack, None);
    let column_style = stylesheet.compute(&column, None);
    assert_eq!(stack_style.display, Display::Stack);
    assert_eq!(column_style.display, Display::Flex);
    assert_eq!(column_style.flex_direction, aster_ui::FlexDirectionStyle::Column);
    assert_eq!(value(&column_style.font_size), 16.0);
    assert_eq!(value(&column_style.line_height), 1.2);
    assert_eq!(column_style.font_family, "DejaVu Sans");
    assert_eq!(column_style.font_weight, 400);
    assert_eq!(column_style.color, Color::white());
}

#[test]
fn later_rules_win_at_equal_specificity_and_specific_rules_win_over_order() {
    let stylesheet = StyleSheet::parse(
        "test.css",
        "#x { color: #000001; } .c { color: #000002; } .c { color: #000003; } text { color: #000004; }",
    )
    .unwrap();
    let with_id = stylesheet.compute(&widget(text("t"), Some("x"), &["c"]), None);
    assert_eq!(with_id.color.blue, 1);
    let with_class = stylesheet.compute(&widget(text("t"), None, &["c"]), None);
    assert_eq!(with_class.color.blue, 3);
    let bare = stylesheet.compute(&widget(text("t"), None, &[]), None);
    assert_eq!(bare.color.blue, 4);
    let other = stylesheet.compute(&widget(WidgetKind::spacer(), None, &[]), None);
    assert_eq!(other.color, Color::white());
}

#[test]
fn comments_are_removed_and_unterminated_ones_rejected() {
    let stylesheet = StyleSheet::parse(
        "test.css",
        "/* header */ text { /* inside */ color: #010203; } /**/",
    )
    .unwrap();
    assert_eq!(stylesheet.rules().len(), 1);
    let style = stylesheet.compute(&widget(text("t"), None, &[]), None);
    assert_eq!(style.color.green, 2);
    let error = StyleSheet::parse("test.css", "text { color: #fff; } /* open").unwrap_err();
    assert_eq!(error.kind, StyleErrorKind::UnterminatedComment);
    assert_eq!(error.message(), "unterminated CSS comment");
}

#[test]
fn block_structure_errors() {
    assert_eq!(error_message("text color: red;"), "expected '{' after selector");
    assert_eq!(error_message("text { color: red;"), "expected '}' after declarations");
    assert_eq!(error_message("text { a { } }"), "nested CSS blocks are not supported");
    assert_eq!(StyleSheet::parse("test.css", "  \n ").unwrap().rules().len(), 0);
    assert_eq!(StyleSheet::parse("main.css", "").unwrap().source(), "main.css");
}

#[test]
fn selector_errors() {
    assert_eq!(
        error_message("a, b { }"),
        "unsupported selector \"a, b\"; expected type, .class, type.class, or #id"
    );
    assert_eq!(error_message("# { }"), "invalid ID selector \"\"");
    assert_eq!(error_message(".a$b { }"), "invalid class selector \"a$b\"");
    assert_eq!(error_message("text.a.b { }"), "invalid class selector \"a.b\"");
    assert_eq!(error_message("slider { }"), "unknown widget type selector \"slider\"");
    assert_eq!(error_message("slider.x { }"), "unknown widget type selector \"slider\"");
    assert_eq!(error_message("p:hover { }").contains("unsupported selector"), true);
    assert_eq!(error_message("{ }").contains("unsupported selector"), true);
}

#[test]
fn declaration_errors() {
    assert_eq!(
        error_message("text { color }"),
        "invalid declaration \"color\"; expected property: value"
    );
    assert_eq!(error_message("text { color: ; }"), "color requires a value");
    assert_eq!(error_message("text { display: grid; }"), "invalid display value \"grid\"");
    assert_eq!(error_message("text { align-items: middle; }"), "invalid alignment value \"middle\"");
    assert_eq!(error_message("text { gap: auto; }"), "gap requires px, %, zero");
    assert_eq!(error_message("text { width: 5; }"), "width requires px, %, zero, or auto");
    assert_eq!(
        error_message("text { border-width: 10%; }"),
        "border-width requires a non-negative pixel value"
    );
    assert_eq!(error_message("text { font-size: 0px; }"), "font-size must be greater than zero");
    assert_eq!(
        error_message("text { flex-grow: -1; }"),
        "flex-grow must be a finite non-negative number"
    );
    assert_eq!(error_message("text { flex-grow: x; }"), "invalid flex-grow value \"x\"");
    assert_eq!(error_message("text { opacity: 1.5; }"), "opacity must be between 0 and 1");
    assert_eq!(error_message("text { line-height: 0; }"), "line-height must be greater than zero");
    assert_eq!(
        error_message("text { font-family: a, b; }"),
        "font-family requires one non-empty family name"
    );
    assert_eq!(error_message("text { font-weight: 450; }"), "invalid font-weight value \"450\"");
    assert_eq!(
        error_message("text { color: red; }"),
        "color requires #RRGGBB, #RRGGBBAA, or transparent"
    );
    assert_eq!(error_message("text { color: #12345; }"), "invalid color color \"#12345\"");
}

#[test]
fn blank_declarations_are_skipped_and_later_declarations_win() {
    let stylesheet = StyleSheet::parse(
        "test.css",
        "text { ; color: #000001;; color: #000002 ; }",
    )
    .unwrap();
    let style = stylesheet.compute(&widget(text("t"), None, &[]), None);
    assert_eq!(style.color.blue, 2);
}

#[test]
fn styled_trees_keep_paths_and_order() {
    let stylesheet = StyleSheet::parse("test.css", ".b { font-size: 30px; }").unwrap();
    let a = Widget::new("root.children[0]".to_string(), None, vec![], WidgetKind::spacer());
    let b = Widget::new("root.children[1]".to_string(), None, vec!["b".to_string()], WidgetKind::spacer());
    let root = widget(WidgetKind::stack(vec![a, b]), None, &[]);
    let tree = stylesheet.compute_tree(&root);
    assert_eq!(tree.source_path, "root");
    assert_eq!(tree.children.len(), 2);
    assert_eq!(tree.children[0].source_path, "root.children[0]");
    assert_eq!(value(&tree.children[0].style.font_size), 16.0);
    assert_eq!(value(&tree.children[1].style.font_size), 30.0);
}

#[test]
fn font_weights_take_words_and_hundreds() {
    let stylesheet = StyleSheet::parse(
        "test.css",
        ".a { font-weight: +700; } .b { font-weight: normal; } .c { font-weight: 100; }",
    )
    .unwrap();
    let weight = |class: &str| stylesheet.compute(&widget(text("t"), None, &[class]), None).font_weight;
    assert_eq!(weight("a"), 700);
    assert_eq!(weight("b"), 400);
    assert_eq!(weight("c"), 100);
    assert_eq!(error_message("text { font-weight: 1000; }"), "invalid font-weight value \"1000\"");
}

#[test]
fn every_widget_type_has_a_type_selector() {
    let stylesheet = StyleSheet::parse(
        "test.css",
        r#"
circular-progress { color: #111111; }
graph { color: #222222; }
gauge { color: #333333; }
conditional { color: #444444; }
gauge.big { font-size: 30px; }
"#,
    )
    .unwrap();
    assert_eq!(stylesheet.rules().len(), 5);
    let zero = || Decimal::from_digit_text("0", 0);
    let gauge = widget(
        WidgetKind::gauge(
            Binding::parse("{{ v }}").unwrap(),
            zero(),
            Decimal::from_digit_text("100", 0),
            zero(),
            Decimal::from_digit_text("270", 0),
            Decimal::from_digit_text("8", 0),
            Decimal::from_digit_text("2", 0),
        ),
        None,
        &["big"],
    );
    let style = stylesheet.compute(&gauge, None);
    assert_eq!(style.color, Color { red: 0x33, green: 0x33, blue: 0x33, alpha: 0xff });
    assert_eq!(value(&style.font_size), 30.0);
    let spacer = widget(WidgetKind::spacer(), None, &[]);
    let style = stylesheet.compute(&spacer, None);
    assert_ne!(style.color, Color { red: 0x33, green: 0x33, blue: 0x33, alpha: 0xff });
}

#[test]
fn stylesheet_colors_read_like_background_colors() {
    for text in ["#102030", "#a0B0c0", "#10203040"] {
        let sheet = StyleSheet::parse("test.css", &format!("text {{ color: {text}; }}")).unwrap();
        let style = sheet.compute(&widget(text_kind(), None, &[]), None);
        assert_eq!(style.color, aster_ui::paint::parse_hex_color(text).unwrap());
    }
    for text in ["#12345", "#1234567", "#12345g"] {
        assert!(StyleSheet::parse("test.css", &format!("text {{ color: {text}; }}")).is_err());
    }
}

fn text_kind() -> WidgetKind {
    text("x")
}
