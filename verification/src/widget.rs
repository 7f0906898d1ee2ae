//! The normalized widget tree of a dashboard.
use vstd::prelude::*;
use crate::binding::{
    Binding, BindingResolveError, NumberTable, Resolution, SpecResolution, SpecResolveFailure,
    SpecSegment, ValueMap, SpecNumberOutcome, spec_resolve,
};
use crate::number::{Decimal, SpecDecimal};
use crate::text::{lowers_to, lowers_to_char, trimmed, chars_of, trim_window};

verus! {

broadcast use vstd::string::group_string_axioms;

#[derive(Debug, Clone, Copy, PartialEq, Eq, Structural)]
pub enum FlexDirection {
    Row,
    Column,
}

#[derive(Debug, Clone, Copy, PartialEq, Eq, Structural)]
pub enum ProgressOrientation {
    Horizontal,
    Vertical,
}

/// The type of a widget, as stylesheets name it.
#[derive(Debug, Clone, Copy, PartialEq, Eq, Structural)]
pub enum WidgetType {
    Row,
    Column,
    Stack,
    Text,
    Image,
    Spacer,
    Progress,
    CircularProgress,
    Graph,
    Gauge,
    Conditional,
}

/// How a conditional widget compares its resolved value.
#[derive(Debug)]
pub enum ConditionComparison {
    /// Non-empty after trimming, and not `0`, `false`, `no` or `off` in any case.
    Truthy,
    Equals(String),
    NotEquals(String),
}

pub enum SpecComparison {
    Truthy,
    Equals(Seq<char>),
    NotEquals(Seq<char>),
}

impl View for ConditionComparison {
    type V = SpecComparison;

    open spec fn view(&self) -> SpecComparison {
        match self {
            ConditionComparison::Truthy => SpecComparison::Truthy,
            ConditionComparison::Equals(v) => SpecComparison::Equals(v@),
            ConditionComparison::NotEquals(v) => SpecComparison::NotEquals(v@),
        }
    }
}

/// The condition of a conditional widget.
#[derive(Debug)]
pub struct Condition {
    value: Binding,
    comparison: ConditionComparison,
}

pub struct SpecCondition {
    pub value: Seq<SpecSegment>,
    pub comparison: SpecComparison,
}

impl View for Condition {
    type V = SpecCondition;

    closed spec fn view(&self) -> SpecCondition {
        SpecCondition { value: self.value@, comparison: self.comparison@ }
    }
}

/// Where evaluating a condition stands.
pub enum SpecEvaluation {
    Decided(bool),
    Need(Seq<char>, nat),
    Fail(Seq<char>, SpecResolveFailure),
}

#[derive(Debug)]
pub enum Evaluation {
    Decided(bool),
    NeedsNumber { raw: String, precision: usize },
    Failed(BindingResolveError),
}

impl View for Evaluation {
    type V = SpecEvaluation;

    open spec fn view(&self) -> SpecEvaluation {
        match self {
            Evaluation::Decided(b) => SpecEvaluation::Decided(*b),
            Evaluation::NeedsNumber { raw, precision } => SpecEvaluation::Need(
                raw@,
                *precision as nat,
            ),
            Evaluation::Failed(e) => SpecEvaluation::Fail(e.key@, e.failure@),
        }
    }
}

/// The window is `word` (in lower case), ignoring ASCII case.
pub open spec fn lower_equals(s: Seq<char>, lo: int, hi: int, word: Seq<char>) -> bool {
    &&& hi - lo == word.len()
    &&& forall|k: int| 0 <= k < word.len() ==> lowers_to(#[trigger] s[lo + k], word[k])
}

/// A resolved value counts as true: not empty once trimmed, and not `0`,
/// `false`, `no` or `off` in any ASCII case.
pub open spec fn is_truthy(v: Seq<char>) -> bool {
    let (a, b) = trimmed(v, 0, v.len() as int);
    &&& a < b
    &&& !lower_equals(v, a, b, seq!['0'])
    &&& !lower_equals(v, a, b, seq!['f', 'a', 'l', 's', 'e'])
    &&& !lower_equals(v, a, b, seq!['n', 'o'])
    &&& !lower_equals(v, a, b, seq!['o', 'f', 'f'])
}

/// `c` is `lower` or its upper-case form `upper`.
pub open spec fn either_case(c: char, lower: char, upper: char) -> bool {
    c == lower || c == upper
}

/// The words that count as false, in any ASCII case, once white space
/// around the value is dropped: `0`, `false`, `no` and `off`; an empty value
/// is false too. Every other value is true, so truth does not depend on the
/// ASCII case of the value.
pub proof fn law_false_words_in_any_case(v: Seq<char>)
    ensures
        ({
            let (a, b) = trimmed(v, 0, v.len() as int);
            let off = b - a == 3 && either_case(v[a], 'o', 'O') && either_case(v[a + 1], 'f', 'F')
                && either_case(v[a + 2], 'f', 'F');
            let no = b - a == 2 && either_case(v[a], 'n', 'N') && either_case(v[a + 1], 'o', 'O');
            let zero = b - a == 1 && v[a] == '0';
            let f = b - a == 5 && either_case(v[a], 'f', 'F') && either_case(v[a + 1], 'a', 'A')
                && either_case(v[a + 2], 'l', 'L') && either_case(v[a + 3], 's', 'S')
                && either_case(v[a + 4], 'e', 'E');
            &&& a == b ==> !is_truthy(v)
            &&& off ==> !is_truthy(v)
            &&& no ==> !is_truthy(v)
            &&& zero ==> !is_truthy(v)
            &&& f ==> !is_truthy(v)
            &&& (a < b && !off && !no && !zero && !f) ==> is_truthy(v)
        }),
{
    let (a, b) = trimmed(v, 0, v.len() as int);
    assert(lowers_to('O', 'o') && lowers_to('F', 'f') && lowers_to('N', 'n'));
    assert(lowers_to('A', 'a') && lowers_to('L', 'l') && lowers_to('S', 's') && lowers_to('E', 'e'));
    if b - a == 3 && either_case(v[a], 'o', 'O') && either_case(v[a + 1], 'f', 'F') && either_case(
        v[a + 2],
        'f',
        'F',
    ) {
        assert(lower_equals(v, a, b, seq!['o', 'f', 'f']));
    }
    if b - a == 2 && either_case(v[a], 'n', 'N') && either_case(v[a + 1], 'o', 'O') {
        assert(lower_equals(v, a, b, seq!['n', 'o']));
    }
    if b - a == 1 && v[a] == '0' {
        assert(lower_equals(v, a, b, seq!['0']));
    }
    if b - a == 5 && either_case(v[a], 'f', 'F') && either_case(v[a + 1], 'a', 'A') && either_case(
        v[a + 2],
        'l',
        'L',
    ) && either_case(v[a + 3], 's', 'S') && either_case(v[a + 4], 'e', 'E') {
        assert(lower_equals(v, a, b, seq!['f', 'a', 'l', 's', 'e']));
    }
    if lower_equals(v, a, b, seq!['o', 'f', 'f']) {
        assert(lowers_to(v[a + 0], 'o') && lowers_to(v[a + 1], 'f') && lowers_to(v[a + 2], 'f'));
        lemma_lowers_to_letter(v[a], 'o', 'O');
        lemma_lowers_to_letter(v[a + 1], 'f', 'F');
        lemma_lowers_to_letter(v[a + 2], 'f', 'F');
    }
    if lower_equals(v, a, b, seq!['n', 'o']) {
        assert(lowers_to(v[a + 0], 'n') && lowers_to(v[a + 1], 'o'));
        lemma_lowers_to_letter(v[a], 'n', 'N');
        lemma_lowers_to_letter(v[a + 1], 'o', 'O');
    }
    if lower_equals(v, a, b, seq!['0']) {
        assert(lowers_to(v[a + 0], '0'));
        if v[a] != '0' {
            assert((v[a] as u32) + 32 == 48);
        }
    }
    if lower_equals(v, a, b, seq!['f', 'a', 'l', 's', 'e']) {
        assert(lowers_to(v[a + 0], 'f') && lowers_to(v[a + 1], 'a') && lowers_to(v[a + 2], 'l'));
        assert(lowers_to(v[a + 3], 's') && lowers_to(v[a + 4], 'e'));
        lemma_lowers_to_letter(v[a], 'f', 'F');
        lemma_lowers_to_letter(v[a + 1], 'a', 'A');
        lemma_lowers_to_letter(v[a + 2], 'l', 'L');
        lemma_lowers_to_letter(v[a + 3], 's', 'S');
        lemma_lowers_to_letter(v[a + 4], 'e', 'E');
    }
}

proof fn lemma_lowers_to_letter(c: char, lower: char, upper: char)
    requires
        'a' <= lower <= 'z',
        'A' <= upper <= 'Z',
        (upper as u32) + 32 == (lower as u32),
        lowers_to(c, lower),
    ensures
        either_case(c, lower, upper),
{
    if c != lower {
        assert((c as u32) == (upper as u32));
    }
}

pub open spec fn compares_true(comparison: SpecComparison, v: Seq<char>) -> bool {
    match comparison {
        SpecComparison::Truthy => is_truthy(v),
        SpecComparison::Equals(expected) => v == expected,
        SpecComparison::NotEquals(expected) => v != expected,
    }
}

pub open spec fn spec_evaluate(
    c: SpecCondition,
    values: Map<Seq<char>, Seq<char>>,
    numbers: Map<(Seq<char>, nat), SpecNumberOutcome>,
) -> SpecEvaluation {
    match spec_resolve(c.value, values, numbers) {
        SpecResolution::Done(v) => SpecEvaluation::Decided(compares_true(c.comparison, v)),
        SpecResolution::Need(raw, p) => SpecEvaluation::Need(raw, p),
        SpecResolution::Fail(key, failure) => SpecEvaluation::Fail(key, failure),
    }
}

fn lower_equals_exec(s: &Vec<char>, lo: usize, hi: usize, word: &str) -> (r: bool)
    requires
        lo <= hi <= s@.len(),
    ensures
        r == lower_equals(s@, lo as int, hi as int, word@),
{
    let w = chars_of(word);
    if hi - lo != w.len() {
        return false;
    }
    let mut k: usize = 0;
    while k < w.len()
        invariant
            w@ == word@,
            hi - lo == w@.len(),
            lo <= hi <= s@.len(),
            k <= w@.len(),
            forall|j: int| 0 <= j < k ==> lowers_to(#[trigger] s@[lo + j], w@[j]),
        decreases w@.len() - k,
    {
        if !lowers_to_char(s[lo + k], w[k]) {
            return false;
        }
        k += 1;
    }
    true
}

fn truthy(v: &String) -> (r: bool)
    ensures
        r == is_truthy(v@),
{
    let s = chars_of(v.as_str());
    let (a, b) = trim_window(&s, 0, s.len());
    proof {
        reveal_strlit("0");
        reveal_strlit("false");
        reveal_strlit("no");
        reveal_strlit("off");
        assert("0"@ =~= seq!['0']);
        assert("false"@ =~= seq!['f', 'a', 'l', 's', 'e']);
        assert("no"@ =~= seq!['n', 'o']);
        assert("off"@ =~= seq!['o', 'f', 'f']);
    }
    a < b && !lower_equals_exec(&s, a, b, "0") && !lower_equals_exec(&s, a, b, "false")
        && !lower_equals_exec(&s, a, b, "no") && !lower_equals_exec(&s, a, b, "off")
}

impl Condition {
    pub fn new(value: Binding, comparison: ConditionComparison) -> (r: Condition)
        ensures
            r@ == (SpecCondition { value: value@, comparison: comparison@ }),
    {
        Condition { value, comparison }
    }

    /// Resolves the value and compares it.
    pub fn evaluate(&self, values: &ValueMap, numbers: &NumberTable) -> (r: Evaluation)
        ensures
            r@ == spec_evaluate(self@, values@, numbers@),
    {
        match self.value.resolve(values, numbers) {
            Resolution::Resolved(v) => {
                let decided = match &self.comparison {
                    ConditionComparison::Truthy => truthy(&v),
                    ConditionComparison::Equals(expected) => v == *expected,
                    ConditionComparison::NotEquals(expected) => !(v == *expected),
                };
                Evaluation::Decided(decided)
            },
            Resolution::NeedsNumber { raw, precision } => Evaluation::NeedsNumber { raw, precision },
            Resolution::Failed(e) => Evaluation::Failed(e),
        }
    }

    pub fn value(&self) -> (r: &Binding)
        ensures
            r@ == self@.value,
    {
        &self.value
    }

    pub fn comparison(&self) -> (r: &ConditionComparison)
        ensures
            r@ == self@.comparison,
    {
        &self.comparison
    }
}

/// Equal-valued conditions with `equals` and with `not-equals` decide oppositely.
pub proof fn law_equals_and_not_equals_are_complementary(
    value: Seq<SpecSegment>,
    expected: Seq<char>,
    values: Map<Seq<char>, Seq<char>>,
    numbers: Map<(Seq<char>, nat), SpecNumberOutcome>,
)
    ensures
        spec_evaluate(
            SpecCondition { value, comparison: SpecComparison::Equals(expected) },
            values,
            numbers,
        ) matches SpecEvaluation::Decided(b) ==> spec_evaluate(
            SpecCondition { value, comparison: SpecComparison::NotEquals(expected) },
            values,
            numbers,
        ) == SpecEvaluation::Decided(!b),
{
}

/// A condition decides on the text its binding resolves to: `equals` holds
/// exactly when the text is the expected one, `not-equals` exactly when it
/// is not, and a plain condition when the text is truthy. A binding that
/// needs a number or fails passes that on undecided.
pub proof fn law_condition_decides_on_the_resolved_text(
    value: Seq<SpecSegment>,
    expected: Seq<char>,
    values: Map<Seq<char>, Seq<char>>,
    numbers: Map<(Seq<char>, nat), SpecNumberOutcome>,
)
    ensures
        spec_resolve(value, values, numbers) matches SpecResolution::Done(t) ==> {
            &&& spec_evaluate(
                SpecCondition { value, comparison: SpecComparison::Equals(expected) },
                values,
                numbers,
            ) == SpecEvaluation::Decided(t == expected)
            &&& spec_evaluate(
                SpecCondition { value, comparison: SpecComparison::NotEquals(expected) },
                values,
                numbers,
            ) == SpecEvaluation::Decided(t != expected)
            &&& spec_evaluate(
                SpecCondition { value, comparison: SpecComparison::Truthy },
                values,
                numbers,
            ) == SpecEvaluation::Decided(is_truthy(t))
        },
        !(spec_resolve(value, values, numbers) is Done) ==> !(spec_evaluate(
            SpecCondition { value, comparison: SpecComparison::Equals(expected) },
            values,
            numbers,
        ) is Decided),
{
}

// ---------------------------------------------------------------------------
// Widgets.

/// What a widget is, with its content and, for containers, its children.
#[derive(Debug)]
pub enum WidgetKind {
    Flex { direction: FlexDirection, children: Vec<Widget> },
    Stack { children: Vec<Widget> },
    Text { text: Binding },
    Image { source: String },
    Spacer,
    Progress { value: Binding, min: Decimal, max: Decimal, orientation: ProgressOrientation },
    CircularProgress {
        value: Binding,
        min: Decimal,
        max: Decimal,
        start_angle: Decimal,
        sweep_angle: Decimal,
        thickness: Decimal,
    },
    Graph {
        values: Binding,
        min: Option<Decimal>,
        max: Option<Decimal>,
        line_width: Decimal,
        fill: bool,
    },
    Gauge {
        value: Binding,
        min: Decimal,
        max: Decimal,
        start_angle: Decimal,
        sweep_angle: Decimal,
        thickness: Decimal,
        needle_width: Decimal,
    },
    Conditional { condition: Condition, children: Vec<Widget> },
}

/// A widget: where it stands in the configuration, its id and classes, and its kind.
#[derive(Debug)]
pub struct Widget {
    source_path: String,
    id: Option<String>,
    classes: Vec<String>,
    kind: WidgetKind,
}

pub enum SpecWidgetKind {
    Flex { direction: FlexDirection, children: Seq<SpecWidget> },
    Stack { children: Seq<SpecWidget> },
    Text { text: Seq<SpecSegment> },
    Image { source: Seq<char> },
    Spacer,
    Progress {
        value: Seq<SpecSegment>,
        min: SpecDecimal,
        max: SpecDecimal,
        orientation: ProgressOrientation,
    },
    CircularProgress {
        value: Seq<SpecSegment>,
        min: SpecDecimal,
        max: SpecDecimal,
        start_angle: SpecDecimal,
        sweep_angle: SpecDecimal,
        thickness: SpecDecimal,
    },
    Graph {
        values: Seq<SpecSegment>,
        min: Option<SpecDecimal>,
        max: Option<SpecDecimal>,
        line_width: SpecDecimal,
        fill: bool,
    },
    Gauge {
        value: Seq<SpecSegment>,
        min: SpecDecimal,
        max: SpecDecimal,
        start_angle: SpecDecimal,
        sweep_angle: SpecDecimal,
        thickness: SpecDecimal,
        needle_width: SpecDecimal,
    },
    Conditional { condition: SpecCondition, children: Seq<SpecWidget> },
}

pub struct SpecWidget {
    pub source_path: Seq<char>,
    pub id: Option<Seq<char>>,
    pub classes: Seq<Seq<char>>,
    pub kind: SpecWidgetKind,
}

pub open spec fn strings_view(v: Seq<String>) -> Seq<Seq<char>> {
    v.map_values(|s: String| s@)
}

pub open spec fn option_string_view(v: Option<String>) -> Option<Seq<char>> {
    match v {
        Some(s) => Some(s@),
        None => None,
    }
}

pub open spec fn option_decimal_view(v: Option<Decimal>) -> Option<SpecDecimal> {
    match v {
        Some(d) => Some(d@),
        None => None,
    }
}

pub open spec fn empty_widget() -> SpecWidget {
    SpecWidget { source_path: seq![], id: None, classes: seq![], kind: SpecWidgetKind::Spacer }
}

/// The view of a list of child widgets.
pub closed spec fn children_view(k: WidgetKind, children: Vec<Widget>) -> Seq<SpecWidget>
    recommends
        decreases_to!(k => children),
    decreases k, 0int,
{
    Seq::new(
        children@.len(),
        |i: int|
            if 0 <= i < children@.len() && decreases_to!(k => children) {
                proof {
                    assert(decreases_to!(children => children@[i]));
                }
                widget_view(children@[i])
            } else {
                empty_widget()
            },
    )
}

pub closed spec fn kind_view(k: WidgetKind) -> SpecWidgetKind
    decreases k, 1int,
{
    match k {
        WidgetKind::Flex { direction, children } => SpecWidgetKind::Flex {
            direction,
            children: children_view(k, children),
        },
        WidgetKind::Stack { children } => SpecWidgetKind::Stack { children: children_view(k, children) },
        WidgetKind::Text { text } => SpecWidgetKind::Text { text: text@ },
        WidgetKind::Image { source } => SpecWidgetKind::Image { source: source@ },
        WidgetKind::Spacer => SpecWidgetKind::Spacer,
        WidgetKind::Progress { value, min, max, orientation } => SpecWidgetKind::Progress {
            value: value@,
            min: min@,
            max: max@,
            orientation,
        },
        WidgetKind::CircularProgress { value, min, max, start_angle, sweep_angle, thickness } =>
            SpecWidgetKind::CircularProgress {
            value: value@,
            min: min@,
            max: max@,
            start_angle: start_angle@,
            sweep_angle: sweep_angle@,
            thickness: thickness@,
        },
        WidgetKind::Graph { values, min, max, line_width, fill } => SpecWidgetKind::Graph {
            values: values@,
            min: option_decimal_view(min),
            max: option_decimal_view(max),
            line_width: line_width@,
            fill,
        },
        WidgetKind::Gauge {
            value,
            min,
            max,
            start_angle,
            sweep_angle,
            thickness,
            needle_width,
        } => SpecWidgetKind::Gauge {
            value: value@,
            min: min@,
            max: max@,
            start_angle: start_angle@,
            sweep_angle: sweep_angle@,
            thickness: thickness@,
            needle_width: needle_width@,
        },
        WidgetKind::Conditional { condition, children } => SpecWidgetKind::Conditional {
            condition: condition@,
            children: children_view(k, children),
        },
    }
}

pub closed spec fn widget_view(w: Widget) -> SpecWidget
    decreases w, 2int,
{
    SpecWidget {
        source_path: w.source_path@,
        id: option_string_view(w.id),
        classes: strings_view(w.classes@),
        kind: kind_view(w.kind),
    }
}

/// The views of a list of widgets.
pub open spec fn widgets_view(ws: Seq<Widget>) -> Seq<SpecWidget> {
    ws.map_values(|w: Widget| w@)
}

impl View for WidgetKind {
    type V = SpecWidgetKind;

    open spec fn view(&self) -> SpecWidgetKind {
        kind_view(*self)
    }
}

impl View for Widget {
    type V = SpecWidget;

    closed spec fn view(&self) -> SpecWidget {
        widget_view(*self)
    }
}

pub proof fn lemma_children_view(k: WidgetKind, children: Vec<Widget>)
    requires
        decreases_to!(k => children),
    ensures
        children_view(k, children) == widgets_view(children@),
{
    assert forall|i: int| 0 <= i < children@.len() implies children_view(k, children)[i]
        == widgets_view(children@)[i] by {
        assert(decreases_to!(children => children@[i]));
    }
    assert(children_view(k, children) =~= widgets_view(children@));
}

/// The children of a kind, for the kinds that have them.
pub open spec fn spec_children(k: SpecWidgetKind) -> Seq<SpecWidget> {
    match k {
        SpecWidgetKind::Flex { children, .. } => children,
        SpecWidgetKind::Stack { children } => children,
        SpecWidgetKind::Conditional { children, .. } => children,
        _ => seq![],
    }
}

/// A child of a widget is smaller than the widget.
pub proof fn lemma_child_decreases(w: SpecWidget, i: int)
    requires
        0 <= i < spec_children(w.kind).len(),
    ensures
        decreases_to!(w => spec_children(w.kind)[i]),
{
    assert(decreases_to!(w => w.kind));
    match w.kind {
        SpecWidgetKind::Flex { children, .. } => {
            assert(decreases_to!(w.kind => children));
            assert(decreases_to!(children => children[i]));
        },
        SpecWidgetKind::Stack { children } => {
            assert(decreases_to!(w.kind => children));
            assert(decreases_to!(children => children[i]));
        },
        SpecWidgetKind::Conditional { children, .. } => {
            assert(decreases_to!(w.kind => children));
            assert(decreases_to!(children => children[i]));
        },
        _ => {},
    }
}

/// The widget type of a kind.
pub open spec fn spec_type_of(k: SpecWidgetKind) -> WidgetType {
    match k {
        SpecWidgetKind::Flex { direction: FlexDirection::Row, .. } => WidgetType::Row,
        SpecWidgetKind::Flex { direction: FlexDirection::Column, .. } => WidgetType::Column,
        SpecWidgetKind::Stack { .. } => WidgetType::Stack,
        SpecWidgetKind::Text { .. } => WidgetType::Text,
        SpecWidgetKind::Image { .. } => WidgetType::Image,
        SpecWidgetKind::Spacer => WidgetType::Spacer,
        SpecWidgetKind::Progress { .. } => WidgetType::Progress,
        SpecWidgetKind::CircularProgress { .. } => WidgetType::CircularProgress,
        SpecWidgetKind::Graph { .. } => WidgetType::Graph,
        SpecWidgetKind::Gauge { .. } => WidgetType::Gauge,
        SpecWidgetKind::Conditional { .. } => WidgetType::Conditional,
    }
}

/// The name of a widget type in configurations and stylesheets.
pub open spec fn spec_type_name(t: WidgetType) -> Seq<char> {
    match t {
        WidgetType::Row => "row"@,
        WidgetType::Column => "column"@,
        WidgetType::Stack => "stack"@,
        WidgetType::Text => "text"@,
        WidgetType::Image => "image"@,
        WidgetType::Spacer => "spacer"@,
        WidgetType::Progress => "progress"@,
        WidgetType::CircularProgress => "circular-progress"@,
        WidgetType::Graph => "graph"@,
        WidgetType::Gauge => "gauge"@,
        WidgetType::Conditional => "conditional"@,
    }
}

impl WidgetType {
    pub fn name(&self) -> (r: &'static str)
        ensures
            r@ == spec_type_name(*self),
    {
        match self {
            WidgetType::Row => "row",
            WidgetType::Column => "column",
            WidgetType::Stack => "stack",
            WidgetType::Text => "text",
            WidgetType::Image => "image",
            WidgetType::Spacer => "spacer",
            WidgetType::Progress => "progress",
            WidgetType::CircularProgress => "circular-progress",
            WidgetType::Graph => "graph",
            WidgetType::Gauge => "gauge",
            WidgetType::Conditional => "conditional",
        }
    }
}

impl Widget {
    pub fn new(source_path: String, id: Option<String>, classes: Vec<String>, kind: WidgetKind) -> (r:
        Widget)
        ensures
            r@ == (SpecWidget {
                source_path: source_path@,
                id: option_string_view(id),
                classes: strings_view(classes@),
                kind: kind@,
            }),
    {
        Widget { source_path, id, classes, kind }
    }

    /// Where the widget stands in the configuration, such as `root.children[1]`.
    pub fn source_path(&self) -> (r: &String)
        ensures
            r@ == self@.source_path,
    {
        &self.source_path
    }

    pub fn id(&self) -> (r: &Option<String>)
        ensures
            option_string_view(*r) == self@.id,
    {
        &self.id
    }

    pub fn classes(&self) -> (r: &Vec<String>)
        ensures
            strings_view(r@) == self@.classes,
    {
        &self.classes
    }

    pub fn kind(&self) -> (r: &WidgetKind)
        ensures
            r@ == self@.kind,
    {
        &self.kind
    }

    /// The widget's type as stylesheets name it.
    pub fn widget_type(&self) -> (r: WidgetType)
        ensures
            r == spec_type_of(self@.kind),
    {
        match &self.kind {
            WidgetKind::Flex { direction: FlexDirection::Row, .. } => WidgetType::Row,
            WidgetKind::Flex { direction: FlexDirection::Column, .. } => WidgetType::Column,
            WidgetKind::Stack { .. } => WidgetType::Stack,
            WidgetKind::Text { .. } => WidgetType::Text,
            WidgetKind::Image { .. } => WidgetType::Image,
            WidgetKind::Spacer => WidgetType::Spacer,
            WidgetKind::Progress { .. } => WidgetType::Progress,
            WidgetKind::CircularProgress { .. } => WidgetType::CircularProgress,
            WidgetKind::Graph { .. } => WidgetType::Graph,
            WidgetKind::Gauge { .. } => WidgetType::Gauge,
            WidgetKind::Conditional { .. } => WidgetType::Conditional,
        }
    }

    /// The type name: `row`, `column`, `stack`, `text`, `image`, `spacer`,
    /// `progress`, `circular-progress`, `graph`, `gauge` or `conditional`.
    pub fn widget_type_name(&self) -> (r: &'static str)
        ensures
            r@ == spec_type_name(spec_type_of(self@.kind)),
    {
        self.widget_type().name()
    }

    /// The children, for the container kinds; none for the others.
    pub fn children(&self) -> (r: &[Widget])
        ensures
            widgets_view(r@) == spec_children(self@.kind),
    {
        match &self.kind {
            WidgetKind::Flex { children, .. } => {
                proof {
                    lemma_children_view(self.kind, *children);
                }
                children.as_slice()
            },
            WidgetKind::Stack { children } => {
                proof {
                    lemma_children_view(self.kind, *children);
                }
                children.as_slice()
            },
            WidgetKind::Conditional { children, .. } => {
                proof {
                    lemma_children_view(self.kind, *children);
                }
                children.as_slice()
            },
            _ => {
                let r: &[Widget] = &[];
                assert(widgets_view(r@) =~= seq![]);
                r
            },
        }
    }
}

impl WidgetKind {
    /// A row or column with its children.
    pub fn flex(direction: FlexDirection, children: Vec<Widget>) -> (r: WidgetKind)
        ensures
            r@ == (SpecWidgetKind::Flex { direction, children: widgets_view(children@) }),
    {
        let ghost c = children;
        let r = WidgetKind::Flex { direction, children };
        proof {
            lemma_children_view(r, c);
        }
        r
    }

    /// A stack with its children.
    pub fn stack(children: Vec<Widget>) -> (r: WidgetKind)
        ensures
            r@ == (SpecWidgetKind::Stack { children: widgets_view(children@) }),
    {
        let ghost c = children;
        let r = WidgetKind::Stack { children };
        proof {
            lemma_children_view(r, c);
        }
        r
    }

    /// A conditional with its children.
    pub fn conditional(condition: Condition, children: Vec<Widget>) -> (r: WidgetKind)
        ensures
            r@ == (SpecWidgetKind::Conditional {
                condition: condition@,
                children: widgets_view(children@),
            }),
    {
        let ghost c = children;
        let r = WidgetKind::Conditional { condition, children };
        proof {
            lemma_children_view(r, c);
        }
        r
    }

    pub fn text(text: Binding) -> (r: WidgetKind)
        ensures
            r@ == (SpecWidgetKind::Text { text: text@ }),
    {
        WidgetKind::Text { text }
    }

    pub fn image(source: String) -> (r: WidgetKind)
        ensures
            r@ == (SpecWidgetKind::Image { source: source@ }),
    {
        WidgetKind::Image { source }
    }

    pub fn spacer() -> (r: WidgetKind)
        ensures
            r@ == SpecWidgetKind::Spacer,
    {
        WidgetKind::Spacer
    }

    pub fn progress(
        value: Binding,
        min: Decimal,
        max: Decimal,
        orientation: ProgressOrientation,
    ) -> (r: WidgetKind)
        ensures
            r@ == (SpecWidgetKind::Progress { value: value@, min: min@, max: max@, orientation }),
    {
        WidgetKind::Progress { value, min, max, orientation }
    }

    pub fn circular_progress(
        value: Binding,
        min: Decimal,
        max: Decimal,
        start_angle: Decimal,
        sweep_angle: Decimal,
        thickness: Decimal,
    ) -> (r: WidgetKind)
        ensures
            r@ == (SpecWidgetKind::CircularProgress {
                value: value@,
                min: min@,
                max: max@,
                start_angle: start_angle@,
                sweep_angle: sweep_angle@,
                thickness: thickness@,
            }),
    {
        WidgetKind::CircularProgress { value, min, max, start_angle, sweep_angle, thickness }
    }

    pub fn graph(
        values: Binding,
        min: Option<Decimal>,
        max: Option<Decimal>,
        line_width: Decimal,
        fill: bool,
    ) -> (r: WidgetKind)
        ensures
            r@ == (SpecWidgetKind::Graph {
                values: values@,
                min: option_decimal_view(min),
                max: option_decimal_view(max),
                line_width: line_width@,
                fill,
            }),
    {
        WidgetKind::Graph { values, min, max, line_width, fill }
    }

    pub fn gauge(
        value: Binding,
        min: Decimal,
        max: Decimal,
        start_angle: Decimal,
        sweep_angle: Decimal,
        thickness: Decimal,
        needle_width: Decimal,
    ) -> (r: WidgetKind)
        ensures
            r@ == (SpecWidgetKind::Gauge {
                value: value@,
                min: min@,
                max: max@,
                start_angle: start_angle@,
                sweep_angle: sweep_angle@,
                thickness: thickness@,
                needle_width: needle_width@,
            }),
    {
        WidgetKind::Gauge { value, min, max, start_angle, sweep_angle, thickness, needle_width }
    }
}

impl Widget {
    /// The configured image file, for an image widget.
    pub fn image_source(&self) -> (r: Option<&String>)
        ensures
            match self@.kind {
                SpecWidgetKind::Image { source } => r is Some && r->0@ == source,
                _ => r is None,
            },
    {
        match &self.kind {
            WidgetKind::Image { source } => Some(source),
            _ => None,
        }
    }
}

/// Whether a widget takes part in layout and painting: a conditional widget
/// does when its condition holds, every other widget always does.
pub open spec fn spec_visibility(
    w: SpecWidget,
    values: Map<Seq<char>, Seq<char>>,
    numbers: Map<(Seq<char>, nat), SpecNumberOutcome>,
) -> SpecEvaluation {
    match w.kind {
        SpecWidgetKind::Conditional { condition, .. } => spec_evaluate(condition, values, numbers),
        _ => SpecEvaluation::Decided(true),
    }
}

impl Widget {
    /// Decides whether the widget is shown. A hidden widget collapses with
    /// everything inside it, so nothing inside it is resolved.
    pub fn visibility(&self, values: &ValueMap, numbers: &NumberTable) -> (r: Evaluation)
        ensures
            r@ == spec_visibility(self@, values@, numbers@),
    {
        match &self.kind {
            WidgetKind::Conditional { condition, .. } => condition.evaluate(values, numbers),
            _ => Evaluation::Decided(true),
        }
    }
}

} // verus!
