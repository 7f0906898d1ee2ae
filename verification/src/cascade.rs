//! The cascade: which rules reach a widget, in which order, and the style
//! that results, for one widget and for a whole tree.
use vstd::prelude::*;
use crate::number::{Decimal, spec_decimal_of, spec_zero};
use crate::sheet::{
    Selector, SpecRule, SpecSelector, SpecStyleSheet, StyleSheet, rules_view,
};
use crate::style::{
    Align, Color, ComputedStyle, Display, Edges, FlexDirectionStyle, JustifyContent, Length,
    ObjectFit, ObjectPosition, Overflow, SpecComputedStyle, SpecLength, TextAlign, TextOverflow,
    SpecDeclarations, WhiteSpace, edges_all, pick, spec_apply, transparent, white,
};
use crate::widget::{
    SpecWidget, SpecWidgetKind, Widget, WidgetType, lemma_child_decreases,
    spec_children, spec_type_of, strings_view, widgets_view,
};

verus! {

broadcast use vstd::string::group_string_axioms;

// ---------------------------------------------------------------------------
// Selectors against widgets.

/// Whether a selector picks out a widget.
pub open spec fn selector_matches(sel: SpecSelector, w: SpecWidget) -> bool {
    match sel {
        SpecSelector::Type(t) => spec_type_of(w.kind) == t,
        SpecSelector::Class(c) => w.classes.contains(c),
        SpecSelector::TypeClass { widget_type, class } => spec_type_of(w.kind) == widget_type
            && w.classes.contains(class),
        SpecSelector::Id(i) => w.id == Some(i),
    }
}

/// How specific a selector is: type 1, class 2, type plus class 3, id 4.
pub open spec fn specificity(sel: SpecSelector) -> int {
    match sel {
        SpecSelector::Type(_) => 1,
        SpecSelector::Class(_) => 2,
        SpecSelector::TypeClass { .. } => 3,
        SpecSelector::Id(_) => 4,
    }
}

fn has_class(widget: &Widget, class: &String) -> (r: bool)
    ensures
        r == widget@.classes.contains(class@),
{
    let classes = widget.classes();
    let n = classes.len();
    let mut k: usize = 0;
    while k < n
        invariant
            k <= n == classes@.len(),
            strings_view(classes@) == widget@.classes,
            forall|j: int| 0 <= j < k ==> widget@.classes[j] != class@,
        decreases n - k,
    {
        assert(widget@.classes[k as int] == classes@[k as int]@);
        if classes[k] == *class {
            assert(widget@.classes[k as int] == class@);
            return true;
        }
        k += 1;
    }
    false
}

impl Selector {
    /// Whether the selector picks out the widget.
    pub fn matches(&self, widget: &Widget) -> (r: bool)
        ensures
            r == selector_matches(self@, widget@),
    {
        match self {
            Selector::Type(t) => widget.widget_type() == *t,
            Selector::Class(c) => has_class(widget, c),
            Selector::TypeClass { widget_type, class } => widget.widget_type() == *widget_type
                && has_class(widget, class),
            Selector::Id(i) => match widget.id() {
                Some(id) => *id == *i,
                None => false,
            },
        }
    }

    /// Type 1, class 2, type plus class 3, id 4.
    pub fn specificity(&self) -> (r: u8)
        ensures
            r as int == specificity(self@),
    {
        match self {
            Selector::Type(_) => 1,
            Selector::Class(_) => 2,
            Selector::TypeClass { .. } => 3,
            Selector::Id(_) => 4,
        }
    }
}

// ---------------------------------------------------------------------------
// The style a widget starts from.

/// The parent's style, as a value.
pub open spec fn parent_view(p: Option<&ComputedStyle>) -> Option<SpecComputedStyle> {
    match p {
        Some(s) => Some(s@),
        None => None,
    }
}

/// Where a parent is given, `inherited` is its value; else `default`.
pub open spec fn inherit<T>(parent: Option<SpecComputedStyle>, inherited: spec_fn(SpecComputedStyle) -> T, default: T) -> T {
    match parent {
        Some(p) => inherited(p),
        None => default,
    }
}

pub open spec fn px_zero() -> SpecLength {
    SpecLength::Px(spec_zero())
}

/// The style of a widget before any rule: layout from its kind; color, font
/// family, size, weight, line height and text alignment from the parent
/// where there is one; the rest fixed.
pub open spec fn spec_initial(w: SpecWidget, parent: Option<SpecComputedStyle>) -> SpecComputedStyle {
    SpecComputedStyle {
        display: if spec_type_of(w.kind) == WidgetType::Stack {
            Display::Stack
        } else {
            Display::Flex
        },
        flex_direction: if spec_type_of(w.kind) == WidgetType::Column {
            FlexDirectionStyle::Column
        } else {
            FlexDirectionStyle::Row
        },
        flex_grow: spec_zero(),
        flex_shrink: spec_decimal_of("1"@, 0),
        width: SpecLength::Auto,
        height: SpecLength::Auto,
        min_width: SpecLength::Auto,
        min_height: SpecLength::Auto,
        max_width: SpecLength::Auto,
        max_height: SpecLength::Auto,
        gap: px_zero(),
        margin: edges_all(px_zero()),
        padding: edges_all(px_zero()),
        align_items: Align::Stretch,
        align_self: None,
        justify_content: JustifyContent::Start,
        color: inherit(parent, |p: SpecComputedStyle| p.color, white()),
        background_color: transparent(),
        opacity: spec_decimal_of("1"@, 0),
        border_width: spec_zero(),
        border_color: transparent(),
        border_radius: spec_zero(),
        overflow: Overflow::Visible,
        font_family: inherit(parent, |p: SpecComputedStyle| p.font_family, "DejaVu Sans"@),
        font_size: inherit(parent, |p: SpecComputedStyle| p.font_size, spec_decimal_of("16"@, 0)),
        font_weight: inherit(parent, |p: SpecComputedStyle| p.font_weight, 400u16),
        line_height: inherit(
            parent,
            |p: SpecComputedStyle| p.line_height,
            spec_decimal_of("12"@, -1),
        ),
        text_align: inherit(parent, |p: SpecComputedStyle| p.text_align, TextAlign::Start),
        text_overflow: TextOverflow::Clip,
        white_space: WhiteSpace::Normal,
        object_fit: ObjectFit::Contain,
        object_position: ObjectPosition::Center,
    }
}

fn initial_layout(widget: &Widget) -> (r: (Display, FlexDirectionStyle))
    ensures
        r.0 == spec_initial(widget@, None).display,
        r.1 == spec_initial(widget@, None).flex_direction,
{
    match widget.widget_type() {
        WidgetType::Stack => (Display::Stack, FlexDirectionStyle::Row),
        WidgetType::Column => (Display::Flex, FlexDirectionStyle::Column),
        _ => (Display::Flex, FlexDirectionStyle::Row),
    }
}

fn inherited_part(parent: Option<&ComputedStyle>) -> (r: (Color, String, Decimal, u16, Decimal, TextAlign))
    ensures
        r.0 == spec_initial(arbitrary_widget(), parent_view(parent)).color,
        r.1@ == spec_initial(arbitrary_widget(), parent_view(parent)).font_family,
        r.2@ == spec_initial(arbitrary_widget(), parent_view(parent)).font_size,
        r.3 == spec_initial(arbitrary_widget(), parent_view(parent)).font_weight,
        r.4@ == spec_initial(arbitrary_widget(), parent_view(parent)).line_height,
        r.5 == spec_initial(arbitrary_widget(), parent_view(parent)).text_align,
{
    match parent {
        Some(p) => (
            p.color,
            p.font_family.clone(),
            p.font_size.duplicate(),
            p.font_weight,
            p.line_height.duplicate(),
            p.text_align,
        ),
        None => (
            Color::white(),
            "DejaVu Sans".to_string(),
            Decimal::from_digit_text("16", 0),
            400,
            Decimal::from_digit_text("12", -1),
            TextAlign::Start,
        ),
    }
}

/// Some widget, for the parts of the initial style that do not depend on it.
pub open spec fn arbitrary_widget() -> SpecWidget {
    SpecWidget { source_path: seq![], id: None, classes: seq![], kind: SpecWidgetKind::Spacer }
}

fn px_zero_exec() -> (r: Length)
    ensures
        r@ == px_zero(),
{
    Length::Px(Decimal::zero())
}

impl ComputedStyle {
    /// The style of `widget` before any rule, inheriting from `parent`.
    pub fn initial(widget: &Widget, parent: Option<&ComputedStyle>) -> (r: ComputedStyle)
        ensures
            r@ == spec_initial(widget@, parent_view(parent)),
    {
        let (display, flex_direction) = initial_layout(widget);
        let (color, font_family, font_size, font_weight, line_height, text_align) = inherited_part(
            parent,
        );
        let r = ComputedStyle {
            display,
            flex_direction,
            flex_grow: Decimal::zero(),
            flex_shrink: Decimal::from_digit_text("1", 0),
            width: Length::Auto,
            height: Length::Auto,
            min_width: Length::Auto,
            min_height: Length::Auto,
            max_width: Length::Auto,
            max_height: Length::Auto,
            gap: px_zero_exec(),
            margin: Edges::all(px_zero_exec()),
            padding: Edges::all(px_zero_exec()),
            align_items: Align::Stretch,
            align_self: None,
            justify_content: JustifyContent::Start,
            color,
            background_color: Color::transparent(),
            opacity: Decimal::from_digit_text("1", 0),
            border_width: Decimal::zero(),
            border_color: Color::transparent(),
            border_radius: Decimal::zero(),
            overflow: Overflow::Visible,
            font_family,
            font_size,
            font_weight,
            line_height,
            text_align,
            text_overflow: TextOverflow::Clip,
            white_space: WhiteSpace::Normal,
            object_fit: ObjectFit::Contain,
            object_position: ObjectPosition::Center,
        };
        assert(r@ == spec_initial(widget@, parent_view(parent)));
        r
    }
}

// ---------------------------------------------------------------------------
// The order in which rules apply.

/// Indices below `n` of the rules of specificity `level` that pick out `w`, in source order.
pub open spec fn level_indices(rules: Seq<SpecRule>, w: SpecWidget, level: int, n: int) -> Seq<int>
    decreases n,
{
    if n <= 0 {
        seq![]
    } else {
        let prev = level_indices(rules, w, level, n - 1);
        if specificity(rules[n - 1].selector) == level && selector_matches(rules[n - 1].selector, w) {
            prev.push(n - 1)
        } else {
            prev
        }
    }
}

/// The matching rules of specificity up to `level`: by specificity, then source order.
pub open spec fn levels_upto(rules: Seq<SpecRule>, w: SpecWidget, level: int) -> Seq<int>
    decreases level,
{
    if level <= 0 {
        seq![]
    } else {
        levels_upto(rules, w, level - 1) + level_indices(rules, w, level, rules.len() as int)
    }
}

/// The indices of the rules that pick out `w`, in the order they apply.
pub open spec fn cascade_order(rules: Seq<SpecRule>, w: SpecWidget) -> Seq<int> {
    levels_upto(rules, w, 4)
}

/// `s` with the declarations of the rules at `order` applied, first to last.
pub open spec fn apply_rules(rules: Seq<SpecRule>, order: Seq<int>, s: SpecComputedStyle) -> SpecComputedStyle
    decreases order.len(),
{
    if order.len() == 0 {
        s
    } else {
        spec_apply(rules[order.last()].declarations, apply_rules(rules, order.drop_last(), s))
    }
}

/// The style of `w` under `parent`: its initial style with every matching rule applied.
pub open spec fn spec_compute(
    sheet: SpecStyleSheet,
    w: SpecWidget,
    parent: Option<SpecComputedStyle>,
) -> SpecComputedStyle {
    apply_rules(sheet.rules, cascade_order(sheet.rules, w), spec_initial(w, parent))
}

proof fn lemma_apply_push(rules: Seq<SpecRule>, order: Seq<int>, i: int, s: SpecComputedStyle)
    ensures
        apply_rules(rules, order.push(i), s) == spec_apply(
            rules[i].declarations,
            apply_rules(rules, order, s),
        ),
{
    assert(order.push(i).drop_last() =~= order);
}

impl StyleSheet {
    /// The style of `widget` under `parent`: the initial style with the
    /// matching rules applied by specificity, then source order.
    pub fn compute(&self, widget: &Widget, parent: Option<&ComputedStyle>) -> (r: ComputedStyle)
        ensures
            r@ == spec_compute(self@, widget@, parent_view(parent)),
    {
        let rules = self.rules();
        let ghost rv = self@.rules;
        let ghost w = widget@;
        let ghost init = spec_initial(widget@, parent_view(parent));
        let n = rules.len();
        let mut style = ComputedStyle::initial(widget, parent);
        let mut level: u8 = 1;
        while level <= 4
            invariant
                1 <= level <= 5,
                n == rules@.len(),
                rules_view(rules@) == rv,
                w == widget@,
                style@ == apply_rules(rv, levels_upto(rv, w, level - 1), init),
            decreases 5 - level,
        {
            let mut i: usize = 0;
            while i < n
                invariant
                    1 <= level <= 4,
                    i <= n == rules@.len(),
                    rules_view(rules@) == rv,
                    w == widget@,
                    style@ == apply_rules(
                        rv,
                        levels_upto(rv, w, level - 1) + level_indices(rv, w, level as int, i as int),
                        init,
                    ),
                decreases n - i,
            {
                let rule = &rules[i];
                assert(rv[i as int] == rule@);
                let ghost before = levels_upto(rv, w, level - 1) + level_indices(rv, w, level as int, i as int);
                assert(level_indices(rv, w, level as int, i + 1) == if specificity(rv[i as int].selector)
                    == level as int && selector_matches(rv[i as int].selector, w) {
                    level_indices(rv, w, level as int, i as int).push(i as int)
                } else {
                    level_indices(rv, w, level as int, i as int)
                });
                if rule.selector.specificity() == level && rule.selector.matches(widget) {
                    proof {
                        lemma_apply_push(rv, before, i as int, init);
                        assert(before.push(i as int) =~= levels_upto(rv, w, level - 1)
                            + level_indices(rv, w, level as int, i + 1));
                    }
                    style = rule.declarations.applied_to(&style);
                } else {
                    assert(before =~= levels_upto(rv, w, level - 1) + level_indices(
                        rv,
                        w,
                        level as int,
                        i + 1,
                    ));
                }
                i += 1;
            }
            level += 1;
        }
        style
    }
}

// ---------------------------------------------------------------------------
// Styled trees.

/// A widget's place in the configuration, its style, and its children's.
#[derive(Debug)]
pub struct StyledNode {
    pub source_path: String,
    pub style: ComputedStyle,
    pub children: Vec<StyledNode>,
}

pub struct SpecStyledNode {
    pub source_path: Seq<char>,
    pub style: SpecComputedStyle,
    pub children: Seq<SpecStyledNode>,
}

pub closed spec fn styled_view(n: StyledNode) -> SpecStyledNode
    decreases n,
{
    SpecStyledNode {
        source_path: n.source_path@,
        style: n.style@,
        children: Seq::new(
            n.children@.len(),
            |i: int|
                if 0 <= i < n.children@.len() {
                    proof {
                        assert(decreases_to!(n => n.children));
                        assert(decreases_to!(n.children => n.children@[i]));
                    }
                    styled_view(n.children@[i])
                } else {
                    SpecStyledNode { source_path: seq![], style: n.style@, children: seq![] }
                },
        ),
    }
}

impl View for StyledNode {
    type V = SpecStyledNode;

    closed spec fn view(&self) -> SpecStyledNode {
        styled_view(*self)
    }
}

proof fn lemma_styled_view(n: StyledNode)
    ensures
        n@.source_path == n.source_path@,
        n@.style == n.style@,
        n@.children == n.children@.map_values(|c: StyledNode| c@),
{
    assert(n@.children =~= n.children@.map_values(|c: StyledNode| c@));
}

/// The styled tree of `w` under `parent`.
pub open spec fn spec_styled(
    sheet: SpecStyleSheet,
    w: SpecWidget,
    parent: Option<SpecComputedStyle>,
) -> SpecStyledNode
    decreases w,
{
    let style = spec_compute(sheet, w, parent);
    SpecStyledNode {
        source_path: w.source_path,
        style,
        children: Seq::new(
            spec_children(w.kind).len(),
            |i: int|
                if 0 <= i < spec_children(w.kind).len() {
                    proof {
                        lemma_child_decreases(w, i);
                    }
                    spec_styled(sheet, spec_children(w.kind)[i], Some(style))
                } else {
                    SpecStyledNode { source_path: seq![], style, children: seq![] }
                },
        ),
    }
}

impl StyledNode {
    pub fn source_path(&self) -> (r: &String)
        ensures
            r@ == self@.source_path,
    {
        proof {
            lemma_styled_view(*self);
        }
        &self.source_path
    }

    pub fn style(&self) -> (r: &ComputedStyle)
        ensures
            r@ == self@.style,
    {
        proof {
            lemma_styled_view(*self);
        }
        &self.style
    }

    pub fn children(&self) -> (r: &Vec<StyledNode>)
        ensures
            r@.map_values(|c: StyledNode| c@) == self@.children,
    {
        proof {
            lemma_styled_view(*self);
        }
        &self.children
    }
}

impl StyleSheet {
    /// The styles of `root` and of everything below it.
    pub fn compute_tree(&self, root: &Widget) -> (r: StyledNode)
        ensures
            r@ == spec_styled(self@, root@, None),
    {
        self.compute_node(root, None)
    }

    fn compute_node(&self, widget: &Widget, parent: Option<&ComputedStyle>) -> (r: StyledNode)
        ensures
            r@ == spec_styled(self@, widget@, parent_view(parent)),
        decreases widget@,
    {
        let style = self.compute(widget, parent);
        let kids = widget.children();
        let n = kids.len();
        let ghost expected = spec_styled(self@, widget@, parent_view(parent));
        let mut children: Vec<StyledNode> = Vec::new();
        let mut i: usize = 0;
        while i < n
            invariant
                i <= n == kids@.len(),
                widgets_view(kids@) == spec_children(widget@.kind),
                style@ == expected.style,
                expected == spec_styled(self@, widget@, parent_view(parent)),
                children@.len() == i,
                forall|j: int| 0 <= j < i ==> #[trigger] children@[j]@ == expected.children[j],
            decreases n - i,
        {
            let child = &kids[i];
            assert(child@ == spec_children(widget@.kind)[i as int]);
            proof {
                lemma_child_decreases(widget@, i as int);
            }
            let node = self.compute_node(child, Some(&style));
            children.push(node);
            i += 1;
        }
        let r = StyledNode { source_path: widget.source_path().clone(), style, children };
        proof {
            lemma_styled_view(r);
            assert(r@.children =~= expected.children);
        }
        r
    }
}

// ---------------------------------------------------------------------------
// Laws of the cascade.

proof fn lemma_level_indices(rules: Seq<SpecRule>, w: SpecWidget, level: int, n: int)
    requires
        0 <= n <= rules.len(),
    ensures
        forall|p: int|
            0 <= p < level_indices(rules, w, level, n).len() ==> {
                let i = #[trigger] level_indices(rules, w, level, n)[p];
                &&& 0 <= i < n
                &&& specificity(rules[i].selector) == level
                &&& selector_matches(rules[i].selector, w)
            },
        forall|p: int, q: int|
            0 <= p < q < level_indices(rules, w, level, n).len() ==> #[trigger] level_indices(
                rules,
                w,
                level,
                n,
            )[p] < #[trigger] level_indices(rules, w, level, n)[q],
        forall|i: int|
            0 <= i < n && specificity(rules[i].selector) == level && selector_matches(
                rules[i].selector,
                w,
            ) ==> #[trigger] level_indices(rules, w, level, n).contains(i),
    decreases n,
{
    if n > 0 {
        lemma_level_indices(rules, w, level, n - 1);
        let prev = level_indices(rules, w, level, n - 1);
        let cur = level_indices(rules, w, level, n);
        assert forall|i: int|
            0 <= i < n && specificity(rules[i].selector) == level && selector_matches(
                rules[i].selector,
                w,
            ) implies #[trigger] cur.contains(i) by {
            if i < n - 1 {
                assert(prev.contains(i));
                let k = choose|k: int| 0 <= k < prev.len() && prev[k] == i;
                assert(cur[k] == i);
            } else {
                assert(cur[cur.len() - 1] == i);
            }
        }
    }
}

proof fn lemma_levels_upto(rules: Seq<SpecRule>, w: SpecWidget, level: int)
    requires
        0 <= level,
    ensures
        forall|p: int|
            0 <= p < levels_upto(rules, w, level).len() ==> {
                let i = #[trigger] levels_upto(rules, w, level)[p];
                &&& 0 <= i < rules.len()
                &&& 1 <= specificity(rules[i].selector) <= level
                &&& selector_matches(rules[i].selector, w)
            },
        forall|p: int, q: int|
            0 <= p < q < levels_upto(rules, w, level).len() ==> {
                let a = #[trigger] levels_upto(rules, w, level)[p];
                let b = #[trigger] levels_upto(rules, w, level)[q];
                specificity(rules[a].selector) < specificity(rules[b].selector) || (specificity(
                    rules[a].selector,
                ) == specificity(rules[b].selector) && a < b)
            },
        forall|i: int|
            0 <= i < rules.len() && specificity(rules[i].selector) <= level && selector_matches(
                rules[i].selector,
                w,
            ) ==> #[trigger] levels_upto(rules, w, level).contains(i),
    decreases level,
{
    if level > 0 {
        let n = rules.len() as int;
        lemma_levels_upto(rules, w, level - 1);
        lemma_level_indices(rules, w, level, n);
        let a = levels_upto(rules, w, level - 1);
        let b = level_indices(rules, w, level, n);
        let c = levels_upto(rules, w, level);
        assert(c == a + b);
        assert forall|p: int| 0 <= p < c.len() implies {
            let i = #[trigger] c[p];
            &&& 0 <= i < rules.len()
            &&& 1 <= specificity(rules[i].selector) <= level
            &&& selector_matches(rules[i].selector, w)
        } by {
            if p < a.len() {
                assert(c[p] == a[p]);
            } else {
                assert(c[p] == b[p - a.len()]);
            }
        }
        assert forall|p: int, q: int| 0 <= p < q < c.len() implies {
            let x = #[trigger] c[p];
            let y = #[trigger] c[q];
            specificity(rules[x].selector) < specificity(rules[y].selector) || (specificity(
                rules[x].selector,
            ) == specificity(rules[y].selector) && x < y)
        } by {
            if q < a.len() {
                assert(c[p] == a[p] && c[q] == a[q]);
            } else if p < a.len() {
                assert(c[p] == a[p] && c[q] == b[q - a.len()]);
            } else {
                assert(c[p] == b[p - a.len()] && c[q] == b[q - a.len()]);
            }
        }
        assert forall|i: int|
            0 <= i < rules.len() && specificity(rules[i].selector) <= level && selector_matches(
                rules[i].selector,
                w,
            ) implies #[trigger] c.contains(i) by {
            if specificity(rules[i].selector) < level {
                assert(a.contains(i));
                let k = choose|k: int| 0 <= k < a.len() && a[k] == i;
                assert(c[k] == i);
            } else {
                assert(b.contains(i));
                let k = choose|k: int| 0 <= k < b.len() && b[k] == i;
                assert(c[a.len() + k] == i);
            }
        }
    }
}

/// Rules apply in order of specificity (type, class, type plus class, id)
/// and, at equal specificity, in source order; exactly the rules whose
/// selector picks out the widget apply, each once.
pub proof fn law_cascade_order(rules: Seq<SpecRule>, w: SpecWidget)
    ensures
        forall|p: int|
            0 <= p < cascade_order(rules, w).len() ==> {
                let i = #[trigger] cascade_order(rules, w)[p];
                0 <= i < rules.len() && selector_matches(rules[i].selector, w)
            },
        forall|i: int|
            0 <= i < rules.len() && selector_matches(rules[i].selector, w)
                ==> #[trigger] cascade_order(rules, w).contains(i),
        forall|p: int, q: int|
            0 <= p < q < cascade_order(rules, w).len() ==> {
                let a = #[trigger] cascade_order(rules, w)[p];
                let b = #[trigger] cascade_order(rules, w)[q];
                specificity(rules[a].selector) < specificity(rules[b].selector) || (specificity(
                    rules[a].selector,
                ) == specificity(rules[b].selector) && a < b)
            },
{
    lemma_levels_upto(rules, w, 4);
    assert forall|i: int| 0 <= i < rules.len() && selector_matches(rules[i].selector, w) implies
        #[trigger] cascade_order(rules, w).contains(i) by {
        assert(specificity(rules[i].selector) <= 4);
    }
}

/// What the last of the rules at `order` that declares a property sets it
/// to, where `declared` reads the property from a rule's declarations.
pub open spec fn last_declared<T>(
    rules: Seq<SpecRule>,
    order: Seq<int>,
    declared: spec_fn(SpecDeclarations) -> Option<T>,
) -> Option<T>
    decreases order.len(),
{
    if order.len() == 0 {
        None
    } else {
        match declared(rules[order.last()].declarations) {
            Some(v) => Some(v),
            None => last_declared(rules, order.drop_last(), declared),
        }
    }
}

proof fn lemma_apply_rules_property<T>(
    rules: Seq<SpecRule>,
    order: Seq<int>,
    s: SpecComputedStyle,
    declared: spec_fn(SpecDeclarations) -> Option<T>,
    value: spec_fn(SpecComputedStyle) -> T,
)
    requires
        forall|d: SpecDeclarations, t: SpecComputedStyle|
            #[trigger] value(spec_apply(d, t)) == pick(declared(d), value(t)),
    ensures
        value(apply_rules(rules, order, s)) == pick(last_declared(rules, order, declared), value(s)),
    decreases order.len(),
{
    if order.len() > 0 {
        lemma_apply_rules_property(rules, order.drop_last(), s, declared, value);
        let t = apply_rules(rules, order.drop_last(), s);
        assert(value(spec_apply(rules[order.last()].declarations, t)) == pick(
            declared(rules[order.last()].declarations),
            value(t),
        ));
    }
}

/// The last rule wins, property by property: a property of a widget's style
/// is what the last rule in cascade order (specificity, then source order)
/// among the matching rules that declare it sets; where no matching rule
/// declares it, the property keeps its initial value. Rules that do not
/// match have no effect. `declared` and `value` read one property from
/// declarations and from a style, as every property of `spec_apply` does.
pub proof fn law_last_declaring_rule_wins<T>(
    sheet: SpecStyleSheet,
    w: SpecWidget,
    parent: Option<SpecComputedStyle>,
    declared: spec_fn(SpecDeclarations) -> Option<T>,
    value: spec_fn(SpecComputedStyle) -> T,
)
    requires
        forall|d: SpecDeclarations, t: SpecComputedStyle|
            #[trigger] value(spec_apply(d, t)) == pick(declared(d), value(t)),
    ensures
        value(spec_compute(sheet, w, parent)) == pick(
            last_declared(sheet.rules, cascade_order(sheet.rules, w), declared),
            value(spec_initial(w, parent)),
        ),
{
    lemma_apply_rules_property(
        sheet.rules,
        cascade_order(sheet.rules, w),
        spec_initial(w, parent),
        declared,
        value,
    );
}

/// The text color, as one instance of the property law: it comes from the
/// last matching rule that sets `color`, or else from the initial style.
pub proof fn law_last_color_rule_wins(
    sheet: SpecStyleSheet,
    w: SpecWidget,
    parent: Option<SpecComputedStyle>,
)
    ensures
        spec_compute(sheet, w, parent).color == pick(
            last_declared(
                sheet.rules,
                cascade_order(sheet.rules, w),
                |d: SpecDeclarations| d.color,
            ),
            spec_initial(w, parent).color,
        ),
{
    let declared = |d: SpecDeclarations| d.color;
    let value = |t: SpecComputedStyle| t.color;
    assert forall|d: SpecDeclarations, t: SpecComputedStyle|
        #[trigger] value(spec_apply(d, t)) == pick(declared(d), value(t)) by {}
    law_last_declaring_rule_wins(sheet, w, parent, declared, value);
}

/// A type selector picks out the widgets of its type, a class selector those
/// that carry its class, an id selector the widget with that id, and a type
/// selector with a class exactly the widgets that both of its parts pick out.
pub proof fn law_selector_matching(w: SpecWidget, t: WidgetType, class: Seq<char>, id: Seq<char>)
    ensures
        selector_matches(SpecSelector::Type(t), w) == (spec_type_of(w.kind) == t),
        selector_matches(SpecSelector::Class(class), w) == w.classes.contains(class),
        selector_matches(SpecSelector::Id(id), w) == (w.id == Some(id)),
        selector_matches(SpecSelector::TypeClass { widget_type: t, class }, w) == (
        selector_matches(SpecSelector::Type(t), w) && selector_matches(SpecSelector::Class(class), w)),
{
}

/// Selectors rank by what they name: a widget type 1, a class 2, a widget
/// type with a class 3, an id 4.
pub proof fn law_specificity_ranks(t: WidgetType, class: Seq<char>, id: Seq<char>)
    ensures
        specificity(SpecSelector::Type(t)) == 1,
        specificity(SpecSelector::Class(class)) == 2,
        specificity(SpecSelector::TypeClass { widget_type: t, class }) == 3,
        specificity(SpecSelector::Id(id)) == 4,
{
}

/// Of two rules that both pick out a widget, the more specific one applies
/// later, so it wins wherever both set a property, whatever their order in
/// the stylesheet.
pub proof fn law_more_specific_rule_applies_later(
    rules: Seq<SpecRule>,
    w: SpecWidget,
    a: int,
    b: int,
)
    requires
        0 <= a < rules.len(),
        0 <= b < rules.len(),
        selector_matches(rules[a].selector, w),
        selector_matches(rules[b].selector, w),
        specificity(rules[a].selector) < specificity(rules[b].selector),
    ensures
        exists|p: int, q: int|
            0 <= p < q < cascade_order(rules, w).len() && #[trigger] cascade_order(rules, w)[p] == a
                && #[trigger] cascade_order(rules, w)[q] == b,
{
    law_cascade_order(rules, w);
    let o = cascade_order(rules, w);
    assert(o.contains(a));
    assert(o.contains(b));
    let p = choose|p: int| 0 <= p < o.len() && o[p] == a;
    let q = choose|q: int| 0 <= q < o.len() && o[q] == b;
    if q < p {
        assert(specificity(rules[o[q]].selector) < specificity(rules[o[p]].selector) || (
        specificity(rules[o[q]].selector) == specificity(rules[o[p]].selector) && o[q] < o[p]));
    }
    assert(p != q);
    assert(o[p] == a && o[q] == b);
}

/// A widget that no rule picks out keeps its initial style.
pub proof fn law_unmatched_widget_keeps_initial_style(
    sheet: SpecStyleSheet,
    w: SpecWidget,
    parent: Option<SpecComputedStyle>,
)
    requires
        forall|i: int| 0 <= i < sheet.rules.len() ==> !selector_matches(#[trigger] sheet.rules[i].selector, w),
    ensures
        spec_compute(sheet, w, parent) == spec_initial(w, parent),
{
    law_cascade_order(sheet.rules, w);
    let o = cascade_order(sheet.rules, w);
    if o.len() > 0 {
        assert(selector_matches(sheet.rules[o[0]].selector, w));
    }
}

/// A child starts from its parent's color, font family, font size, font
/// weight, line height and text alignment; its other properties start from
/// fixed values whatever the parent is.
pub proof fn law_inherited_properties(
    sheet: SpecStyleSheet,
    w: SpecWidget,
    parent: Option<SpecComputedStyle>,
    i: int,
)
    requires
        0 <= i < spec_children(w.kind).len(),
    ensures
        ({
            let node = spec_styled(sheet, w, parent);
            let child = spec_children(w.kind)[i];
            let start = spec_initial(child, Some(node.style));
            &&& node.children[i].style == apply_rules(
                sheet.rules,
                cascade_order(sheet.rules, child),
                start,
            )
            &&& start == (SpecComputedStyle {
                color: node.style.color,
                font_family: node.style.font_family,
                font_size: node.style.font_size,
                font_weight: node.style.font_weight,
                line_height: node.style.line_height,
                text_align: node.style.text_align,
                ..spec_initial(child, None)
            })
        }),
{
    let node = spec_styled(sheet, w, parent);
    let child = spec_children(w.kind)[i];
    assert(node.children[i] == spec_styled(sheet, child, Some(node.style)));
    let start = spec_initial(child, Some(node.style));
    assert(start.color == node.style.color);
    assert(start == (SpecComputedStyle {
                color: node.style.color,
                font_family: node.style.font_family,
                font_size: node.style.font_size,
                font_weight: node.style.font_weight,
                line_height: node.style.line_height,
                text_align: node.style.text_align,
                ..spec_initial(child, None)
            }));
}

} // verus!
