//! Dashboard configuration: the raw configuration as the file writes it,
//! the checks that turn it into widgets, and what a check can reject.
//!
//! Files that the configuration names are looked up outside the library;
//! what each lookup gave comes in as a [`FileTable`].
use vstd::prelude::*;
use crate::assets::{sorted_paths, strictly_sorted};
use crate::params::{
    fill_widget, fill_widget_exec, first_missing, first_missing_exec, first_unused, first_unused_exec,
};
use crate::binding::{
    Binding, SpecSegment, binding_parse_message, pairs_view, spec_parse_binding,
};
use crate::number::{
    Decimal, NumberToken, SpecDecimal, SpecNumberToken, compare, is_zero, magnitude_order,
    spec_decimal_of, spec_zero,
};
use crate::sheet::{SpecStyleSheet, StyleSheet, is_name, is_name_exec};
use crate::text::{
    debug_quoted, decimal_text, digit_char, is_ascii_hexdigit, is_hexdigit_char, push_char,
    push_decimal, quoted, trim_window, trimmed,
};
use crate::widget::{
    Condition, ConditionComparison, FlexDirection, ProgressOrientation, SpecComparison,
    SpecCondition, SpecWidget, SpecWidgetKind, Widget, WidgetKind, option_decimal_view,
    option_string_view, strings_view, widgets_view,
};

verus! {

broadcast use vstd::string::group_string_axioms;

// ---------------------------------------------------------------------------
// The raw configuration.

/// The `type` of a configured widget; `component` stands for a template.
#[derive(Debug, Clone, Copy, PartialEq, Eq, Structural)]
pub enum RawWidgetType {
    Row,
    Column,
    Stack,
    Text,
    Image,
    Spacer,
    Progress,
    CircularProgress,
    Graph,
    Gauge,
    Conditional,
    Component,
}

/// One widget as the configuration writes it. Numbers are kept as the
/// number tokens of the values that the file gave.
#[derive(Debug)]
pub struct RawWidget {
    pub kind: RawWidgetType,
    pub id: Option<String>,
    pub classes: Vec<String>,
    pub children: Vec<RawWidget>,
    pub text: Option<String>,
    pub source: Option<String>,
    pub value: Option<String>,
    pub min: Option<NumberToken>,
    pub max: Option<NumberToken>,
    pub orientation: Option<ProgressOrientation>,
    pub start_angle: Option<NumberToken>,
    pub sweep_angle: Option<NumberToken>,
    pub thickness: Option<NumberToken>,
    pub needle_width: Option<NumberToken>,
    pub line_width: Option<NumberToken>,
    pub fill: Option<bool>,
    pub equals: Option<String>,
    pub not_equals: Option<String>,
    pub component: Option<String>,
    /// The parameters of a component use, as name and value, in the order
    /// written.
    pub params: Vec<(String, String)>,
}

pub struct SpecRawWidget {
    pub kind: RawWidgetType,
    pub id: Option<Seq<char>>,
    pub classes: Seq<Seq<char>>,
    pub children: Seq<SpecRawWidget>,
    pub text: Option<Seq<char>>,
    pub source: Option<Seq<char>>,
    pub value: Option<Seq<char>>,
    pub min: Option<SpecNumberToken>,
    pub max: Option<SpecNumberToken>,
    pub orientation: Option<ProgressOrientation>,
    pub start_angle: Option<SpecNumberToken>,
    pub sweep_angle: Option<SpecNumberToken>,
    pub thickness: Option<SpecNumberToken>,
    pub needle_width: Option<SpecNumberToken>,
    pub line_width: Option<SpecNumberToken>,
    pub fill: Option<bool>,
    pub equals: Option<Seq<char>>,
    pub not_equals: Option<Seq<char>>,
    pub component: Option<Seq<char>>,
    pub params: Seq<(Seq<char>, Seq<char>)>,
}

pub open spec fn option_token_view(t: Option<NumberToken>) -> Option<SpecNumberToken> {
    match t {
        Some(x) => Some(x@),
        None => None,
    }
}

pub open spec fn empty_raw() -> SpecRawWidget {
    SpecRawWidget {
        kind: RawWidgetType::Spacer,
        id: None,
        classes: seq![],
        children: seq![],
        text: None,
        source: None,
        value: None,
        min: None,
        max: None,
        orientation: None,
        start_angle: None,
        sweep_angle: None,
        thickness: None,
        needle_width: None,
        line_width: None,
        fill: None,
        equals: None,
        not_equals: None,
        component: None,
        params: seq![],
    }
}

pub closed spec fn raw_view(w: RawWidget) -> SpecRawWidget
    decreases w,
{
    SpecRawWidget {
        kind: w.kind,
        id: option_string_view(w.id),
        classes: strings_view(w.classes@),
        children: Seq::new(
            w.children@.len(),
            |i: int|
                if 0 <= i < w.children@.len() {
                    proof {
                        assert(decreases_to!(w => w.children));
                        assert(decreases_to!(w.children => w.children@[i]));
                    }
                    raw_view(w.children@[i])
                } else {
                    empty_raw()
                },
        ),
        text: option_string_view(w.text),
        source: option_string_view(w.source),
        value: option_string_view(w.value),
        min: option_token_view(w.min),
        max: option_token_view(w.max),
        orientation: w.orientation,
        start_angle: option_token_view(w.start_angle),
        sweep_angle: option_token_view(w.sweep_angle),
        thickness: option_token_view(w.thickness),
        needle_width: option_token_view(w.needle_width),
        line_width: option_token_view(w.line_width),
        fill: w.fill,
        equals: option_string_view(w.equals),
        not_equals: option_string_view(w.not_equals),
        component: option_string_view(w.component),
        params: pairs_view(w.params@),
    }
}

impl View for RawWidget {
    type V = SpecRawWidget;

    closed spec fn view(&self) -> SpecRawWidget {
        raw_view(*self)
    }
}

pub open spec fn raws_view(v: Seq<RawWidget>) -> Seq<SpecRawWidget> {
    v.map_values(|w: RawWidget| w@)
}

pub(crate) proof fn lemma_raw_view(w: RawWidget)
    ensures
        w@ == (SpecRawWidget {
            kind: w.kind,
            id: option_string_view(w.id),
            classes: strings_view(w.classes@),
            children: raws_view(w.children@),
            text: option_string_view(w.text),
            source: option_string_view(w.source),
            value: option_string_view(w.value),
            min: option_token_view(w.min),
            max: option_token_view(w.max),
            orientation: w.orientation,
            start_angle: option_token_view(w.start_angle),
            sweep_angle: option_token_view(w.sweep_angle),
            thickness: option_token_view(w.thickness),
            needle_width: option_token_view(w.needle_width),
            line_width: option_token_view(w.line_width),
            fill: w.fill,
            equals: option_string_view(w.equals),
            not_equals: option_string_view(w.not_equals),
            component: option_string_view(w.component),
            params: pairs_view(w.params@),
        }),
{
    assert(w@.children =~= raws_view(w.children@));
}

pub(crate) fn copy_string_option(o: &Option<String>) -> (r: Option<String>)
    ensures
        option_string_view(r) == option_string_view(*o),
{
    match o {
        Some(s) => Some(s.clone()),
        None => None,
    }
}

/// A copy of a list of strings.
pub fn copy_strings(v: &Vec<String>) -> (r: Vec<String>)
    ensures
        strings_view(r@) == strings_view(v@),
{
    let mut r: Vec<String> = Vec::new();
    let mut k: usize = 0;
    while k < v.len()
        invariant
            k <= v@.len(),
            r@.len() == k,
            strings_view(r@) == strings_view(v@.take(k as int)),
        decreases v@.len() - k,
    {
        let ghost before = r@;
        r.push(v[k].clone());
        assert(r@[k as int]@ == v@[k as int]@);
        assert(v@.take(k + 1) == v@.take(k as int).push(v@[k as int]));
        assert forall|j: int| 0 <= j < k + 1 implies #[trigger] strings_view(r@)[j] == strings_view(
            v@.take(k + 1),
        )[j] by {
            if j < k {
                assert(r@[j] == before[j]);
                assert(strings_view(before)[j] == strings_view(v@.take(k as int))[j]);
            }
        }
        assert(strings_view(r@) =~= strings_view(v@.take(k + 1)));
        k += 1;
    }
    assert(v@.take(v@.len() as int) =~= v@);
    r
}

/// A copy of a list of name and value pairs.
pub fn copy_pairs(v: &Vec<(String, String)>) -> (r: Vec<(String, String)>)
    ensures
        pairs_view(r@) == pairs_view(v@),
{
    let mut r: Vec<(String, String)> = Vec::new();
    let mut k: usize = 0;
    while k < v.len()
        invariant
            k <= v@.len(),
            pairs_view(r@) == pairs_view(v@).take(k as int),
        decreases v@.len() - k,
    {
        let ghost before = r@;
        r.push((v[k].0.clone(), v[k].1.clone()));
        assert(pairs_view(r@) =~= pairs_view(before).push((v@[k as int].0@, v@[k as int].1@)));
        assert(pairs_view(v@).take(k + 1) =~= pairs_view(v@).take(k as int).push(
            (v@[k as int].0@, v@[k as int].1@),
        ));
        k += 1;
    }
    assert(pairs_view(v@).take(pairs_view(v@).len() as int) =~= pairs_view(v@));
    r
}

pub(crate) fn copy_token_option(o: &Option<NumberToken>) -> (r: Option<NumberToken>)
    ensures
        option_token_view(r) == option_token_view(*o),
{
    match o {
        Some(NumberToken::Finite(d)) => Some(NumberToken::Finite(d.duplicate())),
        Some(NumberToken::Infinite(n)) => Some(NumberToken::Infinite(*n)),
        Some(NumberToken::NotANumber) => Some(NumberToken::NotANumber),
        None => None,
    }
}

impl RawWidget {
    /// A copy of the widget and everything below it.
    pub fn duplicate(&self) -> (r: RawWidget)
        ensures
            r@ == self@,
        decreases self@,
    {
        proof {
            lemma_raw_view(*self);
        }
        let mut children: Vec<RawWidget> = Vec::new();
        let mut k: usize = 0;
        while k < self.children.len()
            invariant
                k <= self.children@.len(),
                self@.children == raws_view(self.children@),
                children@.len() == k,
                raws_view(children@) == raws_view(self.children@).take(k as int),
            decreases self.children@.len() - k,
        {
            proof {
                assert(decreases_to!(self@ => self@.children));
                assert(decreases_to!(self@.children => self@.children[k as int]));
            }
            let c = self.children[k].duplicate();
            assert(c@ == raws_view(self.children@)[k as int]);
            children.push(c);
            assert(raws_view(children@) =~= raws_view(self.children@).take(k + 1));
            k += 1;
        }
        assert(raws_view(self.children@).take(self.children@.len() as int) =~= raws_view(
            self.children@,
        ));
        let r = RawWidget {
            kind: self.kind,
            id: copy_string_option(&self.id),
            classes: copy_strings(&self.classes),
            children,
            text: copy_string_option(&self.text),
            source: copy_string_option(&self.source),
            value: copy_string_option(&self.value),
            min: copy_token_option(&self.min),
            max: copy_token_option(&self.max),
            orientation: self.orientation,
            start_angle: copy_token_option(&self.start_angle),
            sweep_angle: copy_token_option(&self.sweep_angle),
            thickness: copy_token_option(&self.thickness),
            needle_width: copy_token_option(&self.needle_width),
            line_width: copy_token_option(&self.line_width),
            fill: self.fill,
            equals: copy_string_option(&self.equals),
            not_equals: copy_string_option(&self.not_equals),
            component: copy_string_option(&self.component),
            params: copy_pairs(&self.params),
        };
        proof {
            lemma_raw_view(r);
        }
        r
    }
}

/// The `[dashboard]` table as the configuration writes it.
#[derive(Debug)]
pub struct RawDashboardOptions {
    pub width: u32,
    pub height: u32,
    pub stylesheet: String,
    pub background: Option<String>,
    pub fonts: Vec<String>,
}

pub struct SpecRawDashboardOptions {
    pub width: u32,
    pub height: u32,
    pub stylesheet: Seq<char>,
    pub background: Option<Seq<char>>,
    pub fonts: Seq<Seq<char>>,
}

impl View for RawDashboardOptions {
    type V = SpecRawDashboardOptions;

    open spec fn view(&self) -> SpecRawDashboardOptions {
        SpecRawDashboardOptions {
            width: self.width,
            height: self.height,
            stylesheet: self.stylesheet@,
            background: option_string_view(self.background),
            fonts: strings_view(self.fonts@),
        }
    }
}

/// A whole configuration: the options, the named component templates, and
/// the root widget.
#[derive(Debug)]
pub struct RawDashboard {
    pub dashboard: RawDashboardOptions,
    pub components: Vec<(String, RawWidget)>,
    pub root: RawWidget,
}

pub open spec fn components_view(v: Seq<(String, RawWidget)>) -> Seq<(Seq<char>, SpecRawWidget)> {
    v.map_values(|p: (String, RawWidget)| (p.0@, p.1@))
}

// ---------------------------------------------------------------------------
// Errors.

/// What was wrong with a configuration.
#[derive(Debug, Clone, Copy, PartialEq, Eq, Structural)]
pub enum ConfigErrorKind {
    ZeroSize,
    /// The background as written.
    InvalidBackground,
    /// The field, and what the lookup said.
    UnreadableFile,
    /// The field, and the path found.
    NotAFile,
    /// The component name.
    InvalidComponentName,
    /// The component name.
    ComponentWithId,
    /// The id.
    InvalidId,
    /// The id.
    DuplicateId,
    /// The class.
    InvalidClass,
    ChildrenNotAllowed,
    /// The field.
    FieldNotAllowed,
    /// The field.
    MissingField,
    /// The field, and the binding's message.
    InvalidBinding,
    ImageRequiresSource,
    /// The chain of component names.
    ComponentCycle,
    /// The component name.
    UnknownComponent,
    /// The component name, and the placeholder as written.
    InvalidPlaceholder,
    /// The parameter name, and the component name.
    MissingParameter,
    /// The parameter name, and the component name.
    UnknownParameter,
    /// The widget type, and the range as `min..max`.
    InvalidRange,
    InvalidGraphRange,
    InvalidArc,
    /// The field.
    NotPositive,
    BothComparisons,
}

/// A configuration error: the widget it is about (none for the dashboard
/// as a whole), its kind, the text it is about, and a second text where the
/// kind has one.
#[derive(Debug)]
pub struct ConfigError {
    pub widget_path: Option<String>,
    pub kind: ConfigErrorKind,
    pub subject: String,
    pub detail: String,
}

pub struct SpecConfigError {
    pub widget_path: Option<Seq<char>>,
    pub kind: ConfigErrorKind,
    pub subject: Seq<char>,
    pub detail: Seq<char>,
}

impl View for ConfigError {
    type V = SpecConfigError;

    open spec fn view(&self) -> SpecConfigError {
        SpecConfigError {
            widget_path: option_string_view(self.widget_path),
            kind: self.kind,
            subject: self.subject@,
            detail: self.detail@,
        }
    }
}

pub open spec fn dashboard_error(kind: ConfigErrorKind, subject: Seq<char>, detail: Seq<char>) -> SpecConfigError {
    SpecConfigError { widget_path: None, kind, subject, detail }
}

pub open spec fn widget_error(
    path: Seq<char>,
    kind: ConfigErrorKind,
    subject: Seq<char>,
    detail: Seq<char>,
) -> SpecConfigError {
    SpecConfigError { widget_path: Some(path), kind, subject, detail }
}

fn make_error(widget_path: Option<String>, kind: ConfigErrorKind, subject: String, detail: String) -> (r:
    ConfigError)
    ensures
        r@ == (SpecConfigError {
            widget_path: option_string_view(widget_path),
            kind,
            subject: subject@,
            detail: detail@,
        }),
{
    ConfigError { widget_path, kind, subject, detail }
}

fn widget_bare(path: &String, kind: ConfigErrorKind) -> (r: ConfigError)
    ensures
        r@ == widget_error(path@, kind, seq![], seq![]),
{
    make_error(Some(path.clone()), kind, String::new(), String::new())
}

fn widget_err(path: &String, kind: ConfigErrorKind, subject: &str, detail: String) -> (r: ConfigError)
    ensures
        r@ == widget_error(path@, kind, subject@, detail@),
{
    make_error(Some(path.clone()), kind, subject.to_string(), detail)
}

/// The message of an error, without the widget's path.
pub open spec fn config_message_body(e: SpecConfigError) -> Seq<char> {
    let s = e.subject;
    let d = e.detail;
    match e.kind {
        ConfigErrorKind::ZeroSize => "dashboard width and height must be greater than zero"@,
        ConfigErrorKind::InvalidBackground => "dashboard.background must be #RRGGBB or #RRGGBBAA, got "@
            + debug_quoted(s),
        ConfigErrorKind::UnreadableFile => s + " references unreadable file "@ + d,
        ConfigErrorKind::NotAFile => s + " must reference a file, got "@ + d,
        ConfigErrorKind::InvalidComponentName => "invalid component name "@ + debug_quoted(s)
            + "; use letters, digits, '_' or '-'"@,
        ConfigErrorKind::ComponentWithId => "component "@ + debug_quoted(s)
            + " contains an id; reusable component templates cannot define ids"@,
        ConfigErrorKind::InvalidId => "invalid id "@ + debug_quoted(s)
            + "; use letters, digits, '_' or '-'"@,
        ConfigErrorKind::DuplicateId => "duplicate widget id "@ + debug_quoted(s),
        ConfigErrorKind::InvalidClass => "invalid class "@ + debug_quoted(s)
            + "; use letters, digits, '_' or '-'"@,
        ConfigErrorKind::ChildrenNotAllowed => "this widget cannot contain children"@,
        ConfigErrorKind::FieldNotAllowed => "field "@ + debug_quoted(s)
            + " is not valid for this widget type"@,
        ConfigErrorKind::MissingField => "widget requires non-empty "@ + s,
        ConfigErrorKind::InvalidBinding => "invalid "@ + s + " binding: "@ + d,
        ConfigErrorKind::ImageRequiresSource => "image requires source"@,
        ConfigErrorKind::ComponentCycle => "component cycle detected: "@ + s,
        ConfigErrorKind::UnknownComponent => "unknown component "@ + debug_quoted(s),
        ConfigErrorKind::InvalidPlaceholder => "invalid parameter placeholder in component "@
            + debug_quoted(s) + ": expected {{ @name }}, got "@ + d,
        ConfigErrorKind::MissingParameter => "missing parameter "@ + debug_quoted(s)
            + " for component "@ + debug_quoted(d),
        ConfigErrorKind::UnknownParameter => "unknown parameter "@ + debug_quoted(s)
            + " for component "@ + debug_quoted(d),
        ConfigErrorKind::InvalidRange => s + " range must be finite and min < max, got "@ + d,
        ConfigErrorKind::InvalidGraphRange => "graph min and max must be finite and min < max"@,
        ConfigErrorKind::InvalidArc => "angles must be finite and sweep-angle must be non-zero and at most 360 degrees"@,
        ConfigErrorKind::NotPositive => s + " must be finite and greater than zero"@,
        ConfigErrorKind::BothComparisons => "conditional accepts either equals or not-equals, not both"@,
    }
}

/// The message of an error: the widget's path and `: ` first where there is one.
pub open spec fn config_message(e: SpecConfigError) -> Seq<char> {
    match e.widget_path {
        Some(p) => p + ": "@ + config_message_body(e),
        None => config_message_body(e),
    }
}

impl ConfigError {
    /// The message that describes the error.
    pub fn message(&self) -> (r: String)
        ensures
            r@ == config_message(self@),
    {
        let mut m = String::new();
        match &self.widget_path {
            Some(p) => {
                m.append(p.as_str());
                m.append(": ");
            },
            None => {},
        }
        let s = &self.subject;
        let d = &self.detail;
        match self.kind {
            ConfigErrorKind::ZeroSize => {
                m.append("dashboard width and height must be greater than zero");
            },
            ConfigErrorKind::InvalidBackground => {
                m.append("dashboard.background must be #RRGGBB or #RRGGBBAA, got ");
                m.append(quoted(s).as_str());
            },
            ConfigErrorKind::UnreadableFile => {
                m.append(s.as_str());
                m.append(" references unreadable file ");
                m.append(d.as_str());
            },
            ConfigErrorKind::NotAFile => {
                m.append(s.as_str());
                m.append(" must reference a file, got ");
                m.append(d.as_str());
            },
            ConfigErrorKind::InvalidComponentName => {
                m.append("invalid component name ");
                m.append(quoted(s).as_str());
                m.append("; use letters, digits, '_' or '-'");
            },
            ConfigErrorKind::ComponentWithId => {
                m.append("component ");
                m.append(quoted(s).as_str());
                m.append(" contains an id; reusable component templates cannot define ids");
            },
            ConfigErrorKind::InvalidId => {
                m.append("invalid id ");
                m.append(quoted(s).as_str());
                m.append("; use letters, digits, '_' or '-'");
            },
            ConfigErrorKind::DuplicateId => {
                m.append("duplicate widget id ");
                m.append(quoted(s).as_str());
            },
            ConfigErrorKind::InvalidClass => {
                m.append("invalid class ");
                m.append(quoted(s).as_str());
                m.append("; use letters, digits, '_' or '-'");
            },
            ConfigErrorKind::ChildrenNotAllowed => {
                m.append("this widget cannot contain children");
            },
            ConfigErrorKind::FieldNotAllowed => {
                m.append("field ");
                m.append(quoted(s).as_str());
                m.append(" is not valid for this widget type");
            },
            ConfigErrorKind::MissingField => {
                m.append("widget requires non-empty ");
                m.append(s.as_str());
            },
            ConfigErrorKind::InvalidBinding => {
                m.append("invalid ");
                m.append(s.as_str());
                m.append(" binding: ");
                m.append(d.as_str());
            },
            ConfigErrorKind::ImageRequiresSource => {
                m.append("image requires source");
            },
            ConfigErrorKind::ComponentCycle => {
                m.append("component cycle detected: ");
                m.append(s.as_str());
            },
            ConfigErrorKind::UnknownComponent => {
                m.append("unknown component ");
                m.append(quoted(s).as_str());
            },
            ConfigErrorKind::InvalidPlaceholder => {
                m.append("invalid parameter placeholder in component ");
                m.append(quoted(s).as_str());
                m.append(": expected {{ @name }}, got ");
                m.append(d.as_str());
            },
            ConfigErrorKind::MissingParameter => {
                m.append("missing parameter ");
                m.append(quoted(s).as_str());
                m.append(" for component ");
                m.append(quoted(d).as_str());
            },
            ConfigErrorKind::UnknownParameter => {
                m.append("unknown parameter ");
                m.append(quoted(s).as_str());
                m.append(" for component ");
                m.append(quoted(d).as_str());
            },
            ConfigErrorKind::InvalidRange => {
                m.append(s.as_str());
                m.append(" range must be finite and min < max, got ");
                m.append(d.as_str());
            },
            ConfigErrorKind::InvalidGraphRange => {
                m.append("graph min and max must be finite and min < max");
            },
            ConfigErrorKind::InvalidArc => {
                m.append(
                    "angles must be finite and sweep-angle must be non-zero and at most 360 degrees",
                );
            },
            ConfigErrorKind::NotPositive => {
                m.append(s.as_str());
                m.append(" must be finite and greater than zero");
            },
            ConfigErrorKind::BothComparisons => {
                m.append("conditional accepts either equals or not-equals, not both");
            },
        }
        m
    }
}

// ---------------------------------------------------------------------------
// Files that the configuration names.

/// What looking up a configured file gave: its canonical path; that it
/// could not be read (with the path tried and the reason); or that it is not
/// a file (with the path found).
#[derive(Debug)]
pub enum FileLookup {
    Found(String),
    Unreadable(String),
    NotAFile(String),
}

pub enum SpecFileLookup {
    Found(Seq<char>),
    Unreadable(Seq<char>),
    NotAFile(Seq<char>),
}

impl View for FileLookup {
    type V = SpecFileLookup;

    open spec fn view(&self) -> SpecFileLookup {
        match self {
            FileLookup::Found(p) => SpecFileLookup::Found(p@),
            FileLookup::Unreadable(d) => SpecFileLookup::Unreadable(d@),
            FileLookup::NotAFile(d) => SpecFileLookup::NotAFile(d@),
        }
    }
}

/// The lookups of the configured files, by the path as configured; a later
/// entry for a path wins over an earlier one.
#[derive(Debug)]
pub struct FileTable {
    entries: Vec<(String, FileLookup)>,
}

pub open spec fn file_entries_view(v: Seq<(String, FileLookup)>) -> Seq<(Seq<char>, SpecFileLookup)> {
    v.map_values(|p: (String, FileLookup)| (p.0@, p.1@))
}

impl View for FileTable {
    type V = Seq<(Seq<char>, SpecFileLookup)>;

    closed spec fn view(&self) -> Seq<(Seq<char>, SpecFileLookup)> {
        file_entries_view(self.entries@)
    }
}

/// The last lookup of `path` among the first `n` entries.
pub open spec fn lookup_file(e: Seq<(Seq<char>, SpecFileLookup)>, path: Seq<char>, n: int) -> Option<
    SpecFileLookup,
>
    decreases n,
{
    if n <= 0 || n > e.len() {
        None
    } else if e[n - 1].0 == path {
        Some(e[n - 1].1)
    } else {
        lookup_file(e, path, n - 1)
    }
}

/// The configured file `path` for `field`: its canonical path, or the
/// error; a path that was not looked up counts as unreadable.
pub open spec fn spec_resolve(
    files: Seq<(Seq<char>, SpecFileLookup)>,
    path: Seq<char>,
    field: Seq<char>,
) -> Result<Seq<char>, SpecConfigError> {
    match lookup_file(files, path, files.len() as int) {
        Some(SpecFileLookup::Found(p)) => Ok(p),
        Some(SpecFileLookup::Unreadable(d)) => Err(
            dashboard_error(ConfigErrorKind::UnreadableFile, field, d),
        ),
        Some(SpecFileLookup::NotAFile(d)) => Err(dashboard_error(ConfigErrorKind::NotAFile, field, d)),
        None => Err(dashboard_error(ConfigErrorKind::UnreadableFile, field, debug_quoted(path))),
    }
}

impl FileTable {
    pub fn new() -> (r: FileTable)
        ensures
            r@ == Seq::<(Seq<char>, SpecFileLookup)>::empty(),
    {
        let r = FileTable { entries: Vec::new() };
        assert(r@ =~= Seq::<(Seq<char>, SpecFileLookup)>::empty());
        r
    }

    /// Records what looking up `path` gave.
    pub fn insert(&mut self, path: String, lookup: FileLookup)
        ensures
            final(self)@ == old(self)@.push((path@, lookup@)),
    {
        let ghost before = self@;
        let ghost entry = (path@, lookup@);
        self.entries.push((path, lookup));
        assert(self@ =~= before.push(entry));
    }

    fn resolve(&self, path: &String, field: String) -> (r: Result<String, ConfigError>)
        ensures
            match r {
                Ok(p) => spec_resolve(self@, path@, field@) == Ok::<Seq<char>, SpecConfigError>(p@),
                Err(e) => spec_resolve(self@, path@, field@) == Err::<Seq<char>, SpecConfigError>(e@),
            },
    {
        let ghost e = self@;
        let mut n = self.entries.len();
        while n > 0
            invariant
                n <= self.entries@.len(),
                e == self@,
                e == file_entries_view(self.entries@),
                lookup_file(e, path@, e.len() as int) == lookup_file(e, path@, n as int),
            decreases n,
        {
            assert(e[n - 1] == (self.entries@[n - 1].0@, self.entries@[n - 1].1@));
            if self.entries[n - 1].0 == *path {
                return match &self.entries[n - 1].1 {
                    FileLookup::Found(p) => Ok(p.clone()),
                    FileLookup::Unreadable(d) => Err(
                        make_error(None, ConfigErrorKind::UnreadableFile, field, d.clone()),
                    ),
                    FileLookup::NotAFile(d) => Err(
                        make_error(None, ConfigErrorKind::NotAFile, field, d.clone()),
                    ),
                };
            }
            n -= 1;
        }
        Err(make_error(None, ConfigErrorKind::UnreadableFile, field, quoted(path)))
    }
}

// ---------------------------------------------------------------------------
// The dashboard options.

/// `#RRGGBB` or `#RRGGBBAA`.
pub open spec fn is_hex_color(v: Seq<char>) -> bool {
    &&& (v.len() == 7 || v.len() == 9)
    &&& v[0] == '#'
    &&& forall|k: int| 1 <= k < v.len() ==> is_ascii_hexdigit(#[trigger] v[k])
}

pub fn is_hex_color_exec(v: &String) -> (r: bool)
    ensures
        r == is_hex_color(v@),
{
    let c = crate::text::chars_of(v.as_str());
    let n = c.len();
    if !(n == 7 || n == 9) || c[0] != '#' {
        return false;
    }
    let mut k: usize = 1;
    while k < n
        invariant
            1 <= k <= n == c@.len(),
            c@ == v@,
            forall|j: int| 1 <= j < k ==> is_ascii_hexdigit(#[trigger] c@[j]),
        decreases n - k,
    {
        if !is_hexdigit_char(c[k]) {
            return false;
        }
        k += 1;
    }
    true
}

/// `dashboard.fonts[i]`.
pub open spec fn font_field(i: int) -> Seq<char> {
    "dashboard.fonts["@ + decimal_text(i as nat) + "]"@
}

/// The canonical paths of `fonts` from index `k` on, after `acc`.
pub open spec fn resolve_fonts(
    files: Seq<(Seq<char>, SpecFileLookup)>,
    fonts: Seq<Seq<char>>,
    k: int,
    acc: Seq<Seq<char>>,
) -> Result<Seq<Seq<char>>, SpecConfigError>
    decreases fonts.len() - k,
{
    if k < 0 || k >= fonts.len() {
        Ok(acc)
    } else {
        match spec_resolve(files, fonts[k], font_field(k)) {
            Err(e) => Err(e),
            Ok(p) => resolve_fonts(files, fonts, k + 1, acc.push(p)),
        }
    }
}

/// The checked dashboard options.
#[derive(Debug)]
pub struct DashboardOptions {
    width: u32,
    height: u32,
    stylesheet: String,
    background: Option<String>,
    fonts: Vec<String>,
}

pub struct SpecDashboardOptions {
    pub width: u32,
    pub height: u32,
    pub stylesheet: Seq<char>,
    pub background: Option<Seq<char>>,
    pub fonts: Seq<Seq<char>>,
}

impl View for DashboardOptions {
    type V = SpecDashboardOptions;

    closed spec fn view(&self) -> SpecDashboardOptions {
        SpecDashboardOptions {
            width: self.width,
            height: self.height,
            stylesheet: self.stylesheet@,
            background: option_string_view(self.background),
            fonts: strings_view(self.fonts@),
        }
    }
}

/// The options as checked: a size above zero, a background color when one
/// is given, and each named file found.
pub open spec fn spec_normalize_options(
    o: SpecRawDashboardOptions,
    files: Seq<(Seq<char>, SpecFileLookup)>,
) -> Result<SpecDashboardOptions, SpecConfigError> {
    if o.width == 0 || o.height == 0 {
        Err(dashboard_error(ConfigErrorKind::ZeroSize, seq![], seq![]))
    } else if o.background matches Some(b) && !is_hex_color(b) {
        Err(dashboard_error(ConfigErrorKind::InvalidBackground, o.background->0, seq![]))
    } else {
        match spec_resolve(files, o.stylesheet, "dashboard.stylesheet"@) {
            Err(e) => Err(e),
            Ok(sheet) => match resolve_fonts(files, o.fonts, 0, seq![]) {
                Err(e) => Err(e),
                Ok(fonts) => Ok(
                    SpecDashboardOptions {
                        width: o.width,
                        height: o.height,
                        stylesheet: sheet,
                        background: o.background,
                        fonts,
                    },
                ),
            },
        }
    }
}

impl RawDashboardOptions {
    /// Checks the options and finds the files they name.
    pub fn normalize(&self, files: &FileTable) -> (r: Result<DashboardOptions, ConfigError>)
        ensures
            match r {
                Ok(o) => spec_normalize_options(self@, files@) == Ok::<
                    SpecDashboardOptions,
                    SpecConfigError,
                >(o@),
                Err(e) => spec_normalize_options(self@, files@) == Err::<
                    SpecDashboardOptions,
                    SpecConfigError,
                >(e@),
            },
    {
        if self.width == 0 || self.height == 0 {
            return Err(
                make_error(None, ConfigErrorKind::ZeroSize, String::new(), String::new()),
            );
        }
        match &self.background {
            Some(b) => {
                if !is_hex_color_exec(b) {
                    return Err(
                        make_error(None, ConfigErrorKind::InvalidBackground, b.clone(), String::new()),
                    );
                }
            },
            None => {},
        }
        let sheet = match files.resolve(&self.stylesheet, "dashboard.stylesheet".to_string()) {
            Ok(p) => p,
            Err(e) => {
                return Err(e);
            },
        };
        let ghost fv = strings_view(self.fonts@);
        let mut fonts: Vec<String> = Vec::new();
        let mut k: usize = 0;
        assert(strings_view(fonts@) =~= seq![]);
        while k < self.fonts.len()
            invariant
                k <= self.fonts@.len(),
                fv == strings_view(self.fonts@),
                self.width != 0 && self.height != 0,
                !(self@.background matches Some(b) && !is_hex_color(b)),
                spec_resolve(files@, self.stylesheet@, "dashboard.stylesheet"@) == Ok::<
                    Seq<char>,
                    SpecConfigError,
                >(sheet@),
                resolve_fonts(files@, fv, 0, seq![]) == resolve_fonts(
                    files@,
                    fv,
                    k as int,
                    strings_view(fonts@),
                ),
            decreases self.fonts@.len() - k,
        {
            let mut field = "dashboard.fonts[".to_string();
            push_decimal(&mut field, k);
            field.append("]");
            assert(field@ == font_field(k as int));
            assert(fv[k as int] == self.fonts@[k as int]@);
            match files.resolve(&self.fonts[k], field) {
                Ok(p) => {
                    let ghost before = fonts@;
                    fonts.push(p);
                    assert(strings_view(fonts@) =~= strings_view(before).push(fonts@.last()@));
                },
                Err(e) => {
                    return Err(e);
                },
            }
            k += 1;
        }
        let r = DashboardOptions {
            width: self.width,
            height: self.height,
            stylesheet: sheet,
            background: copy_string_option(&self.background),
            fonts,
        };
        assert(r@.fonts == strings_view(fonts@));
        Ok(r)
    }
}

impl DashboardOptions {
    /// Width in pixels.
    pub fn width(&self) -> (r: u32)
        ensures
            r == self@.width,
    {
        self.width
    }

    /// Height in pixels.
    pub fn height(&self) -> (r: u32)
        ensures
            r == self@.height,
    {
        self.height
    }

    /// The stylesheet's canonical path.
    pub fn stylesheet(&self) -> (r: &String)
        ensures
            r@ == self@.stylesheet,
    {
        &self.stylesheet
    }

    /// The background color as written, if one is given.
    pub fn background(&self) -> (r: &Option<String>)
        ensures
            option_string_view(*r) == self@.background,
    {
        &self.background
    }

    /// The fonts' canonical paths.
    pub fn fonts(&self) -> (r: &Vec<String>)
        ensures
            strings_view(r@) == self@.fonts,
    {
        &self.fonts
    }
}

// ---------------------------------------------------------------------------
// Which fields each widget type takes.

/// Whether field number `k` is written; the fields in order are `text`,
/// `source`, `value`, `min`, `max`, `orientation`, `start-angle`,
/// `sweep-angle`, `thickness`, `needle-width`, `line-width`, `fill`,
/// `equals`, `not-equals`, `component`.
pub open spec fn field_present(w: SpecRawWidget, k: int) -> bool {
    if k == 0 {
        w.text is Some
    } else if k == 1 {
        w.source is Some
    } else if k == 2 {
        w.value is Some
    } else if k == 3 {
        w.min is Some
    } else if k == 4 {
        w.max is Some
    } else if k == 5 {
        w.orientation is Some
    } else if k == 6 {
        w.start_angle is Some
    } else if k == 7 {
        w.sweep_angle is Some
    } else if k == 8 {
        w.thickness is Some
    } else if k == 9 {
        w.needle_width is Some
    } else if k == 10 {
        w.line_width is Some
    } else if k == 11 {
        w.fill is Some
    } else if k == 12 {
        w.equals is Some
    } else if k == 13 {
        w.not_equals is Some
    } else if k == 14 {
        w.component is Some
    } else {
        w.params.len() > 0
    }
}

/// The name of field number `k`.
pub open spec fn field_name(k: int) -> Seq<char> {
    if k == 0 {
        "text"@
    } else if k == 1 {
        "source"@
    } else if k == 2 {
        "value"@
    } else if k == 3 {
        "min"@
    } else if k == 4 {
        "max"@
    } else if k == 5 {
        "orientation"@
    } else if k == 6 {
        "start-angle"@
    } else if k == 7 {
        "sweep-angle"@
    } else if k == 8 {
        "thickness"@
    } else if k == 9 {
        "needle-width"@
    } else if k == 10 {
        "line-width"@
    } else if k == 11 {
        "fill"@
    } else if k == 12 {
        "equals"@
    } else if k == 13 {
        "not-equals"@
    } else if k == 14 {
        "component"@
    } else {
        "params"@
    }
}

/// The fields that a widget type takes.
pub open spec fn field_allowed(t: RawWidgetType, k: int) -> bool {
    match t {
        RawWidgetType::Text => k == 0,
        RawWidgetType::Image => k == 1,
        RawWidgetType::Progress => 2 <= k <= 5,
        RawWidgetType::CircularProgress => (2 <= k <= 4) || (6 <= k <= 8),
        RawWidgetType::Graph => (2 <= k <= 4) || k == 10 || k == 11,
        RawWidgetType::Gauge => (2 <= k <= 4) || (6 <= k <= 9),
        RawWidgetType::Conditional => k == 2 || k == 12 || k == 13,
        RawWidgetType::Component => k == 14 || k == 15,
        _ => false,
    }
}

/// The first field from `k` on that is written but that the type does not take.
pub open spec fn first_refused(w: SpecRawWidget, t: RawWidgetType, k: int) -> Option<int>
    decreases 16 - k,
{
    if k < 0 || k >= 16 {
        None
    } else if field_present(w, k) && !field_allowed(t, k) {
        Some(k)
    } else {
        first_refused(w, t, k + 1)
    }
}

/// A text that is there and not blank.
pub open spec fn required(v: Option<Seq<char>>) -> Option<Seq<char>> {
    match v {
        Some(x) => if trimmed(x, 0, x.len() as int).0 < trimmed(x, 0, x.len() as int).1 {
            Some(x)
        } else {
            None
        },
        None => None,
    }
}

/// The binding that `field` holds, or the error.
pub open spec fn field_binding(path: Seq<char>, field: Seq<char>, v: Option<Seq<char>>) -> Result<
    Seq<SpecSegment>,
    SpecConfigError,
> {
    match required(v) {
        None => Err(widget_error(path, ConfigErrorKind::MissingField, field, seq![])),
        Some(t) => match spec_parse_binding(t) {
            Ok(b) => Ok(b),
            Err(e) => Err(
                widget_error(path, ConfigErrorKind::InvalidBinding, field, binding_parse_message(e)),
            ),
        },
    }
}

// ---------------------------------------------------------------------------
// Numbers in the configuration.

/// The token given, or the default.
pub open spec fn number_or(t: Option<SpecNumberToken>, d: SpecDecimal) -> SpecNumberToken {
    match t {
        Some(x) => x,
        None => SpecNumberToken::Finite(d),
    }
}

/// The value of a finite token (zero for the others).
pub open spec fn token_decimal(t: SpecNumberToken) -> SpecDecimal {
    match t {
        SpecNumberToken::Finite(d) => d,
        _ => spec_zero(),
    }
}

/// The value of a finite token given; none otherwise.
pub open spec fn finite_or_none(t: Option<SpecNumberToken>) -> Option<SpecDecimal> {
    match t {
        Some(SpecNumberToken::Finite(d)) => Some(d),
        _ => None,
    }
}

pub open spec fn negative_of(d: SpecDecimal) -> SpecDecimal {
    SpecDecimal { negative: true, ..d }
}

/// Both finite, and `a < b`.
pub open spec fn range_ok(a: SpecNumberToken, b: SpecNumberToken) -> bool {
    &&& a is Finite
    &&& b is Finite
    &&& compare(token_decimal(a), token_decimal(b)) < 0
}

/// Finite and above zero.
pub open spec fn positive_ok(t: SpecNumberToken) -> bool {
    t is Finite && compare(token_decimal(t), spec_zero()) > 0
}

/// Both angles finite, and the sweep not zero and at most 360 degrees either way.
pub open spec fn arc_ok(start: SpecNumberToken, sweep: SpecNumberToken) -> bool {
    &&& start is Finite
    &&& sweep is Finite
    &&& !is_zero(token_decimal(sweep))
    &&& magnitude_order(token_decimal(sweep), spec_decimal_of("360"@, 0)) <= 0
}

/// Neither bound, where given, is infinite or NaN, and `min < max` where both are given.
pub open spec fn graph_range_ok(min: Option<SpecNumberToken>, max: Option<SpecNumberToken>) -> bool {
    &&& !(min matches Some(t) && !(t is Finite))
    &&& !(max matches Some(t) && !(t is Finite))
    &&& !(min matches Some(SpecNumberToken::Finite(a)) && max matches Some(SpecNumberToken::Finite(b))
        && compare(a, b) >= 0)
}

/// The digit characters of a decimal, as they are.
pub open spec fn digit_chars(d: Seq<u8>) -> Seq<char> {
    d.map_values(|x: u8| digit_char(x as nat))
}

pub open spec fn zeros(n: int) -> Seq<char> {
    Seq::new(if n > 0 { n as nat } else { 0 }, |i: int| '0')
}

/// A decimal written out without an exponent, the digits as they are.
pub open spec fn plain_text(d: SpecDecimal) -> Seq<char> {
    let sign = if d.negative { "-"@ } else { seq![] };
    let c = digit_chars(d.digits);
    let n = c.len() as int;
    if d.exponent >= 0 {
        sign + c + zeros(d.exponent)
    } else if n + d.exponent > 0 {
        sign + c.subrange(0, n + d.exponent) + "."@ + c.subrange(n + d.exponent, n)
    } else {
        sign + "0."@ + zeros(-(n + d.exponent)) + c
    }
}

/// A number token written out as the configuration's messages write numbers.
pub open spec fn token_text(t: SpecNumberToken) -> Seq<char> {
    match t {
        SpecNumberToken::Finite(d) => plain_text(d),
        SpecNumberToken::Infinite(negative) => if negative {
            "-inf"@
        } else {
            "inf"@
        },
        SpecNumberToken::NotANumber => "NaN"@,
    }
}

/// A range written as `min..max`.
pub open spec fn range_text(a: SpecNumberToken, b: SpecNumberToken) -> Seq<char> {
    token_text(a) + ".."@ + token_text(b)
}

/// The arc checks: angles, then thickness.
pub open spec fn arc_error(
    path: Seq<char>,
    start: SpecNumberToken,
    sweep: SpecNumberToken,
    thickness: SpecNumberToken,
) -> Option<SpecConfigError> {
    if !arc_ok(start, sweep) {
        Some(widget_error(path, ConfigErrorKind::InvalidArc, seq![], seq![]))
    } else if !positive_ok(thickness) {
        Some(widget_error(path, ConfigErrorKind::NotPositive, "thickness"@, seq![]))
    } else {
        None
    }
}

/// The configured number or its default, of the widgets that have one.
pub open spec fn default_min(w: SpecRawWidget) -> SpecNumberToken {
    number_or(w.min, spec_zero())
}

pub open spec fn default_max(w: SpecRawWidget) -> SpecNumberToken {
    number_or(w.max, spec_decimal_of("100"@, 0))
}

// ---------------------------------------------------------------------------
// Widgets without children.

/// The kind of a widget that holds no children, once its fields are checked.
pub open spec fn spec_leaf(
    raw: SpecRawWidget,
    path: Seq<char>,
    files: Seq<(Seq<char>, SpecFileLookup)>,
) -> Result<SpecWidgetKind, SpecConfigError> {
    match raw.kind {
        RawWidgetType::Text => match field_binding(path, "text"@, raw.text) {
            Err(e) => Err(e),
            Ok(b) => Ok(SpecWidgetKind::Text { text: b }),
        },
        RawWidgetType::Image => match raw.source {
            None => Err(widget_error(path, ConfigErrorKind::ImageRequiresSource, seq![], seq![])),
            Some(src) => match spec_resolve(files, src, path + ".source"@) {
                Err(e) => Err(e),
                Ok(p) => Ok(SpecWidgetKind::Image { source: p }),
            },
        },
        RawWidgetType::Progress => match field_binding(path, "value"@, raw.value) {
            Err(e) => Err(e),
            Ok(b) => if !range_ok(default_min(raw), default_max(raw)) {
                Err(
                    widget_error(
                        path,
                        ConfigErrorKind::InvalidRange,
                        "progress"@,
                        range_text(default_min(raw), default_max(raw)),
                    ),
                )
            } else {
                Ok(
                    SpecWidgetKind::Progress {
                        value: b,
                        min: token_decimal(default_min(raw)),
                        max: token_decimal(default_max(raw)),
                        orientation: match raw.orientation {
                            Some(o) => o,
                            None => ProgressOrientation::Horizontal,
                        },
                    },
                )
            },
        },
        RawWidgetType::CircularProgress => match field_binding(path, "value"@, raw.value) {
            Err(e) => Err(e),
            Ok(b) => if !range_ok(default_min(raw), default_max(raw)) {
                Err(
                    widget_error(
                        path,
                        ConfigErrorKind::InvalidRange,
                        "circular-progress"@,
                        range_text(default_min(raw), default_max(raw)),
                    ),
                )
            } else {
                let start = number_or(raw.start_angle, negative_of(spec_decimal_of("90"@, 0)));
                let sweep = number_or(raw.sweep_angle, spec_decimal_of("360"@, 0));
                let thickness = number_or(raw.thickness, spec_decimal_of("8"@, 0));
                match arc_error(path, start, sweep, thickness) {
                    Some(e) => Err(e),
                    None => Ok(
                        SpecWidgetKind::CircularProgress {
                            value: b,
                            min: token_decimal(default_min(raw)),
                            max: token_decimal(default_max(raw)),
                            start_angle: token_decimal(start),
                            sweep_angle: token_decimal(sweep),
                            thickness: token_decimal(thickness),
                        },
                    ),
                }
            },
        },
        RawWidgetType::Graph => if !graph_range_ok(raw.min, raw.max) {
            Err(widget_error(path, ConfigErrorKind::InvalidGraphRange, seq![], seq![]))
        } else {
            let line_width = number_or(raw.line_width, spec_decimal_of("2"@, 0));
            if !positive_ok(line_width) {
                Err(widget_error(path, ConfigErrorKind::NotPositive, "line-width"@, seq![]))
            } else {
                match field_binding(path, "value"@, raw.value) {
                    Err(e) => Err(e),
                    Ok(b) => Ok(
                        SpecWidgetKind::Graph {
                            values: b,
                            min: finite_or_none(raw.min),
                            max: finite_or_none(raw.max),
                            line_width: token_decimal(line_width),
                            fill: match raw.fill {
                                Some(f) => f,
                                None => false,
                            },
                        },
                    ),
                }
            }
        },
        RawWidgetType::Gauge => match field_binding(path, "value"@, raw.value) {
            Err(e) => Err(e),
            Ok(b) => if !range_ok(default_min(raw), default_max(raw)) {
                Err(
                    widget_error(
                        path,
                        ConfigErrorKind::InvalidRange,
                        "gauge"@,
                        range_text(default_min(raw), default_max(raw)),
                    ),
                )
            } else {
                let start = number_or(raw.start_angle, negative_of(spec_decimal_of("135"@, 0)));
                let sweep = number_or(raw.sweep_angle, spec_decimal_of("270"@, 0));
                let thickness = number_or(raw.thickness, spec_decimal_of("8"@, 0));
                let needle = number_or(raw.needle_width, spec_decimal_of("3"@, 0));
                match arc_error(path, start, sweep, thickness) {
                    Some(e) => Err(e),
                    None => if !positive_ok(needle) {
                        Err(widget_error(path, ConfigErrorKind::NotPositive, "needle-width"@, seq![]))
                    } else {
                        Ok(
                            SpecWidgetKind::Gauge {
                                value: b,
                                min: token_decimal(default_min(raw)),
                                max: token_decimal(default_max(raw)),
                                start_angle: token_decimal(start),
                                sweep_angle: token_decimal(sweep),
                                thickness: token_decimal(thickness),
                                needle_width: token_decimal(needle),
                            },
                        )
                    },
                }
            },
        },
        _ => Ok(SpecWidgetKind::Spacer),
    }
}

// ---------------------------------------------------------------------------
// Identity, components, and the tree.

/// The first class from `k` on that is not a valid name.
pub open spec fn first_bad_class(c: Seq<Seq<char>>, k: int) -> Option<int>
    decreases c.len() - k,
{
    if k < 0 || k >= c.len() {
        None
    } else if !is_name(c[k]) {
        Some(k)
    } else {
        first_bad_class(c, k + 1)
    }
}

/// The id and classes checked: the ids taken so far, with this widget's added.
pub open spec fn spec_identity(raw: SpecRawWidget, path: Seq<char>, ids: Seq<Seq<char>>) -> Result<
    Seq<Seq<char>>,
    SpecConfigError,
> {
    let after = match raw.id {
        Some(id) => if !is_name(id) {
            Err(widget_error(path, ConfigErrorKind::InvalidId, id, seq![]))
        } else if ids.contains(id) {
            Err(widget_error(path, ConfigErrorKind::DuplicateId, id, seq![]))
        } else {
            Ok(ids.push(id))
        },
        None => Ok(ids),
    };
    match after {
        Err(e) => Err(e),
        Ok(ids2) => match first_bad_class(raw.classes, 0) {
            Some(k) => Err(widget_error(path, ConfigErrorKind::InvalidClass, raw.classes[k], seq![])),
            None => Ok(ids2),
        },
    }
}

/// The number of components whose names are not on `stack`, among the first `n`.
pub open spec fn unexpanded(comps: Seq<(Seq<char>, SpecRawWidget)>, stack: Seq<Seq<char>>, n: int) -> nat
    decreases n,
{
    if n <= 0 || n > comps.len() {
        0
    } else {
        unexpanded(comps, stack, n - 1) + if stack.contains(comps[n - 1].0) {
            0nat
        } else {
            1nat
        }
    }
}

/// The first component from `k` on with the given name.
pub open spec fn find_component(comps: Seq<(Seq<char>, SpecRawWidget)>, name: Seq<char>, k: int) -> Option<int>
    decreases comps.len() - k,
{
    if k < 0 || k >= comps.len() {
        None
    } else if comps[k].0 == name {
        Some(k)
    } else {
        find_component(comps, name, k + 1)
    }
}

/// Names joined by ` -> `.
pub open spec fn join_chain(names: Seq<Seq<char>>) -> Seq<char>
    decreases names.len(),
{
    if names.len() == 0 {
        seq![]
    } else if names.len() == 1 {
        names[0]
    } else {
        join_chain(names.drop_last()) + " -> "@ + names.last()
    }
}

/// `path.children[k]`.
pub open spec fn child_path(path: Seq<char>, k: int) -> Seq<char> {
    path + ".children["@ + decimal_text(k as nat) + "]"@
}

/// The widget for `raw` at `path` with the given kind.
pub open spec fn widget_of(raw: SpecRawWidget, path: Seq<char>, kind: SpecWidgetKind) -> SpecWidget {
    SpecWidget { source_path: path, id: raw.id, classes: raw.classes, kind }
}

/// A component use: the template with the use's id and, after its own, the use's classes.
pub open spec fn instantiate(template: SpecRawWidget, used: SpecRawWidget) -> SpecRawWidget {
    SpecRawWidget { id: used.id, classes: template.classes + used.classes, ..template }
}

/// A component use of `name` at `path`, made from `template`: the
/// template's placeholders filled from the use's parameters, then the use's
/// id and classes applied. A refused placeholder, a placeholder whose
/// parameter the use does not give, or a parameter that no placeholder uses
/// is an error, in that order.
pub open spec fn spec_fill_template(
    template: SpecRawWidget,
    used: SpecRawWidget,
    name: Seq<char>,
    path: Seq<char>,
) -> Result<SpecRawWidget, SpecConfigError> {
    match fill_widget(template, used.params, seq![]) {
        Err(bad) => Err(widget_error(path, ConfigErrorKind::InvalidPlaceholder, name, bad)),
        Ok(filled) => match first_missing(filled.1, used.params, 0) {
            Some(p) => Err(widget_error(path, ConfigErrorKind::MissingParameter, p, name)),
            None => match first_unused(used.params, filled.1, 0) {
                Some(p) => Err(widget_error(path, ConfigErrorKind::UnknownParameter, p, name)),
                None => Ok(instantiate(filled.0, used)),
            },
        },
    }
}

pub proof fn lemma_find_component(comps: Seq<(Seq<char>, SpecRawWidget)>, name: Seq<char>, k: int)
    requires
        0 <= k,
    ensures
        find_component(comps, name, k) matches Some(j) ==> k <= j < comps.len() && comps[j].0
            == name,
        find_component(comps, name, k) is None ==> forall|j: int|
            k <= j < comps.len() ==> comps[j].0 != name,
    decreases comps.len() - k,
{
    if k < comps.len() && comps[k].0 != name {
        lemma_find_component(comps, name, k + 1);
    }
}

pub proof fn lemma_unexpanded_push(
    comps: Seq<(Seq<char>, SpecRawWidget)>,
    stack: Seq<Seq<char>>,
    name: Seq<char>,
    n: int,
)
    requires
        0 <= n <= comps.len(),
    ensures
        unexpanded(comps, stack.push(name), n) <= unexpanded(comps, stack, n),
        !stack.contains(name) && (exists|j: int| 0 <= j < n && comps[j].0 == name) ==> unexpanded(
            comps,
            stack.push(name),
            n,
        ) < unexpanded(comps, stack, n),
    decreases n,
{
    if n > 0 {
        lemma_unexpanded_push(comps, stack, name, n - 1);
        let x = comps[n - 1].0;
        if stack.contains(x) {
            let i = choose|i: int| 0 <= i < stack.len() && stack[i] == x;
            assert(stack.push(name)[i] == x);
        }
        if x == name {
            assert(stack.push(name)[stack.len() as int] == x);
        }
    }
}

/// The widget for `raw` at `path`, with the ids taken after it; components
/// are expanded, and `stack` holds the components being expanded.
pub open spec fn spec_normalize(
    raw: SpecRawWidget,
    path: Seq<char>,
    ids: Seq<Seq<char>>,
    comps: Seq<(Seq<char>, SpecRawWidget)>,
    stack: Seq<Seq<char>>,
    files: Seq<(Seq<char>, SpecFileLookup)>,
) -> Result<(SpecWidget, Seq<Seq<char>>), SpecConfigError>
    decreases unexpanded(comps, stack, comps.len() as int), raw, raw.children.len() + 2,
{
    if raw.kind == RawWidgetType::Component {
        if raw.children.len() > 0 {
            Err(widget_error(path, ConfigErrorKind::ChildrenNotAllowed, seq![], seq![]))
        } else if first_refused(raw, RawWidgetType::Component, 0) is Some {
            Err(
                widget_error(
                    path,
                    ConfigErrorKind::FieldNotAllowed,
                    field_name(first_refused(raw, RawWidgetType::Component, 0)->0),
                    seq![],
                ),
            )
        } else {
            match required(raw.component) {
                None => Err(widget_error(path, ConfigErrorKind::MissingField, "component"@, seq![])),
                Some(name) => if stack.contains(name) {
                    Err(
                        widget_error(
                            path,
                            ConfigErrorKind::ComponentCycle,
                            join_chain(stack.push(name)),
                            seq![],
                        ),
                    )
                } else {
                    match find_component(comps, name, 0) {
                        None => Err(
                            widget_error(path, ConfigErrorKind::UnknownComponent, name, seq![]),
                        ),
                        Some(j) => {
                            proof {
                                lemma_find_component(comps, name, 0);
                                lemma_unexpanded_push(comps, stack, name, comps.len() as int);
                            }
                            match spec_fill_template(comps[j].1, raw, name, path) {
                                Err(e) => Err(e),
                                Ok(t) => spec_normalize(
                                    t,
                                    path,
                                    ids,
                                    comps,
                                    stack.push(name),
                                    files,
                                ),
                            }
                        },
                    }
                },
            }
        }
    } else {
        match spec_identity(raw, path, ids) {
            Err(e) => Err(e),
            Ok(ids2) => spec_kind(raw, path, ids2, comps, stack, files),
        }
    }
}

/// The kind of a container for its type and children.
pub open spec fn container_kind(t: RawWidgetType, children: Seq<SpecWidget>) -> SpecWidgetKind {
    if t == RawWidgetType::Column {
        SpecWidgetKind::Flex { direction: FlexDirection::Column, children }
    } else if t == RawWidgetType::Stack {
        SpecWidgetKind::Stack { children }
    } else {
        SpecWidgetKind::Flex { direction: FlexDirection::Row, children }
    }
}

/// The comparison a conditional makes.
pub open spec fn comparison_of(raw: SpecRawWidget) -> SpecComparison {
    match raw.equals {
        Some(v) => SpecComparison::Equals(v),
        None => match raw.not_equals {
            Some(v) => SpecComparison::NotEquals(v),
            None => SpecComparison::Truthy,
        },
    }
}

/// The widget for a non-component `raw` whose id and classes were checked.
pub open spec fn spec_kind(
    raw: SpecRawWidget,
    path: Seq<char>,
    ids: Seq<Seq<char>>,
    comps: Seq<(Seq<char>, SpecRawWidget)>,
    stack: Seq<Seq<char>>,
    files: Seq<(Seq<char>, SpecFileLookup)>,
) -> Result<(SpecWidget, Seq<Seq<char>>), SpecConfigError>
    decreases unexpanded(comps, stack, comps.len() as int), raw, raw.children.len() + 1,
{
    let t = raw.kind;
    if t == RawWidgetType::Row || t == RawWidgetType::Column || t == RawWidgetType::Stack {
        match first_refused(raw, t, 0) {
            Some(k) => Err(widget_error(path, ConfigErrorKind::FieldNotAllowed, field_name(k), seq![])),
            None => match spec_children_from(raw, 0, path, ids, comps, stack, files, seq![]) {
                Err(e) => Err(e),
                Ok(r) => Ok((widget_of(raw, path, container_kind(t, r.0)), r.1)),
            },
        }
    } else if t == RawWidgetType::Conditional {
        match first_refused(raw, t, 0) {
            Some(k) => Err(widget_error(path, ConfigErrorKind::FieldNotAllowed, field_name(k), seq![])),
            None => if raw.equals is Some && raw.not_equals is Some {
                Err(widget_error(path, ConfigErrorKind::BothComparisons, seq![], seq![]))
            } else {
                match field_binding(path, "value"@, raw.value) {
                    Err(e) => Err(e),
                    Ok(b) => match spec_children_from(raw, 0, path, ids, comps, stack, files, seq![]) {
                        Err(e) => Err(e),
                        Ok(r) => Ok(
                            (
                                widget_of(
                                    raw,
                                    path,
                                    SpecWidgetKind::Conditional {
                                        condition: SpecCondition { value: b, comparison: comparison_of(raw) },
                                        children: r.0,
                                    },
                                ),
                                r.1,
                            ),
                        ),
                    },
                }
            },
        }
    } else if raw.children.len() > 0 {
        Err(widget_error(path, ConfigErrorKind::ChildrenNotAllowed, seq![], seq![]))
    } else {
        match first_refused(raw, t, 0) {
            Some(k) => Err(widget_error(path, ConfigErrorKind::FieldNotAllowed, field_name(k), seq![])),
            None => match spec_leaf(raw, path, files) {
                Err(e) => Err(e),
                Ok(kind) => Ok((widget_of(raw, path, kind), ids)),
            },
        }
    }
}

/// The widgets for the children of `parent` from `k` on, after `acc`.
pub open spec fn spec_children_from(
    parent: SpecRawWidget,
    k: int,
    path: Seq<char>,
    ids: Seq<Seq<char>>,
    comps: Seq<(Seq<char>, SpecRawWidget)>,
    stack: Seq<Seq<char>>,
    files: Seq<(Seq<char>, SpecFileLookup)>,
    acc: Seq<SpecWidget>,
) -> Result<(Seq<SpecWidget>, Seq<Seq<char>>), SpecConfigError>
    decreases unexpanded(comps, stack, comps.len() as int), parent, parent.children.len() - k,
{
    if k < 0 || k >= parent.children.len() {
        Ok((acc, ids))
    } else {
        proof {
            assert(decreases_to!(parent => parent.children));
            assert(decreases_to!(parent.children => parent.children[k]));
        }
        match spec_normalize(parent.children[k], child_path(path, k), ids, comps, stack, files) {
            Err(e) => Err(e),
            Ok(r) => spec_children_from(parent, k + 1, path, r.1, comps, stack, files, acc.push(r.0)),
        }
    }
}

// ---------------------------------------------------------------------------
// Checking fields and numbers.

/// The spec result is `Ok(v)`.
pub open spec fn gives<T>(r: Result<T, SpecConfigError>, v: T) -> bool {
    r == Ok::<T, SpecConfigError>(v)
}

/// The spec result is `Err(e)`.
pub open spec fn fails<T>(r: Result<T, SpecConfigError>, e: SpecConfigError) -> bool {
    r == Err::<T, SpecConfigError>(e)
}

fn field_present_exec(w: &RawWidget, k: usize) -> (r: bool)
    ensures
        r == field_present(w@, k as int),
{
    proof {
        lemma_raw_view(*w);
    }
    if k == 0 {
        w.text.is_some()
    } else if k == 1 {
        w.source.is_some()
    } else if k == 2 {
        w.value.is_some()
    } else if k == 3 {
        w.min.is_some()
    } else if k == 4 {
        w.max.is_some()
    } else if k == 5 {
        w.orientation.is_some()
    } else if k == 6 {
        w.start_angle.is_some()
    } else if k == 7 {
        w.sweep_angle.is_some()
    } else if k == 8 {
        w.thickness.is_some()
    } else if k == 9 {
        w.needle_width.is_some()
    } else if k == 10 {
        w.line_width.is_some()
    } else if k == 11 {
        w.fill.is_some()
    } else if k == 12 {
        w.equals.is_some()
    } else if k == 13 {
        w.not_equals.is_some()
    } else if k == 14 {
        w.component.is_some()
    } else {
        w.params.len() > 0
    }
}

fn field_name_exec(k: usize) -> (r: &'static str)
    ensures
        r@ == field_name(k as int),
{
    if k == 0 {
        "text"
    } else if k == 1 {
        "source"
    } else if k == 2 {
        "value"
    } else if k == 3 {
        "min"
    } else if k == 4 {
        "max"
    } else if k == 5 {
        "orientation"
    } else if k == 6 {
        "start-angle"
    } else if k == 7 {
        "sweep-angle"
    } else if k == 8 {
        "thickness"
    } else if k == 9 {
        "needle-width"
    } else if k == 10 {
        "line-width"
    } else if k == 11 {
        "fill"
    } else if k == 12 {
        "equals"
    } else if k == 13 {
        "not-equals"
    } else if k == 14 {
        "component"
    } else {
        "params"
    }
}

fn field_allowed_exec(t: RawWidgetType, k: usize) -> (r: bool)
    ensures
        r == field_allowed(t, k as int),
{
    match t {
        RawWidgetType::Text => k == 0,
        RawWidgetType::Image => k == 1,
        RawWidgetType::Progress => 2 <= k && k <= 5,
        RawWidgetType::CircularProgress => (2 <= k && k <= 4) || (6 <= k && k <= 8),
        RawWidgetType::Graph => (2 <= k && k <= 4) || k == 10 || k == 11,
        RawWidgetType::Gauge => (2 <= k && k <= 4) || (6 <= k && k <= 9),
        RawWidgetType::Conditional => k == 2 || k == 12 || k == 13,
        RawWidgetType::Component => k == 14 || k == 15,
        _ => false,
    }
}

fn first_refused_exec(w: &RawWidget, t: RawWidgetType) -> (r: Option<usize>)
    ensures
        match r {
            Some(k) => first_refused(w@, t, 0) == Some(k as int),
            None => first_refused(w@, t, 0) is None,
        },
{
    let mut k: usize = 0;
    while k < 16
        invariant
            k <= 16,
            first_refused(w@, t, 0) == first_refused(w@, t, k as int),
        decreases 16 - k,
    {
        if field_present_exec(w, k) && !field_allowed_exec(t, k) {
            return Some(k);
        }
        k += 1;
    }
    None
}

fn refused_error(path: &String, k: usize) -> (r: ConfigError)
    ensures
        r@ == widget_error(path@, ConfigErrorKind::FieldNotAllowed, field_name(k as int), seq![]),
{
    widget_err(path, ConfigErrorKind::FieldNotAllowed, field_name_exec(k), String::new())
}

fn required_exec(v: &Option<String>) -> (r: Option<String>)
    ensures
        option_string_view(r) == required(option_string_view(*v)),
{
    match v {
        Some(x) => {
            let c = crate::text::chars_of(x.as_str());
            let (a, b) = trim_window(&c, 0, c.len());
            if a < b {
                Some(x.clone())
            } else {
                None
            }
        },
        None => None,
    }
}

fn field_binding_exec(path: &String, field: &str, v: &Option<String>) -> (r: Result<Binding, ConfigError>)
    ensures
        match r {
            Ok(b) => gives(field_binding(path@, field@, option_string_view(*v)), b@),
            Err(e) => fails(field_binding(path@, field@, option_string_view(*v)), e@),
        },
{
    match required_exec(v) {
        None => Err(widget_err(path, ConfigErrorKind::MissingField, field, String::new())),
        Some(t) => match Binding::parse(t.as_str()) {
            Ok(b) => Ok(b),
            Err(e) => Err(widget_err(path, ConfigErrorKind::InvalidBinding, field, e.message())),
        },
    }
}

fn copy_token(t: &NumberToken) -> (r: NumberToken)
    ensures
        r@ == t@,
{
    match t {
        NumberToken::Finite(d) => NumberToken::Finite(d.duplicate()),
        NumberToken::Infinite(n) => NumberToken::Infinite(*n),
        NumberToken::NotANumber => NumberToken::NotANumber,
    }
}

fn number_or_exec(t: &Option<NumberToken>, d: Decimal) -> (r: NumberToken)
    ensures
        r@ == number_or(option_token_view(*t), d@),
{
    match t {
        Some(x) => copy_token(x),
        None => NumberToken::Finite(d),
    }
}

fn token_decimal_exec(t: &NumberToken) -> (r: Decimal)
    ensures
        r@ == token_decimal(t@),
{
    match t {
        NumberToken::Finite(d) => d.duplicate(),
        _ => Decimal::zero(),
    }
}

fn finite_or_none_exec(t: &Option<NumberToken>) -> (r: Option<Decimal>)
    ensures
        option_decimal_view(r) == finite_or_none(option_token_view(*t)),
{
    match t {
        Some(NumberToken::Finite(d)) => Some(d.duplicate()),
        _ => None,
    }
}

fn range_ok_exec(a: &NumberToken, b: &NumberToken) -> (r: bool)
    ensures
        r == range_ok(a@, b@),
{
    match (a, b) {
        (NumberToken::Finite(x), NumberToken::Finite(y)) => x.compare(y) < 0,
        _ => false,
    }
}

fn positive_ok_exec(t: &NumberToken) -> (r: bool)
    ensures
        r == positive_ok(t@),
{
    match t {
        NumberToken::Finite(x) => x.compare(&Decimal::zero()) > 0,
        _ => false,
    }
}

fn is_zero_exec(d: &Decimal) -> (r: bool)
    ensures
        r == is_zero(d@),
{
    d.magnitude_compare(&Decimal::zero()) == 0
}

fn arc_ok_exec(start: &NumberToken, sweep: &NumberToken) -> (r: bool)
    ensures
        r == arc_ok(start@, sweep@),
{
    match (start, sweep) {
        (NumberToken::Finite(_), NumberToken::Finite(w)) => !is_zero_exec(w) && w.magnitude_compare(
            &Decimal::from_digit_text("360", 0),
        ) <= 0,
        _ => false,
    }
}

fn graph_range_ok_exec(min: &Option<NumberToken>, max: &Option<NumberToken>) -> (r: bool)
    ensures
        r == graph_range_ok(option_token_view(*min), option_token_view(*max)),
{
    let min_bad = match min {
        Some(NumberToken::Finite(_)) => false,
        Some(_) => true,
        None => false,
    };
    let max_bad = match max {
        Some(NumberToken::Finite(_)) => false,
        Some(_) => true,
        None => false,
    };
    let order_bad = match (min, max) {
        (Some(NumberToken::Finite(a)), Some(NumberToken::Finite(b))) => a.compare(b) >= 0,
        _ => false,
    };
    !min_bad && !max_bad && !order_bad
}

fn digit_of(x: u8) -> (r: char)
    ensures
        r == digit_char(x as nat),
{
    if x == 0 {
        '0'
    } else if x == 1 {
        '1'
    } else if x == 2 {
        '2'
    } else if x == 3 {
        '3'
    } else if x == 4 {
        '4'
    } else if x == 5 {
        '5'
    } else if x == 6 {
        '6'
    } else if x == 7 {
        '7'
    } else if x == 8 {
        '8'
    } else {
        '9'
    }
}

fn push_zeros(m: &mut String, n: i128)
    ensures
        final(m)@ == old(m)@ + zeros(n as int),
{
    let ghost start = m@;
    let mut k: i128 = 0;
    while k < n
        invariant
            0 <= k,
            n > 0 ==> k <= n,
            n <= 0 ==> k == 0,
            m@ == start + zeros(k as int),
        decreases n - k,
    {
        push_char(m, '0');
        assert(zeros(k + 1) =~= zeros(k as int).push('0'));
        k += 1;
    }
    assert(zeros(k as int) =~= zeros(n as int));
}

fn push_digits(m: &mut String, d: &Vec<u8>, lo: usize, hi: usize)
    requires
        lo <= hi <= d@.len(),
    ensures
        final(m)@ == old(m)@ + digit_chars(d@).subrange(lo as int, hi as int),
{
    let ghost start = m@;
    let mut k = lo;
    while k < hi
        invariant
            lo <= k <= hi <= d@.len(),
            m@ == start + digit_chars(d@).subrange(lo as int, k as int),
        decreases hi - k,
    {
        push_char(m, digit_of(d[k]));
        assert(digit_chars(d@).subrange(lo as int, k + 1) =~= digit_chars(d@).subrange(
            lo as int,
            k as int,
        ).push(digit_char(d@[k as int] as nat)));
        k += 1;
    }
}

fn plain_text_exec(d: &Decimal) -> (r: String)
    ensures
        r@ == plain_text(d@),
{
    let mut m = String::new();
    if d.has_minus() {
        m.append("-");
    }
    let ghost sign = m@;
    let digits = d.digits();
    let n = digits.len();
    let e = d.exponent();
    let ghost c = digit_chars(d@.digits);
    assert(c.len() == n);
    if e >= 0 {
        push_digits(&mut m, digits, 0, n);
        push_zeros(&mut m, e);
        assert(c.subrange(0, n as int) =~= c);
    } else if (n as i128) + e > 0 {
        let k = ((n as i128) + e) as usize;
        push_digits(&mut m, digits, 0, k);
        m.append(".");
        push_digits(&mut m, digits, k, n);
    } else {
        m.append("0.");
        push_zeros(&mut m, -((n as i128) + e));
        push_digits(&mut m, digits, 0, n);
        assert(c.subrange(0, n as int) =~= c);
    }
    m
}

fn token_text_exec(t: &NumberToken) -> (r: String)
    ensures
        r@ == token_text(t@),
{
    match t {
        NumberToken::Finite(d) => plain_text_exec(d),
        NumberToken::Infinite(negative) => if *negative {
            "-inf".to_string()
        } else {
            "inf".to_string()
        },
        NumberToken::NotANumber => "NaN".to_string(),
    }
}

fn range_text_exec(a: &NumberToken, b: &NumberToken) -> (r: String)
    ensures
        r@ == range_text(a@, b@),
{
    let mut m = token_text_exec(a);
    m.append("..");
    m.append(token_text_exec(b).as_str());
    m
}

fn arc_error_exec(path: &String, start: &NumberToken, sweep: &NumberToken, thickness: &NumberToken) -> (r:
    Option<ConfigError>)
    ensures
        match r {
            Some(e) => arc_error(path@, start@, sweep@, thickness@) == Some(e@),
            None => arc_error(path@, start@, sweep@, thickness@) is None,
        },
{
    if !arc_ok_exec(start, sweep) {
        Some(widget_bare(path, ConfigErrorKind::InvalidArc))
    } else if !positive_ok_exec(thickness) {
        Some(widget_err(path, ConfigErrorKind::NotPositive, "thickness", String::new()))
    } else {
        None
    }
}

fn negative_decimal(text: &str) -> (r: Decimal)
    ensures
        r@ == negative_of(spec_decimal_of(text@, 0)),
{
    Decimal::from_digit_text(text, 0).negated()
}

// ---------------------------------------------------------------------------
// Building widgets.

fn leaf_exec(raw: &RawWidget, path: &String, files: &FileTable) -> (r: Result<WidgetKind, ConfigError>)
    ensures
        match r {
            Ok(k) => gives(spec_leaf(raw@, path@, files@), k@),
            Err(e) => fails(spec_leaf(raw@, path@, files@), e@),
        },
{
    proof {
        lemma_raw_view(*raw);
    }
    match raw.kind {
        RawWidgetType::Text => match field_binding_exec(path, "text", &raw.text) {
            Err(e) => Err(e),
            Ok(b) => Ok(WidgetKind::text(b)),
        },
        RawWidgetType::Image => match &raw.source {
            None => Err(widget_bare(path, ConfigErrorKind::ImageRequiresSource)),
            Some(src) => {
                let mut field = path.clone();
                field.append(".source");
                match files.resolve(src, field) {
                    Err(e) => Err(e),
                    Ok(p) => Ok(WidgetKind::image(p)),
                }
            },
        },
        RawWidgetType::Progress => progress_exec(raw, path),
        RawWidgetType::CircularProgress => circular_exec(raw, path),
        RawWidgetType::Graph => graph_exec(raw, path),
        RawWidgetType::Gauge => gauge_exec(raw, path),
        _ => Ok(WidgetKind::spacer()),
    }
}

fn range_error(path: &String, kind_name: &str, lo: &NumberToken, hi: &NumberToken) -> (r: ConfigError)
    ensures
        r@ == widget_error(path@, ConfigErrorKind::InvalidRange, kind_name@, range_text(lo@, hi@)),
{
    widget_err(path, ConfigErrorKind::InvalidRange, kind_name, range_text_exec(lo, hi))
}

fn progress_exec(raw: &RawWidget, path: &String) -> (r: Result<WidgetKind, ConfigError>)
    requires
        raw.kind == RawWidgetType::Progress,
    ensures
        match r {
            Ok(k) => gives(spec_leaf(raw@, path@, arbitrary_files()), k@),
            Err(e) => fails(spec_leaf(raw@, path@, arbitrary_files()), e@),
        },
{
    proof {
        lemma_raw_view(*raw);
    }
    let b = match field_binding_exec(path, "value", &raw.value) {
        Err(e) => {
            return Err(e);
        },
        Ok(b) => b,
    };
    let lo = number_or_exec(&raw.min, Decimal::zero());
    let hi = number_or_exec(&raw.max, Decimal::from_digit_text("100", 0));
    if !range_ok_exec(&lo, &hi) {
        return Err(range_error(path, "progress", &lo, &hi));
    }
    let orientation = match raw.orientation {
        Some(o) => o,
        None => ProgressOrientation::Horizontal,
    };
    Ok(WidgetKind::progress(b, token_decimal_exec(&lo), token_decimal_exec(&hi), orientation))
}

/// Some file table, for the widget types that name no file.
pub open spec fn arbitrary_files() -> Seq<(Seq<char>, SpecFileLookup)> {
    seq![]
}

fn circular_exec(raw: &RawWidget, path: &String) -> (r: Result<WidgetKind, ConfigError>)
    requires
        raw.kind == RawWidgetType::CircularProgress,
    ensures
        match r {
            Ok(k) => gives(spec_leaf(raw@, path@, arbitrary_files()), k@),
            Err(e) => fails(spec_leaf(raw@, path@, arbitrary_files()), e@),
        },
{
    proof {
        lemma_raw_view(*raw);
    }
    let b = match field_binding_exec(path, "value", &raw.value) {
        Err(e) => {
            return Err(e);
        },
        Ok(b) => b,
    };
    let lo = number_or_exec(&raw.min, Decimal::zero());
    let hi = number_or_exec(&raw.max, Decimal::from_digit_text("100", 0));
    if !range_ok_exec(&lo, &hi) {
        return Err(range_error(path, "circular-progress", &lo, &hi));
    }
    let start = number_or_exec(&raw.start_angle, negative_decimal("90"));
    let sweep = number_or_exec(&raw.sweep_angle, Decimal::from_digit_text("360", 0));
    let thickness = number_or_exec(&raw.thickness, Decimal::from_digit_text("8", 0));
    match arc_error_exec(path, &start, &sweep, &thickness) {
        Some(e) => Err(e),
        None => Ok(
            WidgetKind::circular_progress(
                b,
                token_decimal_exec(&lo),
                token_decimal_exec(&hi),
                token_decimal_exec(&start),
                token_decimal_exec(&sweep),
                token_decimal_exec(&thickness),
            ),
        ),
    }
}

fn graph_exec(raw: &RawWidget, path: &String) -> (r: Result<WidgetKind, ConfigError>)
    requires
        raw.kind == RawWidgetType::Graph,
    ensures
        match r {
            Ok(k) => gives(spec_leaf(raw@, path@, arbitrary_files()), k@),
            Err(e) => fails(spec_leaf(raw@, path@, arbitrary_files()), e@),
        },
{
    proof {
        lemma_raw_view(*raw);
    }
    if !graph_range_ok_exec(&raw.min, &raw.max) {
        return Err(widget_bare(path, ConfigErrorKind::InvalidGraphRange));
    }
    let line_width = number_or_exec(&raw.line_width, Decimal::from_digit_text("2", 0));
    if !positive_ok_exec(&line_width) {
        return Err(widget_err(path, ConfigErrorKind::NotPositive, "line-width", String::new()));
    }
    let b = match field_binding_exec(path, "value", &raw.value) {
        Err(e) => {
            return Err(e);
        },
        Ok(b) => b,
    };
    let fill = match raw.fill {
        Some(f) => f,
        None => false,
    };
    Ok(
        WidgetKind::graph(
            b,
            finite_or_none_exec(&raw.min),
            finite_or_none_exec(&raw.max),
            token_decimal_exec(&line_width),
            fill,
        ),
    )
}

fn gauge_exec(raw: &RawWidget, path: &String) -> (r: Result<WidgetKind, ConfigError>)
    requires
        raw.kind == RawWidgetType::Gauge,
    ensures
        match r {
            Ok(k) => gives(spec_leaf(raw@, path@, arbitrary_files()), k@),
            Err(e) => fails(spec_leaf(raw@, path@, arbitrary_files()), e@),
        },
{
    proof {
        lemma_raw_view(*raw);
    }
    let b = match field_binding_exec(path, "value", &raw.value) {
        Err(e) => {
            return Err(e);
        },
        Ok(b) => b,
    };
    let lo = number_or_exec(&raw.min, Decimal::zero());
    let hi = number_or_exec(&raw.max, Decimal::from_digit_text("100", 0));
    if !range_ok_exec(&lo, &hi) {
        return Err(range_error(path, "gauge", &lo, &hi));
    }
    let start = number_or_exec(&raw.start_angle, negative_decimal("135"));
    let sweep = number_or_exec(&raw.sweep_angle, Decimal::from_digit_text("270", 0));
    let thickness = number_or_exec(&raw.thickness, Decimal::from_digit_text("8", 0));
    let needle = number_or_exec(&raw.needle_width, Decimal::from_digit_text("3", 0));
    match arc_error_exec(path, &start, &sweep, &thickness) {
        Some(e) => Err(e),
        None => if !positive_ok_exec(&needle) {
            Err(widget_err(path, ConfigErrorKind::NotPositive, "needle-width", String::new()))
        } else {
            Ok(
                WidgetKind::gauge(
                    b,
                    token_decimal_exec(&lo),
                    token_decimal_exec(&hi),
                    token_decimal_exec(&start),
                    token_decimal_exec(&sweep),
                    token_decimal_exec(&thickness),
                    token_decimal_exec(&needle),
                ),
            )
        },
    }
}

pub(crate) fn contains_name(v: &Vec<String>, x: &String) -> (r: bool)
    ensures
        r == strings_view(v@).contains(x@),
{
    let mut k: usize = 0;
    while k < v.len()
        invariant
            k <= v@.len(),
            forall|j: int| 0 <= j < k ==> strings_view(v@)[j] != x@,
        decreases v@.len() - k,
    {
        if v[k] == *x {
            assert(strings_view(v@)[k as int] == x@);
            return true;
        }
        k += 1;
    }
    false
}

fn first_bad_class_exec(c: &Vec<String>) -> (r: Option<usize>)
    ensures
        match r {
            Some(k) => first_bad_class(strings_view(c@), 0) == Some(k as int) && k < c@.len(),
            None => first_bad_class(strings_view(c@), 0) is None,
        },
{
    let ghost cv = strings_view(c@);
    let mut k: usize = 0;
    while k < c.len()
        invariant
            k <= c@.len(),
            cv == strings_view(c@),
            first_bad_class(cv, 0) == first_bad_class(cv, k as int),
        decreases c@.len() - k,
    {
        let chars = crate::text::chars_of(c[k].as_str());
        assert(chars@.subrange(0, chars@.len() as int) =~= chars@);
        if !is_name_exec(&chars, 0, chars.len()) {
            return Some(k);
        }
        k += 1;
    }
    None
}

fn identity_exec(raw: &RawWidget, path: &String, ids: &mut Vec<String>) -> (r: Result<(), ConfigError>)
    ensures
        match r {
            Ok(_) => gives(spec_identity(raw@, path@, strings_view(old(ids)@)), strings_view(final(ids)@)),
            Err(e) => fails(spec_identity(raw@, path@, strings_view(old(ids)@)), e@),
        },
{
    proof {
        lemma_raw_view(*raw);
    }
    match &raw.id {
        Some(id) => {
            let chars = crate::text::chars_of(id.as_str());
            assert(chars@.subrange(0, chars@.len() as int) =~= chars@);
            if !is_name_exec(&chars, 0, chars.len()) {
                return Err(make_error(Some(path.clone()), ConfigErrorKind::InvalidId, id.clone(), String::new()));
            }
            if contains_name(ids, id) {
                return Err(
                    make_error(Some(path.clone()), ConfigErrorKind::DuplicateId, id.clone(), String::new()),
                );
            }
            let ghost before = ids@;
            ids.push(id.clone());
            assert(strings_view(ids@) =~= strings_view(before).push(id@));
        },
        None => {},
    }
    match first_bad_class_exec(&raw.classes) {
        Some(k) => Err(
            make_error(
                Some(path.clone()),
                ConfigErrorKind::InvalidClass,
                raw.classes[k].clone(),
                String::new(),
            ),
        ),
        None => Ok(()),
    }
}

fn find_component_exec(comps: &Vec<(String, RawWidget)>, name: &String) -> (r: Option<usize>)
    ensures
        match r {
            Some(j) => find_component(components_view(comps@), name@, 0) == Some(j as int) && j
                < comps@.len(),
            None => find_component(components_view(comps@), name@, 0) is None,
        },
{
    let ghost cv = components_view(comps@);
    let mut k: usize = 0;
    while k < comps.len()
        invariant
            k <= comps@.len(),
            cv == components_view(comps@),
            find_component(cv, name@, 0) == find_component(cv, name@, k as int),
        decreases comps@.len() - k,
    {
        assert(cv[k as int].0 == comps@[k as int].0@);
        if comps[k].0 == *name {
            return Some(k);
        }
        k += 1;
    }
    None
}

fn join_chain_exec(names: &Vec<String>) -> (r: String)
    ensures
        r@ == join_chain(strings_view(names@)),
{
    let ghost v = strings_view(names@);
    let mut m = String::new();
    let mut k: usize = 0;
    while k < names.len()
        invariant
            k <= names@.len(),
            v == strings_view(names@),
            m@ == join_chain(v.take(k as int)),
        decreases names@.len() - k,
    {
        if k > 0 {
            m.append(" -> ");
        }
        m.append(names[k].as_str());
        assert(v.take(k + 1).drop_last() =~= v.take(k as int));
        k += 1;
    }
    assert(v.take(names@.len() as int) =~= v);
    m
}

fn child_path_exec(path: &String, k: usize) -> (r: String)
    ensures
        r@ == child_path(path@, k as int),
{
    let mut m = path.clone();
    m.append(".children[");
    push_decimal(&mut m, k);
    m.append("]");
    m
}

// ---------------------------------------------------------------------------
// The tree.

/// The measure that every step of building the tree decreases.
pub open spec fn tree_measure(comps: Seq<(String, RawWidget)>, stack: Seq<String>) -> nat {
    unexpanded(components_view(comps), strings_view(stack), comps.len() as int)
}

fn normalize_widget(
    raw: &RawWidget,
    path: String,
    ids: &mut Vec<String>,
    comps: &Vec<(String, RawWidget)>,
    stack: &Vec<String>,
    files: &FileTable,
) -> (r: Result<Widget, ConfigError>)
    ensures
        match r {
            Ok(w) => gives(
                spec_normalize(
                    raw@,
                    path@,
                    strings_view(old(ids)@),
                    components_view(comps@),
                    strings_view(stack@),
                    files@,
                ),
                (w@, strings_view(final(ids)@)),
            ),
            Err(e) => fails(
                spec_normalize(
                    raw@,
                    path@,
                    strings_view(old(ids)@),
                    components_view(comps@),
                    strings_view(stack@),
                    files@,
                ),
                e@,
            ),
        },
    decreases tree_measure(comps@, stack@), raw@, raw@.children.len() + 2,
{
    proof {
        lemma_raw_view(*raw);
    }
    if raw.kind == RawWidgetType::Component {
        return expand_component(raw, path, ids, comps, stack, files);
    }
    match identity_exec(raw, &path, ids) {
        Err(e) => Err(e),
        Ok(_) => build_kind(raw, path, ids, comps, stack, files),
    }
}

fn expand_component(
    raw: &RawWidget,
    path: String,
    ids: &mut Vec<String>,
    comps: &Vec<(String, RawWidget)>,
    stack: &Vec<String>,
    files: &FileTable,
) -> (r: Result<Widget, ConfigError>)
    requires
        raw.kind == RawWidgetType::Component,
    ensures
        match r {
            Ok(w) => gives(
                spec_normalize(
                    raw@,
                    path@,
                    strings_view(old(ids)@),
                    components_view(comps@),
                    strings_view(stack@),
                    files@,
                ),
                (w@, strings_view(final(ids)@)),
            ),
            Err(e) => fails(
                spec_normalize(
                    raw@,
                    path@,
                    strings_view(old(ids)@),
                    components_view(comps@),
                    strings_view(stack@),
                    files@,
                ),
                e@,
            ),
        },
    decreases tree_measure(comps@, stack@), raw@, raw@.children.len() + 1,
{
    proof {
        lemma_raw_view(*raw);
    }
    if raw.children.len() > 0 {
        return Err(widget_bare(&path, ConfigErrorKind::ChildrenNotAllowed));
    }
    match first_refused_exec(raw, RawWidgetType::Component) {
        Some(k) => {
            return Err(refused_error(&path, k));
        },
        None => {},
    }
    let name = match required_exec(&raw.component) {
        None => {
            return Err(widget_err(&path, ConfigErrorKind::MissingField, "component", String::new()));
        },
        Some(n) => n,
    };
    if contains_name(stack, &name) {
        let mut chain = copy_strings(stack);
        chain.push(name.clone());
        assert(strings_view(chain@) =~= strings_view(stack@).push(name@));
        return Err(
            make_error(Some(path), ConfigErrorKind::ComponentCycle, join_chain_exec(&chain), String::new()),
        );
    }
    let j = match find_component_exec(comps, &name) {
        None => {
            return Err(make_error(Some(path), ConfigErrorKind::UnknownComponent, name, String::new()));
        },
        Some(j) => j,
    };
    let ghost cv = components_view(comps@);
    proof {
        lemma_find_component(cv, name@, 0);
        lemma_unexpanded_push(cv, strings_view(stack@), name@, cv.len() as int);
        assert(cv[j as int].1 == comps@[j as int].1@);
    }
    let none: Vec<String> = Vec::new();
    proof {
        assert(strings_view(none@) =~= seq![]);
    }
    let (mut template, found) = match fill_widget_exec(&comps[j].1, &raw.params, none) {
        Err(bad) => {
            return Err(make_error(Some(path), ConfigErrorKind::InvalidPlaceholder, name, bad));
        },
        Ok(x) => x,
    };
    match first_missing_exec(&found, &raw.params) {
        Some(p) => {
            return Err(make_error(Some(path), ConfigErrorKind::MissingParameter, p, name));
        },
        None => {},
    }
    match first_unused_exec(&raw.params, &found) {
        Some(p) => {
            return Err(make_error(Some(path), ConfigErrorKind::UnknownParameter, p, name));
        },
        None => {},
    }
    let ghost filled = template@;
    let ghost t0 = template;
    proof {
        lemma_raw_view(t0);
    }
    template.id = copy_string_option(&raw.id);
    let extra = copy_strings(&raw.classes);
    let mut classes = copy_strings(&template.classes);
    let ghost own = template.classes@;
    let mut k: usize = 0;
    while k < extra.len()
        invariant
            k <= extra@.len(),
            strings_view(classes@) == strings_view(own) + strings_view(extra@).take(k as int),
        decreases extra@.len() - k,
    {
        let ghost before = classes@;
        classes.push(extra[k].clone());
        assert(strings_view(classes@) =~= strings_view(before).push(extra@[k as int]@));
        assert(strings_view(extra@).take(k + 1) =~= strings_view(extra@).take(k as int).push(
            extra@[k as int]@,
        ));
        k += 1;
    }
    assert(strings_view(extra@).take(extra@.len() as int) =~= strings_view(extra@));
    template.classes = classes;
    proof {
        lemma_raw_view(template);
        assert(template@ == instantiate(filled, raw@));
    }
    let mut next = copy_strings(stack);
    next.push(name);
    proof {
        assert(strings_view(next@) =~= strings_view(stack@).push(name@));
    }
    normalize_widget(&template, path, ids, comps, &next, files)
}

fn build_kind(
    raw: &RawWidget,
    path: String,
    ids: &mut Vec<String>,
    comps: &Vec<(String, RawWidget)>,
    stack: &Vec<String>,
    files: &FileTable,
) -> (r: Result<Widget, ConfigError>)
    requires
        raw.kind != RawWidgetType::Component,
    ensures
        match r {
            Ok(w) => gives(
                spec_kind(
                    raw@,
                    path@,
                    strings_view(old(ids)@),
                    components_view(comps@),
                    strings_view(stack@),
                    files@,
                ),
                (w@, strings_view(final(ids)@)),
            ),
            Err(e) => fails(
                spec_kind(
                    raw@,
                    path@,
                    strings_view(old(ids)@),
                    components_view(comps@),
                    strings_view(stack@),
                    files@,
                ),
                e@,
            ),
        },
    decreases tree_measure(comps@, stack@), raw@, raw@.children.len() + 1,
{
    proof {
        lemma_raw_view(*raw);
    }
    let t = raw.kind;
    if t == RawWidgetType::Row || t == RawWidgetType::Column || t == RawWidgetType::Stack {
        match first_refused_exec(raw, t) {
            Some(k) => {
                return Err(refused_error(&path, k));
            },
            None => {},
        }
        let children = match normalize_children(raw, &path, ids, comps, stack, files) {
            Err(e) => {
                return Err(e);
            },
            Ok(c) => c,
        };
        let kind = if t == RawWidgetType::Column {
            WidgetKind::flex(FlexDirection::Column, children)
        } else if t == RawWidgetType::Stack {
            WidgetKind::stack(children)
        } else {
            WidgetKind::flex(FlexDirection::Row, children)
        };
        return Ok(Widget::new(path, copy_string_option(&raw.id), copy_strings(&raw.classes), kind));
    }
    if t == RawWidgetType::Conditional {
        match first_refused_exec(raw, t) {
            Some(k) => {
                return Err(refused_error(&path, k));
            },
            None => {},
        }
        if raw.equals.is_some() && raw.not_equals.is_some() {
            return Err(widget_bare(&path, ConfigErrorKind::BothComparisons));
        }
        let b = match field_binding_exec(&path, "value", &raw.value) {
            Err(e) => {
                return Err(e);
            },
            Ok(b) => b,
        };
        let comparison = match &raw.equals {
            Some(v) => ConditionComparison::Equals(v.clone()),
            None => match &raw.not_equals {
                Some(v) => ConditionComparison::NotEquals(v.clone()),
                None => ConditionComparison::Truthy,
            },
        };
        let children = match normalize_children(raw, &path, ids, comps, stack, files) {
            Err(e) => {
                return Err(e);
            },
            Ok(c) => c,
        };
        let condition = Condition::new(b, comparison);
        let kind = WidgetKind::conditional(condition, children);
        return Ok(Widget::new(path, copy_string_option(&raw.id), copy_strings(&raw.classes), kind));
    }
    if raw.children.len() > 0 {
        return Err(widget_bare(&path, ConfigErrorKind::ChildrenNotAllowed));
    }
    match first_refused_exec(raw, t) {
        Some(k) => {
            return Err(refused_error(&path, k));
        },
        None => {},
    }
    match leaf_exec(raw, &path, files) {
        Err(e) => Err(e),
        Ok(kind) => Ok(Widget::new(path, copy_string_option(&raw.id), copy_strings(&raw.classes), kind)),
    }
}

fn normalize_children(
    parent: &RawWidget,
    path: &String,
    ids: &mut Vec<String>,
    comps: &Vec<(String, RawWidget)>,
    stack: &Vec<String>,
    files: &FileTable,
) -> (r: Result<Vec<Widget>, ConfigError>)
    ensures
        match r {
            Ok(v) => gives(
                spec_children_from(
                    parent@,
                    0,
                    path@,
                    strings_view(old(ids)@),
                    components_view(comps@),
                    strings_view(stack@),
                    files@,
                    seq![],
                ),
                (widgets_view(v@), strings_view(final(ids)@)),
            ),
            Err(e) => fails(
                spec_children_from(
                    parent@,
                    0,
                    path@,
                    strings_view(old(ids)@),
                    components_view(comps@),
                    strings_view(stack@),
                    files@,
                    seq![],
                ),
                e@,
            ),
        },
    decreases tree_measure(comps@, stack@), parent@, parent@.children.len(),
{
    proof {
        lemma_raw_view(*parent);
    }
    let ghost start = spec_children_from(
        parent@,
        0,
        path@,
        strings_view(ids@),
        components_view(comps@),
        strings_view(stack@),
        files@,
        seq![],
    );
    let mut out: Vec<Widget> = Vec::new();
    let mut k: usize = 0;
    assert(widgets_view(out@) =~= seq![]);
    while k < parent.children.len()
        invariant
            k <= parent.children@.len(),
            parent@.children == raws_view(parent.children@),
            start == spec_children_from(
                parent@,
                0,
                path@,
                strings_view(old(ids)@),
                components_view(comps@),
                strings_view(stack@),
                files@,
                seq![],
            ),
            start == spec_children_from(
                parent@,
                k as int,
                path@,
                strings_view(ids@),
                components_view(comps@),
                strings_view(stack@),
                files@,
                widgets_view(out@),
            ),
        decreases parent.children@.len() - k,
    {
        let child = &parent.children[k];
        proof {
            assert(child@ == parent@.children[k as int]);
            assert(decreases_to!(parent@ => parent@.children));
            assert(decreases_to!(parent@.children => parent@.children[k as int]));
        }
        let cp = child_path_exec(path, k);
        let ghost ids_before = ids@;
        match normalize_widget(child, cp, ids, comps, stack, files) {
            Err(e) => {
                assert(start == spec_children_from(
                    parent@,
                    k as int,
                    path@,
                    strings_view(ids_before),
                    components_view(comps@),
                    strings_view(stack@),
                    files@,
                    widgets_view(out@),
                ));
                return Err(e);
            },
            Ok(w) => {
                let ghost before = out@;
                out.push(w);
                assert(widgets_view(out@) =~= widgets_view(before).push(out@.last()@));
            },
        }
        k += 1;
    }
    Ok(out)
}

// ---------------------------------------------------------------------------
// The whole configuration.

pub struct SpecRawDashboard {
    pub dashboard: SpecRawDashboardOptions,
    pub components: Seq<(Seq<char>, SpecRawWidget)>,
    pub root: SpecRawWidget,
}

impl View for RawDashboard {
    type V = SpecRawDashboard;

    open spec fn view(&self) -> SpecRawDashboard {
        SpecRawDashboard {
            dashboard: self.dashboard@,
            components: components_view(self.components@),
            root: self.root@,
        }
    }
}

/// Whether the widget or anything below it has an id.
pub open spec fn contains_id(w: SpecRawWidget) -> bool
    decreases w, 1int, 0int,
{
    w.id is Some || any_contains_id(w, 0)
}

/// Whether a child of `w` from index `k` on, or anything below it, has an id.
pub open spec fn any_contains_id(w: SpecRawWidget, k: int) -> bool
    decreases w, 0int, w.children.len() - k,
{
    if k < 0 || k >= w.children.len() {
        false
    } else {
        proof {
            assert(decreases_to!(w => w.children));
            assert(decreases_to!(w.children => w.children[k]));
        }
        contains_id(w.children[k]) || any_contains_id(w, k + 1)
    }
}

/// The first problem with the component templates from `k` on: a name that
/// is not valid, or a template that defines an id.
pub open spec fn check_components(comps: Seq<(Seq<char>, SpecRawWidget)>, k: int) -> Option<
    SpecConfigError,
>
    decreases comps.len() - k,
{
    if k < 0 || k >= comps.len() {
        None
    } else if !is_name(comps[k].0) {
        Some(dashboard_error(ConfigErrorKind::InvalidComponentName, comps[k].0, seq![]))
    } else if contains_id(comps[k].1) {
        Some(dashboard_error(ConfigErrorKind::ComponentWithId, comps[k].0, seq![]))
    } else {
        check_components(comps, k + 1)
    }
}

/// The widget tree of a configuration: the templates checked, then the
/// root built at `root` with no id taken yet.
pub open spec fn spec_normalize_root(
    d: SpecRawDashboard,
    files: Seq<(Seq<char>, SpecFileLookup)>,
) -> Result<SpecWidget, SpecConfigError> {
    match check_components(d.components, 0) {
        Some(e) => Err(e),
        None => match spec_normalize(d.root, "root"@, seq![], d.components, seq![], files) {
            Ok(r) => Ok(r.0),
            Err(e) => Err(e),
        },
    }
}

impl RawWidget {
    /// Whether the widget or anything below it has an id.
    pub fn contains_id(&self) -> (r: bool)
        ensures
            r == contains_id(self@),
        decreases self@,
    {
        proof {
            lemma_raw_view(*self);
        }
        if self.id.is_some() {
            return true;
        }
        let mut k: usize = 0;
        while k < self.children.len()
            invariant
                k <= self.children@.len(),
                self@.children == raws_view(self.children@),
                self.id is None,
                contains_id(self@) == any_contains_id(self@, k as int),
            decreases self.children@.len() - k,
        {
            proof {
                assert(self.children@[k as int]@ == self@.children[k as int]);
                assert(decreases_to!(self@ => self@.children));
                assert(decreases_to!(self@.children => self@.children[k as int]));
            }
            if self.children[k].contains_id() {
                return true;
            }
            k += 1;
        }
        false
    }
}

impl RawDashboard {
    /// Checks the options and finds the files they name.
    pub fn normalize_options(&self, files: &FileTable) -> (r: Result<DashboardOptions, ConfigError>)
        ensures
            match r {
                Ok(o) => gives(spec_normalize_options(self@.dashboard, files@), o@),
                Err(e) => fails(spec_normalize_options(self@.dashboard, files@), e@),
            },
    {
        self.dashboard.normalize(files)
    }

    /// Checks the component templates, then builds the widget tree from the root.
    pub fn normalize_root(&self, files: &FileTable) -> (r: Result<Widget, ConfigError>)
        ensures
            match r {
                Ok(w) => gives(spec_normalize_root(self@, files@), w@),
                Err(e) => fails(spec_normalize_root(self@, files@), e@),
            },
    {
        let ghost cv = components_view(self.components@);
        let mut k: usize = 0;
        while k < self.components.len()
            invariant
                k <= self.components@.len(),
                cv == components_view(self.components@),
                check_components(cv, 0) == check_components(cv, k as int),
            decreases self.components@.len() - k,
        {
            let (name, template) = (&self.components[k].0, &self.components[k].1);
            assert(cv[k as int] == (name@, template@));
            let chars = crate::text::chars_of(name.as_str());
            assert(chars@.subrange(0, chars@.len() as int) =~= chars@);
            if !is_name_exec(&chars, 0, chars.len()) {
                return Err(
                    make_error(None, ConfigErrorKind::InvalidComponentName, name.clone(), String::new()),
                );
            }
            if template.contains_id() {
                return Err(
                    make_error(None, ConfigErrorKind::ComponentWithId, name.clone(), String::new()),
                );
            }
            k += 1;
        }
        let mut ids: Vec<String> = Vec::new();
        let stack: Vec<String> = Vec::new();
        assert(strings_view(ids@) =~= seq![]);
        assert(strings_view(stack@) =~= seq![]);
        normalize_widget(&self.root, "root".to_string(), &mut ids, &self.components, &stack, files)
    }
}

/// The image files of a widget tree, in tree order.
pub open spec fn image_sources(w: SpecWidget) -> Seq<Seq<char>>
    decreases w, 1int, 0int,
{
    let own = match w.kind {
        SpecWidgetKind::Image { source } => seq![source],
        _ => seq![],
    };
    own + children_image_sources(w, 0)
}

/// The image files below the children of `w` from index `k` on.
pub open spec fn children_image_sources(w: SpecWidget, k: int) -> Seq<Seq<char>>
    decreases w, 0int, crate::widget::spec_children(w.kind).len() - k,
{
    let c = crate::widget::spec_children(w.kind);
    if k < 0 || k >= c.len() {
        seq![]
    } else {
        proof {
            crate::widget::lemma_child_decreases(w, k);
        }
        image_sources(c[k]) + children_image_sources(w, k + 1)
    }
}

/// Appends the image files of the tree at `widget`, in tree order.
pub fn collect_image_paths(widget: &Widget, paths: &mut Vec<String>)
    ensures
        strings_view(final(paths)@) == strings_view(old(paths)@) + image_sources(widget@),
    decreases widget@,
{
    let ghost start = strings_view(paths@);
    match widget.image_source() {
        Some(s) => {
            let ghost before = paths@;
            paths.push(s.clone());
            assert(strings_view(paths@) =~= strings_view(before).push(s@));
        },
        None => {},
    }
    let ghost own = match widget@.kind {
        SpecWidgetKind::Image { source } => seq![source],
        _ => Seq::<Seq<char>>::empty(),
    };
    assert(strings_view(paths@) =~= start + own);
    let children = widget.children();
    let mut k: usize = 0;
    while k < children.len()
        invariant
            k <= children@.len(),
            widgets_view(children@) == crate::widget::spec_children(widget@.kind),
            image_sources(widget@) == own + children_image_sources(widget@, 0),
            own + children_image_sources(widget@, 0) == own + image_list_before(widget@, k as int)
                + children_image_sources(widget@, k as int),
            strings_view(paths@) == start + own + image_list_before(widget@, k as int),
        decreases children@.len() - k,
    {
        proof {
            crate::widget::lemma_child_decreases(widget@, k as int);
            assert(children@[k as int]@ == crate::widget::spec_children(widget@.kind)[k as int]);
        }
        collect_image_paths(&children[k], paths);
        proof {
            assert(image_list_before(widget@, k + 1) == image_list_before(widget@, k as int)
                + image_sources(children@[k as int]@));
        }
        k += 1;
    }
}

/// The image files below the first `k` children of `w`.
pub open spec fn image_list_before(w: SpecWidget, k: int) -> Seq<Seq<char>>
    decreases k,
{
    if k <= 0 {
        seq![]
    } else {
        image_list_before(w, k - 1) + image_sources(crate::widget::spec_children(w.kind)[k - 1])
    }
}

// ---------------------------------------------------------------------------
// A checked dashboard.

/// A checked dashboard: the configuration file it came from, its options,
/// its stylesheet and its widget tree.
#[derive(Debug)]
pub struct Dashboard {
    source: String,
    options: DashboardOptions,
    stylesheet: StyleSheet,
    root: Widget,
}

pub struct SpecDashboard {
    pub source: Seq<char>,
    pub options: SpecDashboardOptions,
    pub stylesheet: SpecStyleSheet,
    pub root: SpecWidget,
}

impl View for Dashboard {
    type V = SpecDashboard;

    closed spec fn view(&self) -> SpecDashboard {
        SpecDashboard {
            source: self.source@,
            options: self.options@,
            stylesheet: self.stylesheet@,
            root: self.root@,
        }
    }
}

impl Dashboard {
    pub fn new(source: String, options: DashboardOptions, stylesheet: StyleSheet, root: Widget) -> (r:
        Dashboard)
        ensures
            r@ == (SpecDashboard {
                source: source@,
                options: options@,
                stylesheet: stylesheet@,
                root: root@,
            }),
    {
        Dashboard { source, options, stylesheet, root }
    }

    /// The configuration file's canonical path.
    pub fn source(&self) -> (r: &String)
        ensures
            r@ == self@.source,
    {
        &self.source
    }

    pub fn options(&self) -> (r: &DashboardOptions)
        ensures
            r@ == self@.options,
    {
        &self.options
    }

    pub fn stylesheet(&self) -> (r: &StyleSheet)
        ensures
            r@ == self@.stylesheet,
    {
        &self.stylesheet
    }

    pub fn root(&self) -> (r: &Widget)
        ensures
            r@ == self@.root,
    {
        &self.root
    }

    /// The files the dashboard uses: the configuration, the stylesheet, the
    /// fonts, and the image files in tree order (not sorted, repeats kept).
    pub fn asset_list(&self) -> (r: Vec<String>)
        ensures
            strings_view(r@) == seq![self@.source, self@.options.stylesheet] + self@.options.fonts
                + image_sources(self@.root),
    {
        let mut paths: Vec<String> = Vec::new();
        paths.push(self.source.clone());
        paths.push(self.options.stylesheet().clone());
        let fonts = self.options.fonts();
        let mut k: usize = 0;
        assert(strings_view(paths@) =~= seq![self.source@, self.options@.stylesheet] + strings_view(
            fonts@,
        ).take(0));
        while k < fonts.len()
            invariant
                k <= fonts@.len(),
                strings_view(paths@) == seq![self.source@, self.options@.stylesheet] + strings_view(
                    fonts@,
                ).take(k as int),
            decreases fonts@.len() - k,
        {
            let ghost before = paths@;
            paths.push(fonts[k].clone());
            assert(strings_view(paths@) =~= strings_view(before).push(fonts@[k as int]@));
            assert(strings_view(fonts@).take(k + 1) =~= strings_view(fonts@).take(k as int).push(
                fonts@[k as int]@,
            ));
            k += 1;
        }
        assert(strings_view(fonts@).take(fonts@.len() as int) =~= strings_view(fonts@));
        collect_image_paths(&self.root, &mut paths);
        paths
    }

    /// The files the dashboard uses, sorted in path order and each once.
    pub fn asset_paths(&self) -> (r: Vec<String>)
        ensures
            strictly_sorted(strings_view(r@)),
            strings_view(r@).to_set() == (seq![self@.source, self@.options.stylesheet]
                + self@.options.fonts + image_sources(self@.root)).to_set(),
    {
        sorted_paths(self.asset_list())
    }
}

// ---------------------------------------------------------------------------
// Laws of the configuration.

/// The widget's own id, as a list of zero or one.
pub open spec fn own_id(w: SpecWidget) -> Seq<Seq<char>> {
    match w.id {
        Some(i) => seq![i],
        None => seq![],
    }
}

/// The ids in a widget tree, in tree order.
pub open spec fn tree_ids(w: SpecWidget) -> Seq<Seq<char>>
    decreases w, 1int, 0int,
{
    own_id(w) + children_ids(w, 0)
}

/// The ids below the children of `w` from index `k` on, in tree order.
pub open spec fn children_ids(w: SpecWidget, k: int) -> Seq<Seq<char>>
    decreases w, 0int, crate::widget::spec_children(w.kind).len() - k,
{
    let c = crate::widget::spec_children(w.kind);
    if k < 0 || k >= c.len() {
        seq![]
    } else {
        proof {
            crate::widget::lemma_child_decreases(w, k);
        }
        tree_ids(c[k]) + children_ids(w, k + 1)
    }
}

/// The ids in a list of widget trees, in order.
pub open spec fn list_ids(ws: Seq<SpecWidget>) -> Seq<Seq<char>>
    decreases ws.len(),
{
    if ws.len() == 0 {
        seq![]
    } else {
        tree_ids(ws[0]) + list_ids(ws.drop_first())
    }
}

proof fn lemma_children_ids_list(w: SpecWidget, k: int)
    requires
        0 <= k <= crate::widget::spec_children(w.kind).len(),
    ensures
        children_ids(w, k) == list_ids(
            crate::widget::spec_children(w.kind).subrange(
                k,
                crate::widget::spec_children(w.kind).len() as int,
            ),
        ),
    decreases crate::widget::spec_children(w.kind).len() - k,
{
    let c = crate::widget::spec_children(w.kind);
    if k < c.len() {
        lemma_children_ids_list(w, k + 1);
        assert(c.subrange(k, c.len() as int).drop_first() =~= c.subrange(k + 1, c.len() as int));
    } else {
        assert(c.subrange(k, c.len() as int) =~= Seq::<SpecWidget>::empty());
    }
}

proof fn lemma_push_no_duplicates(ids: Seq<Seq<char>>, x: Seq<char>)
    requires
        ids.no_duplicates(),
        !ids.contains(x),
    ensures
        ids.push(x).no_duplicates(),
{
    assert forall|i: int, j: int| 0 <= i < ids.push(x).len() && 0 <= j < ids.push(x).len() && i
        != j implies ids.push(x)[i] != ids.push(x)[j] by {
        if i == ids.len() as int {
            assert(ids[j] == ids.push(x)[j]);
        } else if j == ids.len() as int {
            assert(ids[i] == ids.push(x)[i]);
        }
    }
}

proof fn lemma_identity_ids(raw: SpecRawWidget, path: Seq<char>, ids: Seq<Seq<char>>)
    requires
        spec_identity(raw, path, ids) is Ok,
    ensures
        spec_identity(raw, path, ids)->Ok_0 == ids + (match raw.id {
            Some(i) => seq![i],
            None => Seq::<Seq<char>>::empty(),
        }),
        ids.no_duplicates() ==> spec_identity(raw, path, ids)->Ok_0.no_duplicates(),
{
    match raw.id {
        Some(i) => {
            assert(ids.push(i) =~= ids + seq![i]);
            if ids.no_duplicates() {
                lemma_push_no_duplicates(ids, i);
            }
        },
        None => {
            assert(ids =~= ids + Seq::<Seq<char>>::empty());
        },
    }
}

/// Building a widget takes exactly the ids of the tree it builds, after
/// those already taken, and takes none twice.
pub proof fn lemma_normalize_ids(
    raw: SpecRawWidget,
    path: Seq<char>,
    ids: Seq<Seq<char>>,
    comps: Seq<(Seq<char>, SpecRawWidget)>,
    stack: Seq<Seq<char>>,
    files: Seq<(Seq<char>, SpecFileLookup)>,
)
    requires
        spec_normalize(raw, path, ids, comps, stack, files) is Ok,
    ensures
        ({
            let r = spec_normalize(raw, path, ids, comps, stack, files)->Ok_0;
            &&& r.1 == ids + tree_ids(r.0)
            &&& ids.no_duplicates() ==> r.1.no_duplicates()
            &&& r.0.source_path == path
        }),
    decreases unexpanded(comps, stack, comps.len() as int), raw, raw.children.len() + 2,
{
    if raw.kind == RawWidgetType::Component {
        let name = required(raw.component)->0;
        let j = find_component(comps, name, 0)->0;
        lemma_find_component(comps, name, 0);
        lemma_unexpanded_push(comps, stack, name, comps.len() as int);
        let t = spec_fill_template(comps[j].1, raw, name, path)->Ok_0;
        lemma_normalize_ids(t, path, ids, comps, stack.push(name), files);
    } else {
        lemma_identity_ids(raw, path, ids);
        let ids2 = spec_identity(raw, path, ids)->Ok_0;
        lemma_kind_ids(raw, path, ids2, comps, stack, files);
        let r = spec_normalize(raw, path, ids, comps, stack, files)->Ok_0;
        assert(r == spec_kind(raw, path, ids2, comps, stack, files)->Ok_0);
        assert(own_id(r.0) == (match raw.id {
            Some(i) => seq![i],
            None => Seq::<Seq<char>>::empty(),
        }));
        lemma_children_ids_list(r.0, 0);
        let c = crate::widget::spec_children(r.0.kind);
        assert(c.subrange(0, c.len() as int) =~= c);
        assert(r.1 =~= ids + tree_ids(r.0));
    }
}

pub proof fn lemma_kind_ids(
    raw: SpecRawWidget,
    path: Seq<char>,
    ids: Seq<Seq<char>>,
    comps: Seq<(Seq<char>, SpecRawWidget)>,
    stack: Seq<Seq<char>>,
    files: Seq<(Seq<char>, SpecFileLookup)>,
)
    requires
        spec_kind(raw, path, ids, comps, stack, files) is Ok,
    ensures
        ({
            let r = spec_kind(raw, path, ids, comps, stack, files)->Ok_0;
            &&& r.1 == ids + list_ids(crate::widget::spec_children(r.0.kind))
            &&& ids.no_duplicates() ==> r.1.no_duplicates()
            &&& r.0.id == raw.id
            &&& r.0.source_path == path
        }),
    decreases unexpanded(comps, stack, comps.len() as int), raw, raw.children.len() + 1,
{
    let t = raw.kind;
    let r = spec_kind(raw, path, ids, comps, stack, files)->Ok_0;
    if t == RawWidgetType::Row || t == RawWidgetType::Column || t == RawWidgetType::Stack || t
        == RawWidgetType::Conditional {
        lemma_children_ids(raw, 0, path, ids, comps, stack, files, seq![]);
        let c = spec_children_from(raw, 0, path, ids, comps, stack, files, seq![])->Ok_0;
        assert(c.0.subrange(0, c.0.len() as int) =~= c.0);
        assert(crate::widget::spec_children(r.0.kind) == c.0);
    } else {
        assert(crate::widget::spec_children(r.0.kind) =~= Seq::<SpecWidget>::empty());
        assert(ids + list_ids(Seq::<SpecWidget>::empty()) =~= ids);
    }
}

pub proof fn lemma_children_ids(
    parent: SpecRawWidget,
    k: int,
    path: Seq<char>,
    ids: Seq<Seq<char>>,
    comps: Seq<(Seq<char>, SpecRawWidget)>,
    stack: Seq<Seq<char>>,
    files: Seq<(Seq<char>, SpecFileLookup)>,
    acc: Seq<SpecWidget>,
)
    requires
        spec_children_from(parent, k, path, ids, comps, stack, files, acc) is Ok,
    ensures
        ({
            let r = spec_children_from(parent, k, path, ids, comps, stack, files, acc)->Ok_0;
            &&& acc.len() <= r.0.len()
            &&& r.0.subrange(0, acc.len() as int) == acc
            &&& r.1 == ids + list_ids(r.0.subrange(acc.len() as int, r.0.len() as int))
            &&& ids.no_duplicates() ==> r.1.no_duplicates()
        }),
    decreases unexpanded(comps, stack, comps.len() as int), parent, parent.children.len() - k,
{
    let r = spec_children_from(parent, k, path, ids, comps, stack, files, acc)->Ok_0;
    if k < 0 || k >= parent.children.len() {
        assert(r.0.subrange(acc.len() as int, r.0.len() as int) =~= Seq::<SpecWidget>::empty());
        assert(r.0.subrange(0, acc.len() as int) =~= acc);
        assert(ids + list_ids(Seq::<SpecWidget>::empty()) =~= ids);
    } else {
        assert(decreases_to!(parent => parent.children));
        assert(decreases_to!(parent.children => parent.children[k]));
        lemma_normalize_ids(parent.children[k], child_path(path, k), ids, comps, stack, files);
        let c = spec_normalize(parent.children[k], child_path(path, k), ids, comps, stack, files)->Ok_0;
        lemma_children_ids(parent, k + 1, path, c.1, comps, stack, files, acc.push(c.0));
        let a = acc.len() as int;
        assert(r.0.subrange(0, a + 1) == acc.push(c.0));
        assert(r.0.subrange(0, a) =~= acc) by {
            assert(r.0.subrange(0, a) =~= r.0.subrange(0, a + 1).subrange(0, a));
        }
        assert(r.0[a] == c.0) by {
            assert(r.0.subrange(0, a + 1)[a] == r.0[a]);
        }
        let rest = r.0.subrange(a, r.0.len() as int);
        assert(rest[0] == c.0);
        assert(rest.drop_first() =~= r.0.subrange(a + 1, r.0.len() as int));
        assert(r.1 =~= ids + list_ids(rest));
    }
}

/// What a component use becomes: its component's template with the
/// placeholders filled from the use's parameters (an error where one is
/// refused, missing or unused), built at the use's place with the use's id
/// and, after the template's own classes, the use's classes. Where the
/// template is not itself a component use, the widget built carries exactly
/// that identity. The stack of components being expanded is only read.
pub proof fn law_component_use_takes_its_identity(
    used: SpecRawWidget,
    path: Seq<char>,
    ids: Seq<Seq<char>>,
    comps: Seq<(Seq<char>, SpecRawWidget)>,
    stack: Seq<Seq<char>>,
    files: Seq<(Seq<char>, SpecFileLookup)>,
    name: Seq<char>,
    j: int,
)
    requires
        used.kind == RawWidgetType::Component,
        used.children.len() == 0,
        first_refused(used, RawWidgetType::Component, 0) is None,
        required(used.component) == Some(name),
        !stack.contains(name),
        find_component(comps, name, 0) == Some(j),
    ensures
        spec_normalize(used, path, ids, comps, stack, files) == match spec_fill_template(
            comps[j].1,
            used,
            name,
            path,
        ) {
            Err(e) => Err(e),
            Ok(t) => spec_normalize(t, path, ids, comps, stack.push(name), files),
        },
        spec_fill_template(comps[j].1, used, name, path) matches Ok(t) ==> (fill_widget(
            comps[j].1,
            used.params,
            seq![],
        ) matches Ok(f) && t == instantiate(f.0, used) && t.kind == comps[j].1.kind),
        comps[j].1.kind != RawWidgetType::Component ==> (spec_normalize(
            used,
            path,
            ids,
            comps,
            stack,
            files,
        ) matches Ok(r) ==> (r.0.id == used.id && r.0.source_path == path && (fill_widget(
            comps[j].1,
            used.params,
            seq![],
        ) matches Ok(f) && r.0.classes == f.0.classes + used.classes))),
{
    lemma_find_component(comps, name, 0);
    if let Ok(t) = spec_fill_template(comps[j].1, used, name, path) {
        let f = fill_widget(comps[j].1, used.params, seq![])->Ok_0;
        assert(f.0.kind == comps[j].1.kind);
        if t.kind != RawWidgetType::Component {
            lemma_built_widget_identity(t, path, ids, comps, stack.push(name), files);
        }
    }
}

/// A widget that is not a component use is built with its own id and
/// classes at its own place.
proof fn lemma_built_widget_identity(
    raw: SpecRawWidget,
    path: Seq<char>,
    ids: Seq<Seq<char>>,
    comps: Seq<(Seq<char>, SpecRawWidget)>,
    stack: Seq<Seq<char>>,
    files: Seq<(Seq<char>, SpecFileLookup)>,
)
    requires
        raw.kind != RawWidgetType::Component,
    ensures
        spec_normalize(raw, path, ids, comps, stack, files) matches Ok(r) ==> r.0.id == raw.id
            && r.0.classes == raw.classes && r.0.source_path == path,
{
    match spec_identity(raw, path, ids) {
        Err(_) => {},
        Ok(ids2) => {
            assert(spec_kind(raw, path, ids2, comps, stack, files) matches Ok(r) ==> r.0.id
                == raw.id && r.0.classes == raw.classes && r.0.source_path == path);
        },
    }
}

/// Only rows, columns, stacks and conditionals hold children: any other
/// widget with children is refused with "this widget cannot contain
/// children" at its path (an error carries no ids, so none are taken).
pub proof fn law_leaf_widgets_take_no_children(
    raw: SpecRawWidget,
    path: Seq<char>,
    ids: Seq<Seq<char>>,
    comps: Seq<(Seq<char>, SpecRawWidget)>,
    stack: Seq<Seq<char>>,
    files: Seq<(Seq<char>, SpecFileLookup)>,
)
    requires
        raw.kind != RawWidgetType::Row,
        raw.kind != RawWidgetType::Column,
        raw.kind != RawWidgetType::Stack,
        raw.kind != RawWidgetType::Conditional,
        raw.children.len() > 0,
        raw.id is None,
        first_bad_class(raw.classes, 0) is None,
    ensures
        spec_normalize(raw, path, ids, comps, stack, files) == Err::<
            (SpecWidget, Seq<Seq<char>>),
            SpecConfigError,
        >(widget_error(path, ConfigErrorKind::ChildrenNotAllowed, seq![], seq![])),
{
    if raw.kind != RawWidgetType::Component {
        assert(spec_identity(raw, path, ids) == Ok::<Seq<Seq<char>>, SpecConfigError>(ids));
        assert(spec_kind(raw, path, ids, comps, stack, files) == Err::<
            (SpecWidget, Seq<Seq<char>>),
            SpecConfigError,
        >(widget_error(path, ConfigErrorKind::ChildrenNotAllowed, seq![], seq![])));
    }
}

/// A progress bar with only its value written: a value that is missing or
/// blank is refused as "widget requires non-empty value"; one that parses
/// gives a horizontal bar over the range 0 to 100.
pub proof fn law_progress_defaults(
    raw: SpecRawWidget,
    path: Seq<char>,
    ids: Seq<Seq<char>>,
    comps: Seq<(Seq<char>, SpecRawWidget)>,
    stack: Seq<Seq<char>>,
    files: Seq<(Seq<char>, SpecFileLookup)>,
)
    requires
        raw.kind == RawWidgetType::Progress,
        raw.children.len() == 0,
        raw.id is None,
        first_bad_class(raw.classes, 0) is None,
        raw.min is None,
        raw.max is None,
        raw.orientation is None,
        first_refused(raw, RawWidgetType::Progress, 0) is None,
    ensures
        required(raw.value) is None ==> spec_normalize(raw, path, ids, comps, stack, files) == Err::<
            (SpecWidget, Seq<Seq<char>>),
            SpecConfigError,
        >(widget_error(path, ConfigErrorKind::MissingField, "value"@, seq![])),
        required(raw.value) matches Some(t) ==> (spec_parse_binding(t) matches Ok(b)
            ==> spec_normalize(raw, path, ids, comps, stack, files) == Ok::<
            (SpecWidget, Seq<Seq<char>>),
            SpecConfigError,
        >(
            (
                widget_of(
                    raw,
                    path,
                    SpecWidgetKind::Progress {
                        value: b,
                        min: spec_zero(),
                        max: spec_decimal_of("100"@, 0),
                        orientation: ProgressOrientation::Horizontal,
                    },
                ),
                ids,
            ),
        )),
{
    assert(spec_identity(raw, path, ids) == Ok::<Seq<Seq<char>>, SpecConfigError>(ids));
    reveal_strlit("100");
    let hundred = spec_decimal_of("100"@, 0);
    assert(hundred.digits =~= seq![1u8, 0u8, 0u8]);
    assert(compare(spec_zero(), hundred) < 0);
    assert(range_ok(default_min(raw), default_max(raw)));
    assert(spec_normalize(raw, path, ids, comps, stack, files) == spec_kind(raw, path, ids, comps, stack, files));
}

proof fn lemma_resolve_fonts(
    files: Seq<(Seq<char>, SpecFileLookup)>,
    fonts: Seq<Seq<char>>,
    k: int,
    acc: Seq<Seq<char>>,
)
    requires
        0 <= k <= fonts.len(),
    ensures
        resolve_fonts(files, fonts, k, acc) matches Ok(r) ==> {
            &&& r.len() == acc.len() + fonts.len() - k
            &&& forall|i: int| 0 <= i < acc.len() ==> r[i] == acc[i]
            &&& forall|i: int|
                k <= i < fonts.len() ==> lookup_file(files, #[trigger] fonts[i], files.len() as int)
                    == Some(SpecFileLookup::Found(r[acc.len() + i - k]))
        },
    decreases fonts.len() - k,
{
    if k < fonts.len() {
        if let Ok(p) = spec_resolve(files, fonts[k], font_field(k)) {
            lemma_resolve_fonts(files, fonts, k + 1, acc.push(p));
            if let Ok(r) = resolve_fonts(files, fonts, k, acc) {
                assert(r[acc.len() as int] == acc.push(p)[acc.len() as int]);
                assert forall|i: int| 0 <= i < acc.len() implies r[i] == acc[i] by {
                    assert(r[i] == acc.push(p)[i]);
                }
            }
        }
    }
}

/// Every configured font is kept, in order and as often as it is written:
/// the checked options list, for each configured font, the file that its
/// lookup found.
pub proof fn law_fonts_keep_order_and_count(
    o: SpecRawDashboardOptions,
    files: Seq<(Seq<char>, SpecFileLookup)>,
)
    ensures
        spec_normalize_options(o, files) matches Ok(n) ==> {
            &&& n.fonts.len() == o.fonts.len()
            &&& forall|i: int|
                0 <= i < o.fonts.len() ==> lookup_file(files, #[trigger] o.fonts[i], files.len() as int)
                    == Some(SpecFileLookup::Found(n.fonts[i]))
        },
{
    lemma_resolve_fonts(files, o.fonts, 0, seq![]);
}

/// A conditional compares as configured: with `equals = v` it is shown when
/// the value is `v`, with `not-equals = v` when it is not, and with neither
/// when the value is truthy.
pub proof fn law_conditional_comparison_follows_the_configuration(
    raw: SpecRawWidget,
    path: Seq<char>,
    ids: Seq<Seq<char>>,
    comps: Seq<(Seq<char>, SpecRawWidget)>,
    stack: Seq<Seq<char>>,
    files: Seq<(Seq<char>, SpecFileLookup)>,
)
    requires
        raw.kind == RawWidgetType::Conditional,
    ensures
        spec_normalize(raw, path, ids, comps, stack, files) matches Ok(r) ==> (
        r.0.kind matches SpecWidgetKind::Conditional { condition, .. } && match (
            raw.equals,
            raw.not_equals,
        ) {
            (Some(v), None) => condition.comparison == SpecComparison::Equals(v),
            (None, Some(v)) => condition.comparison == SpecComparison::NotEquals(v),
            (None, None) => condition.comparison == SpecComparison::Truthy,
            (Some(_), Some(_)) => false,
        }),
{
    match spec_identity(raw, path, ids) {
        Err(_) => {},
        Ok(ids2) => {
            assert(spec_normalize(raw, path, ids, comps, stack, files) == spec_kind(
                raw,
                path,
                ids2,
                comps,
                stack,
                files,
            ));
        },
    }
}

/// No two widgets of a dashboard share an id: building the tree rejects a
/// second use of an id.
pub proof fn law_widget_ids_are_unique(d: SpecRawDashboard, files: Seq<(Seq<char>, SpecFileLookup)>)
    requires
        spec_normalize_root(d, files) is Ok,
    ensures
        tree_ids(spec_normalize_root(d, files)->Ok_0).no_duplicates(),
        spec_normalize_root(d, files)->Ok_0.source_path == "root"@,
{
    let empty = Seq::<Seq<char>>::empty();
    assert(empty.no_duplicates());
    lemma_normalize_ids(d.root, "root"@, empty, d.components, empty, files);
    let r = spec_normalize(d.root, "root"@, empty, d.components, empty, files)->Ok_0;
    assert(empty + tree_ids(r.0) =~= tree_ids(r.0));
}

/// Checked options have a size above zero and, where given, a background
/// color of the form `#RRGGBB` or `#RRGGBBAA`.
pub proof fn law_options_are_valid(o: SpecRawDashboardOptions, files: Seq<(Seq<char>, SpecFileLookup)>)
    requires
        spec_normalize_options(o, files) is Ok,
    ensures
        spec_normalize_options(o, files)->Ok_0.width > 0,
        spec_normalize_options(o, files)->Ok_0.height > 0,
        spec_normalize_options(o, files)->Ok_0.background matches Some(b) ==> is_hex_color(b),
{
}

/// The values of a built widget kind are within their bounds.
pub open spec fn built_values_valid(kind: SpecWidgetKind) -> bool {
    match kind {
        SpecWidgetKind::Progress { min: lo, max: hi, .. } => compare(lo, hi) < 0,
        SpecWidgetKind::CircularProgress { min: lo, max: hi, sweep_angle, thickness, .. } => {
            &&& compare(lo, hi) < 0
            &&& !is_zero(sweep_angle)
            &&& magnitude_order(sweep_angle, spec_decimal_of("360"@, 0)) <= 0
            &&& compare(thickness, spec_zero()) > 0
        },
        SpecWidgetKind::Gauge { min: lo, max: hi, sweep_angle, thickness, needle_width, .. } => {
            &&& compare(lo, hi) < 0
            &&& !is_zero(sweep_angle)
            &&& magnitude_order(sweep_angle, spec_decimal_of("360"@, 0)) <= 0
            &&& compare(thickness, spec_zero()) > 0
            &&& compare(needle_width, spec_zero()) > 0
        },
        SpecWidgetKind::Graph { min: lo, max: hi, line_width, .. } => {
            &&& compare(line_width, spec_zero()) > 0
            &&& (lo is Some && hi is Some ==> compare(lo->0, hi->0) < 0)
        },
        _ => true,
}
}

/// A built progress, circular progress or gauge has `min < max`; arcs
/// sweep a non-zero angle of at most 360 degrees with a thickness above
/// zero; a gauge's needle and a graph's line are wider than zero, and a
/// graph with both bounds has `min < max`.
pub proof fn law_built_values_are_valid(
    raw: SpecRawWidget,
    path: Seq<char>,
    files: Seq<(Seq<char>, SpecFileLookup)>,
)
    requires
        spec_leaf(raw, path, files) is Ok,
    ensures
        built_values_valid(spec_leaf(raw, path, files)->Ok_0),
{
    match raw.kind {
        RawWidgetType::Progress => {
            assert(range_ok(default_min(raw), default_max(raw)));
        },
        RawWidgetType::CircularProgress => {
            assert(range_ok(default_min(raw), default_max(raw)));
        },
        RawWidgetType::Gauge => {
            assert(range_ok(default_min(raw), default_max(raw)));
        },
        RawWidgetType::Graph => {
            assert(graph_range_ok(raw.min, raw.max));
        },
        _ => {},
    }
}

} // verus!
