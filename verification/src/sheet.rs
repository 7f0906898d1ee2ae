//! Stylesheets: comments, rules, selectors and declaration blocks.
//!
//! A stylesheet is a list of rules `selector { property: value; ... }`.
//! Comments `/* ... */` are dropped first; blocks do not nest.
use vstd::prelude::*;
use crate::style::{
    Declarations, SpecAssignment, SpecDeclarations, SpecStyleError, StyleError, StyleErrorKind,
    bare_error, error, no_declarations, parse_assignment, spec_assign, spec_parse_assignment,
    style_error,
};
use crate::text::{
    char_end, char_end_exec, find_from, find_in, is_ascii_alphanumeric, is_alphanumeric_char,
    is_space, is_space_char, lemma_char_end, debug_quoted, quoted, lemma_find_from, string_of, trim_window, trimmed,
    window_is,
};
use crate::widget::{spec_type_name, WidgetType};

verus! {

broadcast use vstd::string::group_string_axioms;

// ---------------------------------------------------------------------------
// Declaration blocks.

/// What one item between two `;` declares: nothing where it is blank.
pub open spec fn spec_declaration(s: Seq<char>, a: int, b: int) -> Result<
    Option<SpecAssignment>,
    SpecStyleError,
> {
    let t0 = trimmed(s, a, b).0;
    let t1 = trimmed(s, a, b).1;
    if t0 == t1 {
        Ok(None)
    } else {
        let c = char_end(s, t0, t1, ':');
        if c == t1 {
            Err(style_error(StyleErrorKind::InvalidDeclaration, s.subrange(t0, t1), seq![]))
        } else {
            let p0 = trimmed(s, t0, c).0;
            let p1 = trimmed(s, t0, c).1;
            let v0 = trimmed(s, c + 1, t1).0;
            let v1 = trimmed(s, c + 1, t1).1;
            if v0 == v1 {
                Err(style_error(StyleErrorKind::MissingValue, s.subrange(p0, p1), seq![]))
            } else {
                match spec_parse_assignment(s, p0, p1, v0, v1) {
                    Ok(x) => Ok(Some(x)),
                    Err(e) => Err(e),
                }
            }
        }
    }
}

/// The declarations of the items from `i` to `hi`, added to `d` in order.
pub open spec fn declarations_from(s: Seq<char>, i: int, hi: int, d: SpecDeclarations) -> Result<
    SpecDeclarations,
    SpecStyleError,
>
    decreases hi - i,
{
    if i < 0 || i > hi {
        Ok(d)
    } else {
        let j = char_end(s, i, hi, ';');
        match spec_declaration(s, i, j) {
            Err(e) => Err(e),
            Ok(a) => {
                let d2 = match a {
                    Some(x) => spec_assign(d, x),
                    None => d,
                };
                if j < hi {
                    proof {
                        lemma_char_end(s, i, hi, ';');
                    }
                    declarations_from(s, j + 1, hi, d2)
                } else {
                    Ok(d2)
                }
            }
        }
    }
}

/// The declarations of the block `lo..hi`.
pub open spec fn spec_parse_declarations(s: Seq<char>, lo: int, hi: int) -> Result<
    SpecDeclarations,
    SpecStyleError,
> {
    declarations_from(s, lo, hi, no_declarations())
}

fn parse_declaration(s: &Vec<char>, a: usize, b: usize) -> (r: Result<
    Option<crate::style::Assignment>,
    StyleError,
>)
    requires
        a <= b <= s@.len(),
    ensures
        match r {
            Ok(Some(x)) => spec_declaration(s@, a as int, b as int) == Ok::<
                Option<SpecAssignment>,
                SpecStyleError,
            >(Some(x@)),
            Ok(None) => spec_declaration(s@, a as int, b as int) == Ok::<
                Option<SpecAssignment>,
                SpecStyleError,
            >(None),
            Err(e) => spec_declaration(s@, a as int, b as int) == Err::<
                Option<SpecAssignment>,
                SpecStyleError,
            >(e@),
        },
{
    let (t0, t1) = trim_window(s, a, b);
    if t0 == t1 {
        return Ok(None);
    }
    let c = char_end_exec(s, t0, t1, ':');
    if c == t1 {
        return Err(error(StyleErrorKind::InvalidDeclaration, string_of(s, t0, t1), String::new()));
    }
    let (p0, p1) = trim_window(s, t0, c);
    let (v0, v1) = trim_window(s, c + 1, t1);
    if v0 == v1 {
        return Err(error(StyleErrorKind::MissingValue, string_of(s, p0, p1), String::new()));
    }
    match parse_assignment(s, p0, p1, v0, v1) {
        Ok(x) => Ok(Some(x)),
        Err(e) => Err(e),
    }
}

/// Parses the declaration block `lo..hi`.
pub fn parse_declarations(s: &Vec<char>, lo: usize, hi: usize) -> (r: Result<
    Declarations,
    StyleError,
>)
    requires
        lo <= hi <= s@.len(),
    ensures
        match r {
            Ok(d) => spec_parse_declarations(s@, lo as int, hi as int) == Ok::<
                SpecDeclarations,
                SpecStyleError,
            >(d@),
            Err(e) => spec_parse_declarations(s@, lo as int, hi as int) == Err::<
                SpecDeclarations,
                SpecStyleError,
            >(e@),
        },
{
    let mut d = Declarations::new();
    let mut i = lo;
    loop
        invariant
            lo <= i <= hi <= s@.len(),
            spec_parse_declarations(s@, lo as int, hi as int) == declarations_from(
                s@,
                i as int,
                hi as int,
                d@,
            ),
        decreases hi - i,
    {
        let j = char_end_exec(s, i, hi, ';');
        match parse_declaration(s, i, j) {
            Err(e) => {
                return Err(e);
            },
            Ok(None) => {},
            Ok(Some(a)) => {
                d.assign(a);
            },
        }
        if j < hi {
            i = j + 1;
        } else {
            return Ok(d);
        }
    }
}

// ---------------------------------------------------------------------------
// Selectors.

/// A rule's selector: a widget type, `.class`, `type.class` or `#id`.
#[derive(Debug)]
pub enum Selector {
    Type(WidgetType),
    Class(String),
    TypeClass { widget_type: WidgetType, class: String },
    Id(String),
}

pub enum SpecSelector {
    Type(WidgetType),
    Class(Seq<char>),
    TypeClass { widget_type: WidgetType, class: Seq<char> },
    Id(Seq<char>),
}

impl View for Selector {
    type V = SpecSelector;

    open spec fn view(&self) -> SpecSelector {
        match self {
            Selector::Type(t) => SpecSelector::Type(*t),
            Selector::Class(c) => SpecSelector::Class(c@),
            Selector::TypeClass { widget_type, class } => SpecSelector::TypeClass {
                widget_type: *widget_type,
                class: class@,
            },
            Selector::Id(i) => SpecSelector::Id(i@),
        }
    }
}

/// Characters that only selector syntax beyond the supported subset uses.
pub open spec fn refused_in_selector(c: char) -> bool {
    is_space(c) || c == ',' || c == '>' || c == '[' || c == ':'
}

/// A character of a class or id name.
pub open spec fn is_name_char(c: char) -> bool {
    is_ascii_alphanumeric(c) || c == '_' || c == '-'
}

/// A non-empty name of ASCII letters, digits, `_` and `-`.
pub open spec fn is_name(v: Seq<char>) -> bool {
    v.len() > 0 && forall|k: int| 0 <= k < v.len() ==> is_name_char(#[trigger] v[k])
}

/// The widget types that a type selector may name.
pub open spec fn selector_type(v: Seq<char>) -> Option<WidgetType> {
    if v == "row"@ {
        Some(WidgetType::Row)
    } else if v == "column"@ {
        Some(WidgetType::Column)
    } else if v == "stack"@ {
        Some(WidgetType::Stack)
    } else if v == "text"@ {
        Some(WidgetType::Text)
    } else if v == "image"@ {
        Some(WidgetType::Image)
    } else if v == "spacer"@ {
        Some(WidgetType::Spacer)
    } else if v == "progress"@ {
        Some(WidgetType::Progress)
    } else if v == "circular-progress"@ {
        Some(WidgetType::CircularProgress)
    } else if v == "graph"@ {
        Some(WidgetType::Graph)
    } else if v == "gauge"@ {
        Some(WidgetType::Gauge)
    } else if v == "conditional"@ {
        Some(WidgetType::Conditional)
    } else {
        None
    }
}

/// The selector written in `a..b` (already trimmed).
pub open spec fn spec_parse_selector(s: Seq<char>, a: int, b: int) -> Result<
    SpecSelector,
    SpecStyleError,
> {
    let v = s.subrange(a, b);
    if a >= b || exists|k: int| a <= k < b && refused_in_selector(#[trigger] s[k]) {
        Err(style_error(StyleErrorKind::UnsupportedSelector, v, seq![]))
    } else if s[a] == '#' {
        let name = s.subrange(a + 1, b);
        if is_name(name) {
            Ok(SpecSelector::Id(name))
        } else {
            Err(style_error(StyleErrorKind::InvalidIdSelector, name, seq![]))
        }
    } else if s[a] == '.' {
        let name = s.subrange(a + 1, b);
        if is_name(name) {
            Ok(SpecSelector::Class(name))
        } else {
            Err(style_error(StyleErrorKind::InvalidClassSelector, name, seq![]))
        }
    } else {
        let d = char_end(s, a, b, '.');
        if d < b {
            let kind_name = s.subrange(a, d);
            let name = s.subrange(d + 1, b);
            match selector_type(kind_name) {
                None => Err(style_error(StyleErrorKind::UnknownWidgetType, kind_name, seq![])),
                Some(t) => if is_name(name) {
                    Ok(SpecSelector::TypeClass { widget_type: t, class: name })
                } else {
                    Err(style_error(StyleErrorKind::InvalidClassSelector, name, seq![]))
                },
            }
        } else {
            match selector_type(v) {
                None => Err(style_error(StyleErrorKind::UnknownWidgetType, v, seq![])),
                Some(t) => Ok(SpecSelector::Type(t)),
            }
        }
    }
}

/// Every widget type can be named by a type selector: the name that
/// configurations use for the type selects exactly that type.
pub proof fn law_every_widget_type_has_a_selector(t: WidgetType)
    ensures
        selector_type(spec_type_name(t)) == Some(t),
{
    reveal_strlit("row");
    reveal_strlit("column");
    reveal_strlit("stack");
    reveal_strlit("text");
    reveal_strlit("image");
    reveal_strlit("spacer");
    reveal_strlit("progress");
    reveal_strlit("circular-progress");
    reveal_strlit("graph");
    reveal_strlit("gauge");
    reveal_strlit("conditional");
    match t {
        WidgetType::Row => {
            assert(selector_type("row"@) == Some(WidgetType::Row));
        },
        WidgetType::Column => {
            assert("column"@.len() != "row"@.len());
            assert(selector_type("column"@) == Some(WidgetType::Column));
        },
        WidgetType::Stack => {
            assert("stack"@.len() != "row"@.len());
            assert("stack"@.len() != "column"@.len());
            assert(selector_type("stack"@) == Some(WidgetType::Stack));
        },
        WidgetType::Text => {
            assert("text"@.len() != "row"@.len());
            assert("text"@.len() != "column"@.len());
            assert("text"@.len() != "stack"@.len());
            assert(selector_type("text"@) == Some(WidgetType::Text));
        },
        WidgetType::Image => {
            assert("image"@.len() != "row"@.len());
            assert("image"@.len() != "column"@.len());
            assert("image"@[0] != "stack"@[0]);
            assert("image"@.len() != "text"@.len());
            assert(selector_type("image"@) == Some(WidgetType::Image));
        },
        WidgetType::Spacer => {
            assert("spacer"@.len() != "row"@.len());
            assert("spacer"@[0] != "column"@[0]);
            assert("spacer"@.len() != "stack"@.len());
            assert("spacer"@.len() != "text"@.len());
            assert("spacer"@.len() != "image"@.len());
            assert(selector_type("spacer"@) == Some(WidgetType::Spacer));
        },
        WidgetType::Progress => {
            assert("progress"@.len() != "row"@.len());
            assert("progress"@.len() != "column"@.len());
            assert("progress"@.len() != "stack"@.len());
            assert("progress"@.len() != "text"@.len());
            assert("progress"@.len() != "image"@.len());
            assert("progress"@.len() != "spacer"@.len());
            assert(selector_type("progress"@) == Some(WidgetType::Progress));
        },
        WidgetType::CircularProgress => {
            assert("circular-progress"@.len() != "row"@.len());
            assert("circular-progress"@.len() != "column"@.len());
            assert("circular-progress"@.len() != "stack"@.len());
            assert("circular-progress"@.len() != "text"@.len());
            assert("circular-progress"@.len() != "image"@.len());
            assert("circular-progress"@.len() != "spacer"@.len());
            assert("circular-progress"@.len() != "progress"@.len());
            assert(selector_type("circular-progress"@) == Some(WidgetType::CircularProgress));
        },
        WidgetType::Graph => {
            assert("graph"@.len() != "row"@.len());
            assert("graph"@.len() != "column"@.len());
            assert("graph"@[0] != "stack"@[0]);
            assert("graph"@.len() != "text"@.len());
            assert("graph"@[0] != "image"@[0]);
            assert("graph"@.len() != "spacer"@.len());
            assert("graph"@.len() != "progress"@.len());
            assert("graph"@.len() != "circular-progress"@.len());
            assert(selector_type("graph"@) == Some(WidgetType::Graph));
        },
        WidgetType::Gauge => {
            assert("gauge"@.len() != "row"@.len());
            assert("gauge"@.len() != "column"@.len());
            assert("gauge"@[0] != "stack"@[0]);
            assert("gauge"@.len() != "text"@.len());
            assert("gauge"@[0] != "image"@[0]);
            assert("gauge"@.len() != "spacer"@.len());
            assert("gauge"@.len() != "progress"@.len());
            assert("gauge"@.len() != "circular-progress"@.len());
            assert("gauge"@[1] != "graph"@[1]);
            assert(selector_type("gauge"@) == Some(WidgetType::Gauge));
        },
        WidgetType::Conditional => {
            assert("conditional"@.len() != "row"@.len());
            assert("conditional"@.len() != "column"@.len());
            assert("conditional"@.len() != "stack"@.len());
            assert("conditional"@.len() != "text"@.len());
            assert("conditional"@.len() != "image"@.len());
            assert("conditional"@.len() != "spacer"@.len());
            assert("conditional"@.len() != "progress"@.len());
            assert("conditional"@.len() != "circular-progress"@.len());
            assert("conditional"@.len() != "graph"@.len());
            assert("conditional"@.len() != "gauge"@.len());
            assert(selector_type("conditional"@) == Some(WidgetType::Conditional));
        },
    }
}

fn selector_type_exec(s: &Vec<char>, a: usize, b: usize) -> (r: Option<WidgetType>)
    requires
        a <= b <= s@.len(),
    ensures
        r == selector_type(s@.subrange(a as int, b as int)),
{
    if window_is(s, a, b, "row") {
        Some(WidgetType::Row)
    } else if window_is(s, a, b, "column") {
        Some(WidgetType::Column)
    } else if window_is(s, a, b, "stack") {
        Some(WidgetType::Stack)
    } else if window_is(s, a, b, "text") {
        Some(WidgetType::Text)
    } else if window_is(s, a, b, "image") {
        Some(WidgetType::Image)
    } else if window_is(s, a, b, "spacer") {
        Some(WidgetType::Spacer)
    } else if window_is(s, a, b, "progress") {
        Some(WidgetType::Progress)
    } else if window_is(s, a, b, "circular-progress") {
        Some(WidgetType::CircularProgress)
    } else if window_is(s, a, b, "graph") {
        Some(WidgetType::Graph)
    } else if window_is(s, a, b, "gauge") {
        Some(WidgetType::Gauge)
    } else if window_is(s, a, b, "conditional") {
        Some(WidgetType::Conditional)
    } else {
        None
    }
}

pub fn is_name_exec(s: &Vec<char>, a: usize, b: usize) -> (r: bool)
    requires
        a <= b <= s@.len(),
    ensures
        r == is_name(s@.subrange(a as int, b as int)),
{
    let ghost v = s@.subrange(a as int, b as int);
    if a == b {
        return false;
    }
    let mut k = a;
    while k < b
        invariant
            a <= k <= b <= s@.len(),
            v == s@.subrange(a as int, b as int),
            forall|j: int| 0 <= j < k - a ==> is_name_char(#[trigger] v[j]),
        decreases b - k,
    {
        let c = s[k];
        if !(is_alphanumeric_char(c) || c == '_' || c == '-') {
            assert(!is_name_char(v[k - a]));
            return false;
        }
        k += 1;
    }
    true
}

fn has_refused_char(s: &Vec<char>, a: usize, b: usize) -> (r: bool)
    requires
        a <= b <= s@.len(),
    ensures
        r == exists|k: int| a <= k < b && refused_in_selector(#[trigger] s@[k]),
{
    let mut k = a;
    while k < b
        invariant
            a <= k <= b <= s@.len(),
            forall|j: int| a <= j < k ==> !refused_in_selector(#[trigger] s@[j]),
        decreases b - k,
    {
        let c = s[k];
        if is_space_char(c) || c == ',' || c == '>' || c == '[' || c == ':' {
            assert(refused_in_selector(s@[k as int]));
            return true;
        }
        k += 1;
    }
    false
}

/// Parses the selector written in `a..b`.
pub fn parse_selector(s: &Vec<char>, a: usize, b: usize) -> (r: Result<Selector, StyleError>)
    requires
        a <= b <= s@.len(),
    ensures
        match r {
            Ok(x) => spec_parse_selector(s@, a as int, b as int) == Ok::<
                SpecSelector,
                SpecStyleError,
            >(x@),
            Err(e) => spec_parse_selector(s@, a as int, b as int) == Err::<
                SpecSelector,
                SpecStyleError,
            >(e@),
        },
{
    if a == b || has_refused_char(s, a, b) {
        return Err(error(StyleErrorKind::UnsupportedSelector, string_of(s, a, b), String::new()));
    }
    if s[a] == '#' {
        if is_name_exec(s, a + 1, b) {
            return Ok(Selector::Id(string_of(s, a + 1, b)));
        }
        return Err(error(StyleErrorKind::InvalidIdSelector, string_of(s, a + 1, b), String::new()));
    }
    if s[a] == '.' {
        if is_name_exec(s, a + 1, b) {
            return Ok(Selector::Class(string_of(s, a + 1, b)));
        }
        return Err(
            error(StyleErrorKind::InvalidClassSelector, string_of(s, a + 1, b), String::new()),
        );
    }
    let d = char_end_exec(s, a, b, '.');
    if d < b {
        match selector_type_exec(s, a, d) {
            None => Err(error(StyleErrorKind::UnknownWidgetType, string_of(s, a, d), String::new())),
            Some(t) => if is_name_exec(s, d + 1, b) {
                Ok(Selector::TypeClass { widget_type: t, class: string_of(s, d + 1, b) })
            } else {
                Err(
                    error(
                        StyleErrorKind::InvalidClassSelector,
                        string_of(s, d + 1, b),
                        String::new(),
                    ),
                )
            },
        }
    } else {
        match selector_type_exec(s, a, b) {
            None => Err(error(StyleErrorKind::UnknownWidgetType, string_of(s, a, b), String::new())),
            Some(t) => Ok(Selector::Type(t)),
        }
    }
}

// ---------------------------------------------------------------------------
// Comments.

pub open spec fn comment_open() -> Seq<char> {
    seq!['/', '*']
}

pub open spec fn comment_close() -> Seq<char> {
    seq!['*', '/']
}

/// The text from `i` on with each comment `/* ... */` removed.
pub open spec fn strip_from(s: Seq<char>, i: int) -> Result<Seq<char>, SpecStyleError>
    decreases s.len() - i,
{
    if i < 0 || i > s.len() {
        Ok(seq![])
    } else {
        match find_from(s, i, s.len() as int, comment_open()) {
            None => Ok(s.subrange(i, s.len() as int)),
            Some(k) => {
                proof {
                    lemma_find_from(s, i, s.len() as int, comment_open());
                }
                match find_from(s, k + 2, s.len() as int, comment_close()) {
                    None => Err(style_error(StyleErrorKind::UnterminatedComment, seq![], seq![])),
                    Some(e) => {
                        proof {
                            lemma_find_from(s, k + 2, s.len() as int, comment_close());
                        }
                        match strip_from(s, e + 2) {
                            Ok(rest) => Ok(s.subrange(i, k) + rest),
                            Err(x) => Err(x),
                        }
                    },
                }
            },
        }
    }
}

/// `p` followed by the text of `r`, where `r` is text.
pub open spec fn prefixed(p: Seq<char>, r: Result<Seq<char>, SpecStyleError>) -> Result<
    Seq<char>,
    SpecStyleError,
> {
    match r {
        Ok(x) => Ok(p + x),
        Err(e) => Err(e),
    }
}

fn extend_window(out: &mut Vec<char>, s: &Vec<char>, lo: usize, hi: usize)
    requires
        lo <= hi <= s@.len(),
    ensures
        final(out)@ == old(out)@ + s@.subrange(lo as int, hi as int),
{
    let ghost start = out@;
    let mut k = lo;
    while k < hi
        invariant
            lo <= k <= hi <= s@.len(),
            out@ == start + s@.subrange(lo as int, k as int),
        decreases hi - k,
    {
        out.push(s[k]);
        assert(out@ =~= start + s@.subrange(lo as int, k + 1));
        k += 1;
    }
}

fn pair(a: char, b: char) -> (r: Vec<char>)
    ensures
        r@ == seq![a, b],
{
    let mut r = Vec::new();
    r.push(a);
    r.push(b);
    assert(r@ =~= seq![a, b]);
    r
}

/// The text with its comments removed.
pub fn strip_comments(s: &Vec<char>) -> (r: Result<Vec<char>, StyleError>)
    ensures
        match r {
            Ok(v) => strip_from(s@, 0) == Ok::<Seq<char>, SpecStyleError>(v@),
            Err(e) => strip_from(s@, 0) == Err::<Seq<char>, SpecStyleError>(e@),
        },
{
    let open = pair('/', '*');
    let close = pair('*', '/');
    let n = s.len();
    let mut out: Vec<char> = Vec::new();
    let mut i: usize = 0;
    assert(out@ + seq![] =~= out@);
    loop
        invariant
            i <= n == s@.len(),
            open@ == comment_open(),
            close@ == comment_close(),
            strip_from(s@, 0) == prefixed(out@, strip_from(s@, i as int)),
        decreases n - i,
    {
        proof {
            lemma_find_from(s@, i as int, n as int, comment_open());
        }
        match find_in(s, i, n, &open) {
            None => {
                extend_window(&mut out, s, i, n);
                return Ok(out);
            },
            Some(k) => {
                proof {
                    lemma_find_from(s@, k + 2, n as int, comment_close());
                }
                match find_in(s, k + 2, n, &close) {
                    None => {
                        return Err(bare_error(StyleErrorKind::UnterminatedComment));
                    },
                    Some(e) => {
                        let ghost before = out@;
                        extend_window(&mut out, s, i, k);
                        proof {
                            match strip_from(s@, e + 2) {
                                Ok(rest) => {
                                    assert(before + (s@.subrange(i as int, k as int) + rest)
                                        =~= out@ + rest);
                                },
                                Err(x) => {},
                            }
                        }
                        i = e + 2;
                    },
                }
            },
        }
    }
}

// ---------------------------------------------------------------------------
// Rules.

/// One rule: its selector and what it declares. Its place in the sheet is
/// its source order.
#[derive(Debug)]
pub struct Rule {
    pub selector: Selector,
    pub declarations: Declarations,
}

pub struct SpecRule {
    pub selector: SpecSelector,
    pub declarations: SpecDeclarations,
}

impl View for Rule {
    type V = SpecRule;

    open spec fn view(&self) -> SpecRule {
        SpecRule { selector: self.selector@, declarations: self.declarations@ }
    }
}

pub open spec fn rules_view(v: Seq<Rule>) -> Seq<SpecRule> {
    v.map_values(|r: Rule| r@)
}

/// The rules of the (comment-free) text from `i` on, after the rules `acc`.
pub open spec fn rules_from(c: Seq<char>, i: int, acc: Seq<SpecRule>) -> Result<
    Seq<SpecRule>,
    SpecStyleError,
>
    decreases c.len() - i,
{
    let n = c.len() as int;
    if i < 0 || i > n || trimmed(c, i, n).0 == trimmed(c, i, n).1 {
        Ok(acc)
    } else {
        let open = char_end(c, i, n, '{');
        if open == n {
            Err(style_error(StyleErrorKind::ExpectedOpenBrace, seq![], seq![]))
        } else {
            let close = char_end(c, open + 1, n, '}');
            if close == n {
                Err(style_error(StyleErrorKind::ExpectedCloseBrace, seq![], seq![]))
            } else if char_end(c, open + 1, close, '{') < close {
                Err(style_error(StyleErrorKind::NestedBlock, seq![], seq![]))
            } else {
                match spec_parse_selector(c, trimmed(c, i, open).0, trimmed(c, i, open).1) {
                    Err(e) => Err(e),
                    Ok(selector) => match spec_parse_declarations(c, open + 1, close) {
                        Err(e) => Err(e),
                        Ok(declarations) => {
                            proof {
                                lemma_char_end(c, i, n, '{');
                                lemma_char_end(c, open + 1, n, '}');
                            }
                            rules_from(
                                c,
                                close + 1,
                                acc.push(SpecRule { selector, declarations }),
                            )
                        },
                    },
                }
            }
        }
    }
}

/// The rules of a stylesheet's text, in source order.
pub open spec fn spec_parse_stylesheet(s: Seq<char>) -> Result<Seq<SpecRule>, SpecStyleError> {
    match strip_from(s, 0) {
        Err(e) => Err(e),
        Ok(c) => rules_from(c, 0, seq![]),
    }
}

/// Parses the rules of a comment-free text.
fn parse_rules(c: &Vec<char>) -> (r: Result<Vec<Rule>, StyleError>)
    ensures
        match r {
            Ok(v) => rules_from(c@, 0, seq![]) == Ok::<Seq<SpecRule>, SpecStyleError>(
                rules_view(v@),
            ),
            Err(e) => rules_from(c@, 0, seq![]) == Err::<Seq<SpecRule>, SpecStyleError>(e@),
        },
{
    let n = c.len();
    let mut rules: Vec<Rule> = Vec::new();
    let mut i: usize = 0;
    assert(rules_view(rules@) =~= seq![]);
    loop
        invariant
            i <= n == c@.len(),
            rules_from(c@, 0, seq![]) == rules_from(c@, i as int, rules_view(rules@)),
        decreases n - i,
    {
        let (t0, t1) = trim_window(c, i, n);
        if t0 == t1 {
            return Ok(rules);
        }
        let open = char_end_exec(c, i, n, '{');
        if open == n {
            return Err(bare_error(StyleErrorKind::ExpectedOpenBrace));
        }
        let close = char_end_exec(c, open + 1, n, '}');
        if close == n {
            return Err(bare_error(StyleErrorKind::ExpectedCloseBrace));
        }
        if char_end_exec(c, open + 1, close, '{') < close {
            return Err(bare_error(StyleErrorKind::NestedBlock));
        }
        let (s0, s1) = trim_window(c, i, open);
        let selector = match parse_selector(c, s0, s1) {
            Ok(x) => x,
            Err(e) => {
                return Err(e);
            },
        };
        let declarations = match parse_declarations(c, open + 1, close) {
            Ok(x) => x,
            Err(e) => {
                return Err(e);
            },
        };
        let ghost old_rules = rules@;
        rules.push(Rule { selector, declarations });
        assert(rules_view(rules@) =~= rules_view(old_rules).push(rules@.last()@));
        i = close + 1;
    }
}

/// A parsed stylesheet: where it came from and its rules in source order.
#[derive(Debug)]
pub struct StyleSheet {
    source: String,
    rules: Vec<Rule>,
}

pub struct SpecStyleSheet {
    pub source: Seq<char>,
    pub rules: Seq<SpecRule>,
}

impl View for StyleSheet {
    type V = SpecStyleSheet;

    closed spec fn view(&self) -> SpecStyleSheet {
        SpecStyleSheet { source: self.source@, rules: rules_view(self.rules@) }
    }
}

impl StyleSheet {
    /// Parses the text of a stylesheet; `source` names where it came from.
    pub fn parse(source: &str, contents: &str) -> (r: Result<StyleSheet, StyleError>)
        ensures
            match r {
                Ok(sheet) => {
                    &&& spec_parse_stylesheet(contents@) == Ok::<Seq<SpecRule>, SpecStyleError>(
                        sheet@.rules,
                    )
                    &&& sheet@.source == source@
                },
                Err(e) => spec_parse_stylesheet(contents@) == Err::<
                    Seq<SpecRule>,
                    SpecStyleError,
                >(e@),
            },
    {
        let chars = crate::text::chars_of(contents);
        let stripped = match strip_comments(&chars) {
            Ok(x) => x,
            Err(e) => {
                return Err(e);
            },
        };
        match parse_rules(&stripped) {
            Ok(rules) => Ok(StyleSheet { source: source.to_string(), rules }),
            Err(e) => Err(e),
        }
    }

    /// Where the stylesheet came from.
    pub fn source(&self) -> (r: &String)
        ensures
            r@ == self@.source,
    {
        &self.source
    }

    /// The rules, in source order.
    pub fn rules(&self) -> (r: &Vec<Rule>)
        ensures
            rules_view(r@) == self@.rules,
    {
        &self.rules
    }
}

// ---------------------------------------------------------------------------
// Messages.

/// The message that describes a stylesheet error.
pub open spec fn style_message(e: SpecStyleError) -> Seq<char> {
    match e.kind {
        StyleErrorKind::UnterminatedComment => "unterminated CSS comment"@,
        StyleErrorKind::ExpectedOpenBrace => "expected '{' after selector"@,
        StyleErrorKind::ExpectedCloseBrace => "expected '}' after declarations"@,
        StyleErrorKind::NestedBlock => "nested CSS blocks are not supported"@,
        StyleErrorKind::UnsupportedSelector => "unsupported selector "@ + debug_quoted(e.subject) + "; expected type, .class, type.class, or #id"@,
        StyleErrorKind::InvalidIdSelector => "invalid ID selector "@ + debug_quoted(e.subject),
        StyleErrorKind::InvalidClassSelector => "invalid class selector "@ + debug_quoted(e.subject),
        StyleErrorKind::UnknownWidgetType => "unknown widget type selector "@ + debug_quoted(e.subject),
        StyleErrorKind::InvalidDeclaration => "invalid declaration "@ + debug_quoted(e.subject) + "; expected property: value"@,
        StyleErrorKind::MissingValue => e.subject + " requires a value"@,
        StyleErrorKind::UnsupportedProperty => "unsupported property "@ + debug_quoted(e.subject),
        StyleErrorKind::InvalidValue => "invalid "@ + e.subject + " value "@ + debug_quoted(e.detail),
        StyleErrorKind::LengthUnits => e.subject + " requires px, %, zero, or auto"@,
        StyleErrorKind::LengthUnitsNoAuto => e.subject + " requires px, %, zero"@,
        StyleErrorKind::PixelsRequired => e.subject + " requires a non-negative pixel value"@,
        StyleErrorKind::MustBePositive => e.subject + " must be greater than zero"@,
        StyleErrorKind::MustBeFiniteNonNegative => e.subject + " must be a finite non-negative number"@,
        StyleErrorKind::MustBeUnitInterval => e.subject + " must be between 0 and 1"@,
        StyleErrorKind::FontFamily => "font-family requires one non-empty family name"@,
        StyleErrorKind::ColorSyntax => e.subject + " requires #RRGGBB, #RRGGBBAA, or transparent"@,
        StyleErrorKind::InvalidColor => "invalid "@ + e.subject + " color "@ + debug_quoted(e.detail),
    }
}

impl StyleError {
    /// The message that describes the error.
    pub fn message(&self) -> (r: String)
        ensures
            r@ == style_message(self@),
    {
        let mut m = String::new();
        match self.kind {
            StyleErrorKind::UnterminatedComment => {
                m.append("unterminated CSS comment");
            },
            StyleErrorKind::ExpectedOpenBrace => {
                m.append("expected '{' after selector");
            },
            StyleErrorKind::ExpectedCloseBrace => {
                m.append("expected '}' after declarations");
            },
            StyleErrorKind::NestedBlock => {
                m.append("nested CSS blocks are not supported");
            },
            StyleErrorKind::UnsupportedSelector => {
                m.append("unsupported selector ");
                m.append(quoted(&self.subject).as_str());
                m.append("; expected type, .class, type.class, or #id");
            },
            StyleErrorKind::InvalidIdSelector => {
                m.append("invalid ID selector ");
                m.append(quoted(&self.subject).as_str());
            },
            StyleErrorKind::InvalidClassSelector => {
                m.append("invalid class selector ");
                m.append(quoted(&self.subject).as_str());
            },
            StyleErrorKind::UnknownWidgetType => {
                m.append("unknown widget type selector ");
                m.append(quoted(&self.subject).as_str());
            },
            StyleErrorKind::InvalidDeclaration => {
                m.append("invalid declaration ");
                m.append(quoted(&self.subject).as_str());
                m.append("; expected property: value");
            },
            StyleErrorKind::MissingValue => {
                m.append(self.subject.as_str());
                m.append(" requires a value");
            },
            StyleErrorKind::UnsupportedProperty => {
                m.append("unsupported property ");
                m.append(quoted(&self.subject).as_str());
            },
            StyleErrorKind::InvalidValue => {
                m.append("invalid ");
                m.append(self.subject.as_str());
                m.append(" value ");
                m.append(quoted(&self.detail).as_str());
            },
            StyleErrorKind::LengthUnits => {
                m.append(self.subject.as_str());
                m.append(" requires px, %, zero, or auto");
            },
            StyleErrorKind::LengthUnitsNoAuto => {
                m.append(self.subject.as_str());
                m.append(" requires px, %, zero");
            },
            StyleErrorKind::PixelsRequired => {
                m.append(self.subject.as_str());
                m.append(" requires a non-negative pixel value");
            },
            StyleErrorKind::MustBePositive => {
                m.append(self.subject.as_str());
                m.append(" must be greater than zero");
            },
            StyleErrorKind::MustBeFiniteNonNegative => {
                m.append(self.subject.as_str());
                m.append(" must be a finite non-negative number");
            },
            StyleErrorKind::MustBeUnitInterval => {
                m.append(self.subject.as_str());
                m.append(" must be between 0 and 1");
            },
            StyleErrorKind::FontFamily => {
                m.append("font-family requires one non-empty family name");
            },
            StyleErrorKind::ColorSyntax => {
                m.append(self.subject.as_str());
                m.append(" requires #RRGGBB, #RRGGBBAA, or transparent");
            },
            StyleErrorKind::InvalidColor => {
                m.append("invalid ");
                m.append(self.subject.as_str());
                m.append(" color ");
                m.append(quoted(&self.detail).as_str());
            },
        }
        m
    }
}

} // verus!
