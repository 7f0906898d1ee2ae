//! Sensor bindings: text with `{{ key | filter }}` interpolations.
//!
//! A binding is parsed once, when the dashboard is loaded, and resolved
//! against the current sensor values for every frame.
use vstd::prelude::*;
use crate::text::{
    chars_of, find_from, find_in, is_ascii_digit, is_digit_char, lemma_find_from, occurs_at,
    occurs_at_exec, push_char, string_of, trim_window, trimmed, debug_quoted, quoted, char_end,
    char_end_exec, lemma_char_end, is_space, trim_lo, trim_hi,
};
use crate::params::lemma_find_at;
use crate::sheet::{is_name, is_name_char};

verus! {

broadcast use vstd::string::group_string_axioms;

/// A filter applied to a sensor value.
#[derive(Debug)]
pub enum Filter {
    /// `default("text")`: used when the value is missing or empty.
    Default(String),
    /// `number(digits)`: the value as a number rounded to that many decimals.
    Number(usize),
}

pub enum SpecFilter {
    Default(Seq<char>),
    Number(nat),
}

impl View for Filter {
    type V = SpecFilter;

    open spec fn view(&self) -> SpecFilter {
        match self {
            Filter::Default(text) => SpecFilter::Default(text@),
            Filter::Number(digits) => SpecFilter::Number(*digits as nat),
        }
    }
}

/// `{{ key | filter | ... }}`.
#[derive(Debug)]
pub struct Expression {
    key: String,
    filters: Vec<Filter>,
}

pub struct SpecExpression {
    pub key: Seq<char>,
    pub filters: Seq<SpecFilter>,
}

impl View for Expression {
    type V = SpecExpression;

    closed spec fn view(&self) -> SpecExpression {
        SpecExpression { key: self.key@, filters: self.filters@.map_values(|f: Filter| f@) }
    }
}

#[derive(Debug)]
pub enum Segment {
    Literal(String),
    Expression(Expression),
}

pub enum SpecSegment {
    Literal(Seq<char>),
    Expression(SpecExpression),
}

impl View for Segment {
    type V = SpecSegment;

    open spec fn view(&self) -> SpecSegment {
        match self {
            Segment::Literal(text) => SpecSegment::Literal(text@),
            Segment::Expression(expression) => SpecSegment::Expression(expression@),
        }
    }
}

/// Text with interpolated sensor values, split into literal and expression segments.
#[derive(Debug)]
pub struct Binding {
    segments: Vec<Segment>,
}

impl View for Binding {
    type V = Seq<SpecSegment>;

    closed spec fn view(&self) -> Seq<SpecSegment> {
        self.segments@.map_values(|segment: Segment| segment@)
    }
}

/// Why a binding was rejected when it was parsed.
#[derive(Debug)]
pub enum BindingParseError {
    /// `{{` without a later `}}`.
    UnclosedExpression,
    /// `}}` after the last expression.
    UnexpectedClosingDelimiter,
    /// An expression without a sensor key.
    MissingSensorKey,
    /// A quote in the filters that is never closed.
    UnclosedQuote,
    /// `default(..)` whose argument is not a quoted string.
    DefaultRequiresQuotedString,
    /// A default string that ends with a backslash.
    TrailingEscape,
    /// A backslash followed by a character other than `\ " ' n t`.
    UnsupportedEscape(char),
    /// `number(..)` whose argument, as written, is not a non-negative integer.
    PrecisionNotInteger(String),
    /// `number(..)` with more than ten digits.
    PrecisionOutOfRange,
    /// A filter other than `default(..)` and `number(..)`, as written.
    UnsupportedFilter(String),
}

pub enum SpecBindingParseError {
    UnclosedExpression,
    UnexpectedClosingDelimiter,
    MissingSensorKey,
    UnclosedQuote,
    DefaultRequiresQuotedString,
    TrailingEscape,
    UnsupportedEscape(char),
    PrecisionNotInteger(Seq<char>),
    PrecisionOutOfRange,
    UnsupportedFilter(Seq<char>),
}

impl View for BindingParseError {
    type V = SpecBindingParseError;

    open spec fn view(&self) -> SpecBindingParseError {
        match self {
            BindingParseError::UnclosedExpression => SpecBindingParseError::UnclosedExpression,
            BindingParseError::UnexpectedClosingDelimiter => SpecBindingParseError::UnexpectedClosingDelimiter,
            BindingParseError::MissingSensorKey => SpecBindingParseError::MissingSensorKey,
            BindingParseError::UnclosedQuote => SpecBindingParseError::UnclosedQuote,
            BindingParseError::DefaultRequiresQuotedString => SpecBindingParseError::DefaultRequiresQuotedString,
            BindingParseError::TrailingEscape => SpecBindingParseError::TrailingEscape,
            BindingParseError::UnsupportedEscape(c) => SpecBindingParseError::UnsupportedEscape(*c),
            BindingParseError::PrecisionNotInteger(text) => SpecBindingParseError::PrecisionNotInteger(text@),
            BindingParseError::PrecisionOutOfRange => SpecBindingParseError::PrecisionOutOfRange,
            BindingParseError::UnsupportedFilter(text) => SpecBindingParseError::UnsupportedFilter(text@),
        }
    }
}

// ---------------------------------------------------------------------------
// Unsigned integers, as `usize::from_str` reads them.

/// Value of the decimal digits in `lo..hi`.
pub open spec fn digits_value(s: Seq<char>, lo: int, hi: int) -> nat
    decreases hi - lo,
{
    if hi <= lo {
        0
    } else {
        digits_value(s, lo, hi - 1) * 10 + ((s[hi - 1] as int) - 48) as nat
    }
}

pub open spec fn all_digits(s: Seq<char>, lo: int, hi: int) -> bool {
    forall|k: int| lo <= k < hi ==> is_ascii_digit(#[trigger] s[k])
}

/// `usize::from_str` on the window: an optional `+`, then one or more
/// digits, with a value of at most `max`.
pub open spec fn parse_unsigned(s: Seq<char>, lo: int, hi: int, max: nat) -> Option<nat> {
    let start = if lo < hi && s[lo] == '+' {
        lo + 1
    } else {
        lo
    };
    if start < hi && all_digits(s, start, hi) && digits_value(s, start, hi) <= max {
        Some(digits_value(s, start, hi))
    } else {
        None
    }
}

proof fn lemma_digits_value_grows(s: Seq<char>, lo: int, mid: int, hi: int)
    requires
        lo <= mid <= hi,
        all_digits(s, lo, hi),
    ensures
        digits_value(s, lo, mid) <= digits_value(s, lo, hi),
    decreases hi - mid,
{
    if mid < hi {
        lemma_digits_value_grows(s, lo, mid, hi - 1);
        assert(is_ascii_digit(s[hi - 1]));
    }
}

/// `usize::from_str` on the window `lo..hi`.
pub fn parse_usize(s: &Vec<char>, lo: usize, hi: usize) -> (r: Option<usize>)
    requires
        lo <= hi <= s@.len(),
    ensures
        r matches Some(v) ==> parse_unsigned(s@, lo as int, hi as int, usize::MAX as nat) == Some(
            v as nat,
        ),
        r is None ==> parse_unsigned(s@, lo as int, hi as int, usize::MAX as nat) is None,
{
    let start = if lo < hi && s[lo] == '+' {
        lo + 1
    } else {
        lo
    };
    if start >= hi {
        return None;
    }
    let mut k = start;
    while k < hi
        invariant
            start <= k <= hi <= s@.len(),
            lo <= start,
            start == (if lo < hi && s@[lo as int] == '+' { lo + 1 } else { lo as int }),
            all_digits(s@, start as int, k as int),
        decreases hi - k,
    {
        if !is_digit_char(s[k]) {
            assert(!all_digits(s@, start as int, hi as int));
            return None;
        }
        k += 1;
    }
    let mut value: usize = 0;
    let mut k = start;
    while k < hi
        invariant
            start <= k <= hi <= s@.len(),
            start == (if lo < hi && s@[lo as int] == '+' { lo + 1 } else { lo as int }),
            all_digits(s@, start as int, hi as int),
            value as nat == digits_value(s@, start as int, k as int),
        decreases hi - k,
    {
        let digit = (s[k] as u32 - 48) as usize;
        assert(is_ascii_digit(s@[k as int]));
        assert(digits_value(s@, start as int, k + 1) == value * 10 + digit);
        match value.checked_mul(10) {
            Some(tens) => match tens.checked_add(digit) {
                Some(next) => {
                    value = next;
                },
                None => {
                    proof {
                        lemma_digits_value_grows(s@, start as int, k + 1, hi as int);
                    }
                    assert(digits_value(s@, start as int, hi as int) > usize::MAX);
                    return None;
                },
            },
            None => {
                proof {
                    lemma_digits_value_grows(s@, start as int, k + 1, hi as int);
                }
                assert(digits_value(s@, start as int, hi as int) > usize::MAX);
                return None;
            },
        }
        k += 1;
    }
    Some(value)
}

// ---------------------------------------------------------------------------
// Quoted default strings.

/// Unescapes `\\ \" \' \n \t` in `i..hi`, appending to `acc`.
pub open spec fn unescape(s: Seq<char>, i: int, hi: int, acc: Seq<char>) -> Result<
    Seq<char>,
    SpecBindingParseError,
>
    decreases hi - i,
{
    if i >= hi {
        Ok(acc)
    } else if s[i] == '\\' {
        if i + 1 >= hi {
            Err(SpecBindingParseError::TrailingEscape)
        } else {
            let e = s[i + 1];
            if e == '\\' || e == '"' || e == '\'' {
                unescape(s, i + 2, hi, acc.push(e))
            } else if e == 'n' {
                unescape(s, i + 2, hi, acc.push('\n'))
            } else if e == 't' {
                unescape(s, i + 2, hi, acc.push('\t'))
            } else {
                Err(SpecBindingParseError::UnsupportedEscape(e))
            }
        }
    } else {
        unescape(s, i + 1, hi, acc.push(s[i]))
    }
}

/// The argument of `default(..)`: a string in single or double quotes.
pub open spec fn spec_parse_quoted(s: Seq<char>, lo: int, hi: int) -> Result<
    Seq<char>,
    SpecBindingParseError,
> {
    let (a, b) = trimmed(s, lo, hi);
    if b - a < 2 || !(s[a] == '"' || s[a] == '\'') || s[b - 1] != s[a] {
        Err(SpecBindingParseError::DefaultRequiresQuotedString)
    } else {
        unescape(s, a + 1, b - 1, seq![])
    }
}

fn parse_quoted(s: &Vec<char>, lo: usize, hi: usize) -> (r: Result<String, BindingParseError>)
    requires
        lo <= hi <= s@.len(),
    ensures
        r matches Ok(text) ==> spec_parse_quoted(s@, lo as int, hi as int) == Ok::<
            Seq<char>,
            SpecBindingParseError,
        >(text@),
        r matches Err(e) ==> spec_parse_quoted(s@, lo as int, hi as int) == Err::<
            Seq<char>,
            SpecBindingParseError,
        >(e@),
{
    let (a, b) = trim_window(s, lo, hi);
    if b - a < 2 || !(s[a] == '"' || s[a] == '\'') || s[b - 1] != s[a] {
        return Err(BindingParseError::DefaultRequiresQuotedString);
    }
    let end = b - 1;
    let mut out = String::new();
    let mut i = a + 1;
    while i < end
        invariant
            a + 1 <= i <= end + 1,
            end < s@.len(),
            spec_parse_quoted(s@, lo as int, hi as int) == unescape(s@, i as int, end as int, out@),
        decreases end + 1 - i,
    {
        let c = s[i];
        if c == '\\' {
            if i + 1 >= end {
                return Err(BindingParseError::TrailingEscape);
            }
            let e = s[i + 1];
            if e == '\\' || e == '"' || e == '\'' {
                push_char(&mut out, e);
            } else if e == 'n' {
                push_char(&mut out, '\n');
            } else if e == 't' {
                push_char(&mut out, '\t');
            } else {
                return Err(BindingParseError::UnsupportedEscape(e));
            }
            i += 2;
        } else {
            push_char(&mut out, c);
            i += 1;
        }
    }
    Ok(out)
}

/// How a character is written inside a quoted default string: a backslash,
/// a double quote, a newline and a tab escaped, every other character as
/// itself.
pub open spec fn escape_char(c: char) -> Seq<char> {
    if c == '\\' {
        seq!['\\', '\\']
    } else if c == '"' {
        seq!['\\', '"']
    } else if c == '\n' {
        seq!['\\', 'n']
    } else if c == '\t' {
        seq!['\\', 't']
    } else {
        seq![c]
    }
}

/// `t` written with every character escaped as `escape_char` does.
pub open spec fn escaped(t: Seq<char>) -> Seq<char>
    decreases t.len(),
{
    if t.len() == 0 {
        seq![]
    } else {
        escape_char(t[0]) + escaped(t.drop_first())
    }
}

proof fn lemma_unescape_shift(s: Seq<char>, e: Seq<char>, off: int, i: int, acc: Seq<char>)
    requires
        0 <= off,
        off + e.len() <= s.len(),
        s.subrange(off, off + e.len()) == e,
        0 <= i <= e.len(),
    ensures
        unescape(s, off + i, off + e.len(), acc) == unescape(e, i, e.len() as int, acc),
    decreases e.len() - i,
{
    if i < e.len() {
        assert(s[off + i] == e[i]);
        if e[i] == '\\' {
            if i + 1 < e.len() {
                assert(s[off + i + 1] == e[i + 1]);
                let c = e[i + 1];
                if i + 2 <= e.len() {
                    if c == '\\' || c == '"' || c == '\'' {
                        lemma_unescape_shift(s, e, off, i + 2, acc.push(c));
                    } else if c == 'n' {
                        lemma_unescape_shift(s, e, off, i + 2, acc.push('\n'));
                    } else if c == 't' {
                        lemma_unescape_shift(s, e, off, i + 2, acc.push('\t'));
                    }
                }
            }
        } else {
            lemma_unescape_shift(s, e, off, i + 1, acc.push(e[i]));
        }
    }
}

proof fn lemma_unescape_escaped(t: Seq<char>, acc: Seq<char>)
    ensures
        unescape(escaped(t), 0, escaped(t).len() as int, acc) == Ok::<
            Seq<char>,
            SpecBindingParseError,
        >(acc + t),
    decreases t.len(),
{
    let e = escaped(t);
    if t.len() == 0 {
        assert(acc + t =~= acc);
    } else {
        let c = t[0];
        let head = escape_char(c);
        let rest = escaped(t.drop_first());
        let next = if c == '\\' || c == '"' || c == '\n' || c == '\t' { 2int } else { 1int };
        assert(e =~= head + rest);
        assert(head.len() == next);
        lemma_unescape_escaped(t.drop_first(), acc.push(c));
        assert(e.subrange(next, next + rest.len()) =~= rest);
        lemma_unescape_shift(e, rest, next, 0, acc.push(c));
        assert(acc.push(c) + t.drop_first() =~= acc + t);
    }
}

pub(crate) proof fn lemma_trim_lo_at(s: Seq<char>, lo: int, m: int, hi: int)
    requires
        lo <= m < hi,
        forall|k: int| lo <= k < m ==> is_space(#[trigger] s[k]),
        !is_space(s[m]),
    ensures
        trim_lo(s, lo, hi) == m,
    decreases m - lo,
{
    if lo < m {
        lemma_trim_lo_at(s, lo + 1, m, hi);
    }
}

pub(crate) proof fn lemma_trim_hi_at(s: Seq<char>, lo: int, m: int, hi: int)
    requires
        lo < m <= hi,
        forall|k: int| m <= k < hi ==> is_space(#[trigger] s[k]),
        !is_space(s[m - 1]),
    ensures
        trim_hi(s, lo, hi) == m,
    decreases hi - m,
{
    if m < hi {
        lemma_trim_hi_at(s, lo, m, hi - 1);
    }
}

/// Unescaping undoes escaping: any text, escaped and put in double quotes,
/// with white space around, is read back as that text by `default(..)`.
pub proof fn law_quoted_default_round_trip(t: Seq<char>, before: Seq<char>, after: Seq<char>)
    requires
        forall|k: int| 0 <= k < before.len() ==> is_space(#[trigger] before[k]),
        forall|k: int| 0 <= k < after.len() ==> is_space(#[trigger] after[k]),
    ensures
        spec_parse_quoted(
            before + seq!['"'] + escaped(t) + seq!['"'] + after,
            0,
            (before + seq!['"'] + escaped(t) + seq!['"'] + after).len() as int,
        ) == Ok::<Seq<char>, SpecBindingParseError>(t),
{
    let e = escaped(t);
    let s = before + seq!['"'] + e + seq!['"'] + after;
    let a = before.len() as int;
    let b = a + e.len() + 2;
    assert(s[a] == '"');
    assert(s[b - 1] == '"');
    assert forall|k: int| 0 <= k < a implies is_space(#[trigger] s[k]) by {
        assert(s[k] == before[k]);
    }
    assert forall|k: int| b <= k < s.len() implies is_space(#[trigger] s[k]) by {
        assert(s[k] == after[k - b]);
    }
    lemma_trim_lo_at(s, 0, a, s.len() as int);
    lemma_trim_hi_at(s, a, b, s.len() as int);
    assert(s.subrange(a + 1, a + 1 + e.len()) =~= e);
    lemma_unescape_shift(s, e, a + 1, 0, seq![]);
    lemma_unescape_escaped(t, seq![]);
    assert(seq![] + t =~= t);
}

// ---------------------------------------------------------------------------
// Filters.

/// `default(` and `number(`, the two filter heads.
pub open spec fn default_head() -> Seq<char> {
    seq!['d', 'e', 'f', 'a', 'u', 'l', 't', '(']
}

pub open spec fn number_head() -> Seq<char> {
    seq!['n', 'u', 'm', 'b', 'e', 'r', '(']
}

/// One filter, from its (trimmed) window.
pub open spec fn spec_parse_filter(s: Seq<char>, a: int, b: int) -> Result<
    SpecFilter,
    SpecBindingParseError,
> {
    if b - a >= 9 && occurs_at(s, a, default_head()) && s[b - 1] == ')' {
        match spec_parse_quoted(s, a + 8, b - 1) {
            Ok(text) => Ok(SpecFilter::Default(text)),
            Err(e) => Err(e),
        }
    } else if b - a >= 8 && occurs_at(s, a, number_head()) && s[b - 1] == ')' {
        let (x, y) = trimmed(s, a + 7, b - 1);
        match parse_unsigned(s, x, y, usize::MAX as nat) {
            None => Err(SpecBindingParseError::PrecisionNotInteger(s.subrange(a + 7, b - 1))),
            Some(p) => if p > 10 {
                Err(SpecBindingParseError::PrecisionOutOfRange)
            } else {
                Ok(SpecFilter::Number(p))
            },
        }
    } else {
        Err(SpecBindingParseError::UnsupportedFilter(s.subrange(a, b)))
    }
}

fn head_vec(number: bool) -> (r: Vec<char>)
    ensures
        r@ == (if number {
            number_head()
        } else {
            default_head()
        }),
{
    let mut v: Vec<char> = Vec::new();
    if number {
        v.push('n');
        v.push('u');
        v.push('m');
        v.push('b');
        v.push('e');
        v.push('r');
        v.push('(');
        assert(v@ =~= number_head());
    } else {
        v.push('d');
        v.push('e');
        v.push('f');
        v.push('a');
        v.push('u');
        v.push('l');
        v.push('t');
        v.push('(');
        assert(v@ =~= default_head());
    }
    v
}

fn parse_filter(s: &Vec<char>, a: usize, b: usize) -> (r: Result<Filter, BindingParseError>)
    requires
        a <= b <= s@.len(),
    ensures
        r matches Ok(f) ==> spec_parse_filter(s@, a as int, b as int) == Ok::<
            SpecFilter,
            SpecBindingParseError,
        >(f@),
        r matches Err(e) ==> spec_parse_filter(s@, a as int, b as int) == Err::<
            SpecFilter,
            SpecBindingParseError,
        >(e@),
{
    let default_pat = head_vec(false);
    if b - a >= 9 && occurs_at_exec(s, a, b, &default_pat) && s[b - 1] == ')' {
        return match parse_quoted(s, a + 8, b - 1) {
            Ok(text) => Ok(Filter::Default(text)),
            Err(e) => Err(e),
        };
    }
    let number_pat = head_vec(true);
    if b - a >= 8 && occurs_at_exec(s, a, b, &number_pat) && s[b - 1] == ')' {
        let (x, y) = trim_window(s, a + 7, b - 1);
        return match parse_usize(s, x, y) {
            None => Err(BindingParseError::PrecisionNotInteger(string_of(s, a + 7, b - 1))),
            Some(p) => if p > 10 {
                Err(BindingParseError::PrecisionOutOfRange)
            } else {
                Ok(Filter::Number(p))
            },
        };
    }
    Err(BindingParseError::UnsupportedFilter(string_of(s, a, b)))
}

/// Splits `lo..hi` at each `|` outside quotes; a backslash inside quotes
/// escapes the next character. The windows found so far are in `acc`; `start`
/// opens the current one. Fails when a quote is left open.
pub open spec fn split_scan(
    s: Seq<char>,
    i: int,
    hi: int,
    start: int,
    quote: Option<char>,
    escaped: bool,
    acc: Seq<(int, int)>,
) -> Result<Seq<(int, int)>, ()>
    decreases hi - i,
{
    if i >= hi {
        if quote is Some {
            Err(())
        } else {
            Ok(acc.push((start, hi)))
        }
    } else {
        let c = s[i];
        if escaped {
            split_scan(s, i + 1, hi, start, quote, false, acc)
        } else if c == '\\' && quote is Some {
            split_scan(s, i + 1, hi, start, quote, true, acc)
        } else if c == '"' || c == '\'' {
            let next = if quote == Some(c) {
                None
            } else if quote is None {
                Some(c)
            } else {
                quote
            };
            split_scan(s, i + 1, hi, start, next, false, acc)
        } else if c == '|' && quote is None {
            split_scan(s, i + 1, hi, i + 1, quote, false, acc.push((start, i)))
        } else {
            split_scan(s, i + 1, hi, start, quote, false, acc)
        }
    }
}

pub open spec fn windows_view(v: Seq<(usize, usize)>) -> Seq<(int, int)> {
    v.map_values(|w: (usize, usize)| (w.0 as int, w.1 as int))
}

pub open spec fn windows_within(w: Seq<(int, int)>, lo: int, hi: int) -> bool {
    forall|k: int| 0 <= k < w.len() ==> lo <= (#[trigger] w[k]).0 <= w[k].1 <= hi
}

proof fn lemma_split_scan(
    s: Seq<char>,
    i: int,
    hi: int,
    start: int,
    quote: Option<char>,
    escaped: bool,
    acc: Seq<(int, int)>,
    lo: int,
)
    requires
        lo <= start <= i,
        i <= hi || (start <= hi && i >= hi),
        windows_within(acc, lo, hi),
    ensures
        split_scan(s, i, hi, start, quote, escaped, acc) matches Ok(w) ==> windows_within(w, lo, hi)
            && w.len() >= 1,
    decreases hi - i,
{
    if i >= hi {
        if quote is None {
            assert(windows_within(acc.push((start, hi)), lo, hi));
        }
    } else {
        let c = s[i];
        if escaped {
            lemma_split_scan(s, i + 1, hi, start, quote, false, acc, lo);
        } else if c == '\\' && quote is Some {
            lemma_split_scan(s, i + 1, hi, start, quote, true, acc, lo);
        } else if c == '"' || c == '\'' {
            let next = if quote == Some(c) {
                None
            } else if quote is None {
                Some(c)
            } else {
                quote
            };
            lemma_split_scan(s, i + 1, hi, start, next, false, acc, lo);
        } else if c == '|' && quote is None {
            assert(windows_within(acc.push((start, i)), lo, hi));
            lemma_split_scan(s, i + 1, hi, i + 1, quote, false, acc.push((start, i)), lo);
        } else {
            lemma_split_scan(s, i + 1, hi, start, quote, false, acc, lo);
        }
    }
}

/// `w` cuts `lo..hi` into windows at `|` characters: the first window
/// starts at `lo`, each next one right after the `|` that ends the one
/// before, and the last ends at `hi`. Joining the windows with `|` gives
/// back the text of `lo..hi`.
pub open spec fn cuts_at_bars(s: Seq<char>, w: Seq<(int, int)>, lo: int, hi: int) -> bool {
    &&& w.len() >= 1
    &&& w[0].0 == lo
    &&& w.last().1 == hi
    &&& forall|k: int| 0 <= k < w.len() ==> (#[trigger] w[k]).0 <= w[k].1
    &&& forall|k: int|
        0 <= k < w.len() - 1 ==> s[(#[trigger] w[k]).1] == '|' && w[k + 1].0 == w[k].1 + 1
}

/// The windows cut so far cover `lo..start`, each ended by a `|`.
spec fn cut_so_far(s: Seq<char>, w: Seq<(int, int)>, lo: int, start: int) -> bool {
    &&& w.len() == 0 ==> start == lo
    &&& w.len() > 0 ==> w[0].0 == lo && s[w.last().1] == '|' && w.last().1 + 1 == start
    &&& forall|k: int| 0 <= k < w.len() ==> (#[trigger] w[k]).0 <= w[k].1
    &&& forall|k: int|
        0 <= k < w.len() - 1 ==> s[(#[trigger] w[k]).1] == '|' && w[k + 1].0 == w[k].1 + 1
}

proof fn lemma_split_cuts(
    s: Seq<char>,
    i: int,
    hi: int,
    start: int,
    quote: Option<char>,
    escaped: bool,
    acc: Seq<(int, int)>,
    lo: int,
)
    requires
        start <= i <= hi,
        cut_so_far(s, acc, lo, start),
    ensures
        split_scan(s, i, hi, start, quote, escaped, acc) matches Ok(w) ==> cuts_at_bars(s, w, lo, hi),
    decreases hi - i,
{
    if i >= hi {
        if quote is None {
            let w = acc.push((start, hi));
            assert forall|k: int| 0 <= k < w.len() - 1 implies s[(#[trigger] w[k]).1] == '|'
                && w[k + 1].0 == w[k].1 + 1 by {
                if k < acc.len() - 1 {
                    assert(w[k] == acc[k] && w[k + 1] == acc[k + 1]);
                }
            }
            assert forall|k: int| 0 <= k < w.len() implies (#[trigger] w[k]).0 <= w[k].1 by {
                if k < acc.len() {
                    assert(w[k] == acc[k]);
                }
            }
        }
    } else {
        let c = s[i];
        if escaped {
            lemma_split_cuts(s, i + 1, hi, start, quote, false, acc, lo);
        } else if c == '\\' && quote is Some {
            lemma_split_cuts(s, i + 1, hi, start, quote, true, acc, lo);
        } else if c == '"' || c == '\'' {
            let next = if quote == Some(c) {
                None
            } else if quote is None {
                Some(c)
            } else {
                quote
            };
            lemma_split_cuts(s, i + 1, hi, start, next, false, acc, lo);
        } else if c == '|' && quote is None {
            let w = acc.push((start, i));
            assert forall|k: int| 0 <= k < w.len() - 1 implies s[(#[trigger] w[k]).1] == '|'
                && w[k + 1].0 == w[k].1 + 1 by {
                if k < acc.len() - 1 {
                    assert(w[k] == acc[k] && w[k + 1] == acc[k + 1]);
                } else {
                    assert(w[k] == acc.last());
                }
            }
            assert forall|k: int| 0 <= k < w.len() implies (#[trigger] w[k]).0 <= w[k].1 by {
                if k < acc.len() {
                    assert(w[k] == acc[k]);
                }
            }
            lemma_split_cuts(s, i + 1, hi, i + 1, quote, false, w, lo);
        } else {
            lemma_split_cuts(s, i + 1, hi, start, quote, false, acc, lo);
        }
    }
}

/// Scanning `i..hi` as the filter splitter does: the number of `|` met
/// outside quotes, and the quote still open at the end. A `'` or `"` opens
/// a quote that only the same character closes; inside a quote a backslash
/// skips the next character.
pub open spec fn bars_outside_quotes(
    s: Seq<char>,
    i: int,
    hi: int,
    quote: Option<char>,
    escaped: bool,
) -> (nat, Option<char>)
    decreases hi - i,
{
    if i >= hi {
        (0, quote)
    } else {
        let c = s[i];
        if escaped {
            bars_outside_quotes(s, i + 1, hi, quote, false)
        } else if c == '\\' && quote is Some {
            bars_outside_quotes(s, i + 1, hi, quote, true)
        } else if c == '"' || c == '\'' {
            let next = if quote == Some(c) {
                None
            } else if quote is None {
                Some(c)
            } else {
                quote
            };
            bars_outside_quotes(s, i + 1, hi, next, false)
        } else if c == '|' && quote is None {
            let r = bars_outside_quotes(s, i + 1, hi, quote, false);
            (r.0 + 1, r.1)
        } else {
            bars_outside_quotes(s, i + 1, hi, quote, false)
        }
    }
}

proof fn lemma_split_count(
    s: Seq<char>,
    i: int,
    hi: int,
    start: int,
    quote: Option<char>,
    escaped: bool,
    acc: Seq<(int, int)>,
)
    ensures
        split_scan(s, i, hi, start, quote, escaped, acc) is Err <==> bars_outside_quotes(
            s,
            i,
            hi,
            quote,
            escaped,
        ).1 is Some,
        split_scan(s, i, hi, start, quote, escaped, acc) matches Ok(w) ==> w.len() == acc.len() + 1
            + bars_outside_quotes(s, i, hi, quote, escaped).0,
    decreases hi - i,
{
    if i < hi {
        let c = s[i];
        if escaped {
            lemma_split_count(s, i + 1, hi, start, quote, false, acc);
        } else if c == '\\' && quote is Some {
            lemma_split_count(s, i + 1, hi, start, quote, true, acc);
        } else if c == '"' || c == '\'' {
            let next = if quote == Some(c) {
                None
            } else if quote is None {
                Some(c)
            } else {
                quote
            };
            lemma_split_count(s, i + 1, hi, start, next, false, acc);
        } else if c == '|' && quote is None {
            lemma_split_count(s, i + 1, hi, i + 1, quote, false, acc.push((start, i)));
        } else {
            lemma_split_count(s, i + 1, hi, start, quote, false, acc);
        }
    }
}

/// Splitting a filter chain fails exactly when the text ends inside an open
/// quote; otherwise it gives one part more than there are `|` outside quotes.
pub proof fn law_filter_parts_count_the_bars(s: Seq<char>, lo: int, hi: int)
    ensures
        split_scan(s, lo, hi, lo, None, false, seq![]) is Err <==> bars_outside_quotes(
            s,
            lo,
            hi,
            None,
            false,
        ).1 is Some,
        split_scan(s, lo, hi, lo, None, false, seq![]) matches Ok(w) ==> w.len() == 1
            + bars_outside_quotes(s, lo, hi, None, false).0,
{
    lemma_split_count(s, lo, hi, lo, None, false, seq![]);
}

/// A filter chain is cut only at `|` characters and loses nothing: where
/// splitting succeeds, its windows run from `lo` to `hi`, one after the
/// other, separated by single `|` characters.
pub proof fn law_filters_split_at_bars(s: Seq<char>, lo: int, hi: int)
    requires
        lo <= hi,
    ensures
        split_scan(s, lo, hi, lo, None, false, seq![]) matches Ok(w) ==> cuts_at_bars(s, w, lo, hi),
{
    lemma_split_cuts(s, lo, hi, lo, None, false, seq![], lo);
}

fn split_filters(s: &Vec<char>, lo: usize, hi: usize) -> (r: Option<Vec<(usize, usize)>>)
    requires
        lo <= hi <= s@.len(),
    ensures
        r matches Some(w) ==> split_scan(s@, lo as int, hi as int, lo as int, None, false, seq![])
            == Ok::<Seq<(int, int)>, ()>(windows_view(w@)),
        r is None ==> split_scan(s@, lo as int, hi as int, lo as int, None, false, seq![]) is Err,
{
    let mut parts: Vec<(usize, usize)> = Vec::new();
    let mut start = lo;
    let mut quote: Option<char> = None;
    let mut escaped = false;
    let mut i = lo;
    proof {
        assert(windows_view(parts@) =~= seq![]);
    }
    while i < hi
        invariant
            lo <= start <= i <= hi <= s@.len(),
            split_scan(s@, lo as int, hi as int, lo as int, None, false, seq![]) == split_scan(
                s@,
                i as int,
                hi as int,
                start as int,
                quote,
                escaped,
                windows_view(parts@),
            ),
        decreases hi - i,
    {
        let c = s[i];
        if escaped {
            escaped = false;
        } else if c == '\\' && quote.is_some() {
            escaped = true;
        } else if c == '"' || c == '\'' {
            if quote == Some(c) {
                quote = None;
            } else if quote.is_none() {
                quote = Some(c);
            }
        } else if c == '|' && quote.is_none() {
            let ghost before = windows_view(parts@);
            parts.push((start, i));
            assert(windows_view(parts@) =~= before.push((start as int, i as int)));
            start = i + 1;
        }
        i += 1;
    }
    if quote.is_some() {
        return None;
    }
    let ghost before = windows_view(parts@);
    parts.push((start, hi));
    assert(windows_view(parts@) =~= before.push((start as int, hi as int)));
    Some(parts)
}

// ---------------------------------------------------------------------------
// Expressions and segments.

/// Parses the filters in the windows `parts[i..]`, appending to `acc`.
pub open spec fn parse_filters(s: Seq<char>, parts: Seq<(int, int)>, i: int, acc: Seq<SpecFilter>) -> Result<
    Seq<SpecFilter>,
    SpecBindingParseError,
>
    decreases parts.len() - i,
{
    if i >= parts.len() || i < 0 {
        Ok(acc)
    } else {
        let (x, y) = trimmed(s, parts[i].0, parts[i].1);
        match spec_parse_filter(s, x, y) {
            Ok(f) => parse_filters(s, parts, i + 1, acc.push(f)),
            Err(e) => Err(e),
        }
    }
}

/// The expression in the (trimmed) window `a..b`: a sensor key, then filters after `|`.
pub open spec fn spec_parse_expression(s: Seq<char>, a: int, b: int) -> Result<
    SpecExpression,
    SpecBindingParseError,
> {
    if a >= b {
        Err(SpecBindingParseError::MissingSensorKey)
    } else {
        match split_scan(s, a, b, a, None, false, seq![]) {
            Err(_) => Err(SpecBindingParseError::UnclosedQuote),
            Ok(parts) => {
                let (k0, k1) = trimmed(s, parts[0].0, parts[0].1);
                if k0 >= k1 {
                    Err(SpecBindingParseError::MissingSensorKey)
                } else {
                    match parse_filters(s, parts, 1, seq![]) {
                        Ok(filters) => Ok(SpecExpression { key: s.subrange(k0, k1), filters }),
                        Err(e) => Err(e),
                    }
                }
            },
        }
    }
}

pub open spec fn filters_view(v: Seq<Filter>) -> Seq<SpecFilter> {
    v.map_values(|f: Filter| f@)
}

fn parse_expression(s: &Vec<char>, a: usize, b: usize) -> (r: Result<
    Expression,
    BindingParseError,
>)
    requires
        a <= b <= s@.len(),
    ensures
        r matches Ok(e) ==> spec_parse_expression(s@, a as int, b as int) == Ok::<
            SpecExpression,
            SpecBindingParseError,
        >(e@),
        r matches Err(e) ==> spec_parse_expression(s@, a as int, b as int) == Err::<
            SpecExpression,
            SpecBindingParseError,
        >(e@),
{
    if a >= b {
        return Err(BindingParseError::MissingSensorKey);
    }
    let parts = match split_filters(s, a, b) {
        None => return Err(BindingParseError::UnclosedQuote),
        Some(parts) => parts,
    };
    proof {
        lemma_split_scan(s@, a as int, b as int, a as int, None, false, seq![], a as int);
    }
    assert(windows_view(parts@)[0] == (parts@[0].0 as int, parts@[0].1 as int));
    let (k0, k1) = trim_window(s, parts[0].0, parts[0].1);
    if k0 >= k1 {
        return Err(BindingParseError::MissingSensorKey);
    }
    let mut filters: Vec<Filter> = Vec::new();
    let mut i: usize = 1;
    proof {
        assert(filters_view(filters@) =~= seq![]);
    }
    while i < parts.len()
        invariant
            1 <= i <= parts@.len(),
            b <= s@.len(),
            windows_within(windows_view(parts@), a as int, b as int),
            a < b,
            k0 < k1,
            split_scan(s@, a as int, b as int, a as int, None, false, seq![]) == Ok::<
                Seq<(int, int)>,
                (),
            >(windows_view(parts@)),
            trimmed(s@, windows_view(parts@)[0].0, windows_view(parts@)[0].1) == (
                k0 as int,
                k1 as int,
            ),
            parse_filters(s@, windows_view(parts@), 1, seq![]) == parse_filters(
                s@,
                windows_view(parts@),
                i as int,
                filters_view(filters@),
            ),
        decreases parts@.len() - i,
    {
        assert(windows_view(parts@)[i as int] == (parts@[i as int].0 as int, parts@[i as int].1 as int));
        let (x, y) = trim_window(s, parts[i].0, parts[i].1);
        match parse_filter(s, x, y) {
            Ok(f) => {
                let ghost before = filters_view(filters@);
                filters.push(f);
                assert(filters_view(filters@) =~= before.push(f@));
            },
            Err(e) => return Err(e),
        }
        i += 1;
    }
    let key = string_of(s, k0, k1);
    let r = Expression { key, filters };
    assert(r@.filters == filters_view(filters@));
    Ok(r)
}

/// `{{`, which opens an expression, and `}}`, which closes it.
pub open spec fn open_delim() -> Seq<char> {
    seq!['{', '{']
}

pub open spec fn close_delim() -> Seq<char> {
    seq!['}', '}']
}

/// Parses `s[i..]` into segments, appending to `acc`.
pub open spec fn parse_segments(s: Seq<char>, i: int, acc: Seq<SpecSegment>) -> Result<
    Seq<SpecSegment>,
    SpecBindingParseError,
>
    decreases s.len() - i,
{
    if i < 0 || i > s.len() {
        Err(SpecBindingParseError::UnclosedExpression)
    } else {
        match find_from(s, i, s.len() as int, open_delim()) {
            Some(open) => {
                let acc1 = if open > i {
                    acc.push(SpecSegment::Literal(s.subrange(i, open)))
                } else {
                    acc
                };
                match find_from(s, open + 2, s.len() as int, close_delim()) {
                    None => Err(SpecBindingParseError::UnclosedExpression),
                    Some(close) => {
                        proof {
                            lemma_find_from(s, i, s.len() as int, open_delim());
                            lemma_find_from(s, open + 2, s.len() as int, close_delim());
                        }
                        let (x, y) = trimmed(s, open + 2, close);
                        match spec_parse_expression(s, x, y) {
                            Ok(e) => parse_segments(
                                s,
                                close + 2,
                                acc1.push(SpecSegment::Expression(e)),
                            ),
                            Err(e) => Err(e),
                        }
                    },
                }
            },
            None => if find_from(s, i, s.len() as int, close_delim()) is Some {
                Err(SpecBindingParseError::UnexpectedClosingDelimiter)
            } else {
                let acc1 = if i < s.len() {
                    acc.push(SpecSegment::Literal(s.subrange(i, s.len() as int)))
                } else {
                    acc
                };
                if acc1.len() == 0 {
                    Ok(seq![SpecSegment::Literal(seq![])])
                } else {
                    Ok(acc1)
                }
            },
        }
    }
}

/// The segments of a binding, or why it is rejected.
pub open spec fn spec_parse_binding(s: Seq<char>) -> Result<Seq<SpecSegment>, SpecBindingParseError> {
    parse_segments(s, 0, seq![])
}

pub open spec fn segments_view(v: Seq<Segment>) -> Seq<SpecSegment> {
    v.map_values(|segment: Segment| segment@)
}

pub(crate) fn delim_vec(close: bool) -> (r: Vec<char>)
    ensures
        r@ == (if close {
            close_delim()
        } else {
            open_delim()
        }),
{
    let mut v: Vec<char> = Vec::new();
    let c = if close {
        '}'
    } else {
        '{'
    };
    v.push(c);
    v.push(c);
    assert(v@ =~= (if close {
        close_delim()
    } else {
        open_delim()
    }));
    v
}

impl Binding {
    /// Parses text with `{{ key | filter }}` interpolations. Text without
    /// any gives one literal segment (an empty one for empty text).
    pub fn parse(input: &str) -> (r: Result<Binding, BindingParseError>)
        ensures
            r matches Ok(b) ==> spec_parse_binding(input@) == Ok::<
                Seq<SpecSegment>,
                SpecBindingParseError,
            >(b@),
            r matches Err(e) ==> spec_parse_binding(input@) == Err::<
                Seq<SpecSegment>,
                SpecBindingParseError,
            >(e@),
    {
        let s = chars_of(input);
        let open_pat = delim_vec(false);
        let close_pat = delim_vec(true);
        let mut segments: Vec<Segment> = Vec::new();
        let mut i: usize = 0;
        proof {
            assert(segments_view(segments@) =~= seq![]);
        }
        loop
            invariant
                i <= s@.len(),
                s@ == input@,
                open_pat@ == open_delim(),
                close_pat@ == close_delim(),
                spec_parse_binding(s@) == parse_segments(s@, i as int, segments_view(segments@)),
            decreases s@.len() - i,
        {
            proof {
                lemma_find_from(s@, i as int, s@.len() as int, open_delim());
            }
            match find_in(&s, i, s.len(), &open_pat) {
                Some(open) => {
                    if open > i {
                        let ghost before = segments_view(segments@);
                        let lit = string_of(&s, i, open);
                        segments.push(Segment::Literal(lit));
                        assert(segments_view(segments@) =~= before.push(
                            SpecSegment::Literal(s@.subrange(i as int, open as int)),
                        ));
                    }
                    proof {
                        lemma_find_from(s@, open + 2, s@.len() as int, close_delim());
                    }
                    let close = match find_in(&s, open + 2, s.len(), &close_pat) {
                        None => return Err(BindingParseError::UnclosedExpression),
                        Some(close) => close,
                    };
                    let (x, y) = trim_window(&s, open + 2, close);
                    match parse_expression(&s, x, y) {
                        Ok(e) => {
                            let ghost before = segments_view(segments@);
                            let ghost ev = e@;
                            segments.push(Segment::Expression(e));
                            assert(segments_view(segments@) =~= before.push(
                                SpecSegment::Expression(ev),
                            ));
                        },
                        Err(e) => return Err(e),
                    }
                    i = close + 2;
                },
                None => {
                    if find_in(&s, i, s.len(), &close_pat).is_some() {
                        return Err(BindingParseError::UnexpectedClosingDelimiter);
                    }
                    if i < s.len() {
                        let ghost before = segments_view(segments@);
                        let lit = string_of(&s, i, s.len());
                        segments.push(Segment::Literal(lit));
                        assert(segments_view(segments@) =~= before.push(
                            SpecSegment::Literal(s@.subrange(i as int, s@.len() as int)),
                        ));
                    }
                    if segments.len() == 0 {
                        segments.push(Segment::Literal(String::new()));
                        assert(segments_view(segments@) =~= seq![SpecSegment::Literal(seq![])]);
                    }
                    return Ok(Binding { segments });
                },
            }
        }
    }
}

// ---------------------------------------------------------------------------
// Sensor values.

/// Value of key `k` in a list of entries where a later entry wins.
pub open spec fn last_value_of(e: Seq<(Seq<char>, Seq<char>)>, k: Seq<char>, n: int) -> Option<
    Seq<char>,
>
    decreases n,
{
    if n <= 0 {
        None
    } else if e[n - 1].0 == k {
        Some(e[n - 1].1)
    } else {
        last_value_of(e, k, n - 1)
    }
}

pub open spec fn entries_map(e: Seq<(Seq<char>, Seq<char>)>) -> Map<Seq<char>, Seq<char>> {
    Map::new(
        |k: Seq<char>| last_value_of(e, k, e.len() as int) is Some,
        |k: Seq<char>| last_value_of(e, k, e.len() as int)->0,
    )
}

proof fn lemma_last_value_prefix(
    e: Seq<(Seq<char>, Seq<char>)>,
    x: (Seq<char>, Seq<char>),
    k: Seq<char>,
    n: int,
)
    requires
        0 <= n <= e.len(),
    ensures
        last_value_of(e.push(x), k, n) == last_value_of(e, k, n),
    decreases n,
{
    if n > 0 {
        assert(e.push(x)[n - 1] == e[n - 1]);
        lemma_last_value_prefix(e, x, k, n - 1);
    }
}

proof fn lemma_entries_map_push(e: Seq<(Seq<char>, Seq<char>)>, x: (Seq<char>, Seq<char>))
    ensures
        entries_map(e.push(x)) == entries_map(e).insert(x.0, x.1),
{
    assert forall|k: Seq<char>| #[trigger]
        last_value_of(e.push(x), k, e.len() + 1 as int) == (if k == x.0 {
            Some(x.1)
        } else {
            last_value_of(e, k, e.len() as int)
        }) by {
        lemma_last_value_prefix(e, x, k, e.len() as int);
    }
    assert(entries_map(e.push(x)) =~= entries_map(e).insert(x.0, x.1));
}

pub open spec fn pairs_view(v: Seq<(String, String)>) -> Seq<(Seq<char>, Seq<char>)> {
    v.map_values(|p: (String, String)| (p.0@, p.1@))
}

/// Sensor values by key, as the sensor source reports them.
#[derive(Debug)]
pub struct ValueMap {
    entries: Vec<(String, String)>,
}

impl View for ValueMap {
    type V = Map<Seq<char>, Seq<char>>;

    closed spec fn view(&self) -> Map<Seq<char>, Seq<char>> {
        entries_map(pairs_view(self.entries@))
    }
}

impl ValueMap {
    pub fn new() -> (m: ValueMap)
        ensures
            m@ == Map::<Seq<char>, Seq<char>>::empty(),
    {
        let m = ValueMap { entries: Vec::new() };
        assert(m@ =~= Map::<Seq<char>, Seq<char>>::empty());
        m
    }

    /// Sets `key` to `value`, replacing an earlier value.
    pub fn insert(&mut self, key: String, value: String)
        ensures
            final(self)@ == old(self)@.insert(key@, value@),
    {
        let ghost before = pairs_view(self.entries@);
        let ghost k = key@;
        let ghost v = value@;
        self.entries.push((key, value));
        proof {
            assert(pairs_view(self.entries@) =~= before.push((k, v)));
            lemma_entries_map_push(before, (k, v));
        }
    }

    /// Values from key and value pairs; a later pair wins over an earlier one.
    pub fn from_pairs(pairs: Vec<(String, String)>) -> (m: ValueMap)
        ensures
            m@ == entries_map(pairs_view(pairs@)),
    {
        ValueMap { entries: pairs }
    }

    /// The value of `key`, if there is one.
    pub fn get(&self, key: &String) -> (r: Option<String>)
        ensures
            r matches Some(v) ==> self@.contains_key(key@) && self@[key@] == v@,
            r is None ==> !self@.contains_key(key@),
    {
        let ghost e = pairs_view(self.entries@);
        let mut n = self.entries.len();
        while n > 0
            invariant
                n <= self.entries@.len(),
                e == pairs_view(self.entries@),
                last_value_of(e, key@, e.len() as int) == last_value_of(e, key@, n as int),
            decreases n,
        {
            if self.entries[n - 1].0 == *key {
                assert(e[n - 1] == (self.entries@[n - 1].0@, self.entries@[n - 1].1@));
                return Some(self.entries[n - 1].1.clone());
            }
            assert(e[n - 1] == (self.entries@[n - 1].0@, self.entries@[n - 1].1@));
            n -= 1;
        }
        None
    }
}

// ---------------------------------------------------------------------------
// Numbers for the `number(..)` filter.

/// What formatting a value as a number gave: the rounded text, or why
/// the value is not a finite number.
#[derive(Debug)]
pub enum NumberOutcome {
    Formatted(String),
    NotANumber,
    NotFinite,
}

pub enum SpecNumberOutcome {
    Formatted(Seq<char>),
    NotANumber,
    NotFinite,
}

impl View for NumberOutcome {
    type V = SpecNumberOutcome;

    open spec fn view(&self) -> SpecNumberOutcome {
        match self {
            NumberOutcome::Formatted(text) => SpecNumberOutcome::Formatted(text@),
            NumberOutcome::NotANumber => SpecNumberOutcome::NotANumber,
            NumberOutcome::NotFinite => SpecNumberOutcome::NotFinite,
        }
    }
}

impl NumberOutcome {
    fn duplicate(&self) -> (r: NumberOutcome)
        ensures
            r@ == self@,
    {
        match self {
            NumberOutcome::Formatted(text) => NumberOutcome::Formatted(text.clone()),
            NumberOutcome::NotANumber => NumberOutcome::NotANumber,
            NumberOutcome::NotFinite => NumberOutcome::NotFinite,
        }
    }
}

pub open spec fn last_outcome_of(
    e: Seq<(Seq<char>, nat, SpecNumberOutcome)>,
    k: (Seq<char>, nat),
    n: int,
) -> Option<SpecNumberOutcome>
    decreases n,
{
    if n <= 0 {
        None
    } else if (e[n - 1].0, e[n - 1].1) == k {
        Some(e[n - 1].2)
    } else {
        last_outcome_of(e, k, n - 1)
    }
}

pub open spec fn outcomes_map(e: Seq<(Seq<char>, nat, SpecNumberOutcome)>) -> Map<
    (Seq<char>, nat),
    SpecNumberOutcome,
> {
    Map::new(
        |k: (Seq<char>, nat)| last_outcome_of(e, k, e.len() as int) is Some,
        |k: (Seq<char>, nat)| last_outcome_of(e, k, e.len() as int)->0,
    )
}

proof fn lemma_last_outcome_prefix(
    e: Seq<(Seq<char>, nat, SpecNumberOutcome)>,
    x: (Seq<char>, nat, SpecNumberOutcome),
    k: (Seq<char>, nat),
    n: int,
)
    requires
        0 <= n <= e.len(),
    ensures
        last_outcome_of(e.push(x), k, n) == last_outcome_of(e, k, n),
    decreases n,
{
    if n > 0 {
        assert(e.push(x)[n - 1] == e[n - 1]);
        lemma_last_outcome_prefix(e, x, k, n - 1);
    }
}

pub open spec fn outcomes_view(v: Seq<(String, usize, NumberOutcome)>) -> Seq<
    (Seq<char>, nat, SpecNumberOutcome),
> {
    v.map_values(|p: (String, usize, NumberOutcome)| (p.0@, p.1 as nat, p.2@))
}

/// Number formatting results by value text and precision. They are computed
/// outside the library, where floating point is available, and handed in.
#[derive(Debug)]
pub struct NumberTable {
    entries: Vec<(String, usize, NumberOutcome)>,
}

impl View for NumberTable {
    type V = Map<(Seq<char>, nat), SpecNumberOutcome>;

    closed spec fn view(&self) -> Map<(Seq<char>, nat), SpecNumberOutcome> {
        outcomes_map(outcomes_view(self.entries@))
    }
}

impl NumberTable {
    pub fn new() -> (t: NumberTable)
        ensures
            t@ == Map::<(Seq<char>, nat), SpecNumberOutcome>::empty(),
    {
        let t = NumberTable { entries: Vec::new() };
        assert(t@ =~= Map::<(Seq<char>, nat), SpecNumberOutcome>::empty());
        t
    }

    /// Records what `raw` formats to with `precision` decimals.
    pub fn insert(&mut self, raw: String, precision: usize, outcome: NumberOutcome)
        ensures
            final(self)@ == old(self)@.insert((raw@, precision as nat), outcome@),
    {
        let ghost before = outcomes_view(self.entries@);
        let ghost x = (raw@, precision as nat, outcome@);
        self.entries.push((raw, precision, outcome));
        proof {
            assert(outcomes_view(self.entries@) =~= before.push(x));
            assert forall|k: (Seq<char>, nat)| #[trigger]
                last_outcome_of(before.push(x), k, before.len() + 1 as int) == (if k == (x.0, x.1) {
                    Some(x.2)
                } else {
                    last_outcome_of(before, k, before.len() as int)
                }) by {
                lemma_last_outcome_prefix(before, x, k, before.len() as int);
            }
            assert(outcomes_map(before.push(x)) =~= outcomes_map(before).insert((x.0, x.1), x.2));
        }
    }

    /// The recorded outcome for `raw` and `precision`, if any.
    pub fn get(&self, raw: &String, precision: usize) -> (r: Option<NumberOutcome>)
        ensures
            r matches Some(o) ==> self@.contains_key((raw@, precision as nat)) && self@[(
                raw@,
                precision as nat,
            )] == o@,
            r is None ==> !self@.contains_key((raw@, precision as nat)),
    {
        let ghost e = outcomes_view(self.entries@);
        let ghost k = (raw@, precision as nat);
        let mut n = self.entries.len();
        while n > 0
            invariant
                n <= self.entries@.len(),
                e == outcomes_view(self.entries@),
                k == (raw@, precision as nat),
                last_outcome_of(e, k, e.len() as int) == last_outcome_of(e, k, n as int),
            decreases n,
        {
            let entry = &self.entries[n - 1];
            assert(e[n - 1] == (entry.0@, entry.1 as nat, entry.2@));
            if entry.1 == precision && entry.0 == *raw {
                return Some(entry.2.duplicate());
            }
            n -= 1;
        }
        None
    }
}

// ---------------------------------------------------------------------------
// Resolution.

/// Why a value could not go through `number(..)`: the value as found.
#[derive(Debug)]
pub enum ResolveFailure {
    NotANumber(String),
    NotFinite(String),
}

pub enum SpecResolveFailure {
    NotANumber(Seq<char>),
    NotFinite(Seq<char>),
}

impl View for ResolveFailure {
    type V = SpecResolveFailure;

    open spec fn view(&self) -> SpecResolveFailure {
        match self {
            ResolveFailure::NotANumber(raw) => SpecResolveFailure::NotANumber(raw@),
            ResolveFailure::NotFinite(raw) => SpecResolveFailure::NotFinite(raw@),
        }
    }
}

/// A sensor value that a binding could not use.
#[derive(Debug)]
pub struct BindingResolveError {
    pub key: String,
    pub failure: ResolveFailure,
}

/// Where resolving a binding stands.
pub enum SpecResolution {
    /// The resolved text.
    Done(Seq<char>),
    /// The value text and precision whose number formatting is not in the table yet.
    Need(Seq<char>, nat),
    /// The sensor key and the value that failed.
    Fail(Seq<char>, SpecResolveFailure),
}

/// Resolving a binding: the text, the formatting that is still needed, or the error.
#[derive(Debug)]
pub enum Resolution {
    Resolved(String),
    NeedsNumber { raw: String, precision: usize },
    Failed(BindingResolveError),
}

impl View for Resolution {
    type V = SpecResolution;

    open spec fn view(&self) -> SpecResolution {
        match self {
            Resolution::Resolved(text) => SpecResolution::Done(text@),
            Resolution::NeedsNumber { raw, precision } => SpecResolution::Need(
                raw@,
                *precision as nat,
            ),
            Resolution::Failed(e) => SpecResolution::Fail(e.key@, e.failure@),
        }
    }
}

/// Applies `filters[i..]` to `value`: `default` fills a missing or empty
/// value; `number` replaces a present, non-empty value with its formatting.
/// A missing value ends as empty text.
pub open spec fn filter_scan(
    key: Seq<char>,
    filters: Seq<SpecFilter>,
    i: int,
    value: Option<Seq<char>>,
    numbers: Map<(Seq<char>, nat), SpecNumberOutcome>,
) -> SpecResolution
    decreases filters.len() - i,
{
    if i >= filters.len() || i < 0 {
        match value {
            Some(v) => SpecResolution::Done(v),
            None => SpecResolution::Done(seq![]),
        }
    } else {
        match filters[i] {
            SpecFilter::Default(fallback) => {
                let next = match value {
                    Some(v) => if v.len() == 0 {
                        Some(fallback)
                    } else {
                        value
                    },
                    None => Some(fallback),
                };
                filter_scan(key, filters, i + 1, next, numbers)
            },
            SpecFilter::Number(p) => match value {
                None => filter_scan(key, filters, i + 1, value, numbers),
                Some(raw) => if raw.len() == 0 {
                    filter_scan(key, filters, i + 1, value, numbers)
                } else if !numbers.contains_key((raw, p)) {
                    SpecResolution::Need(raw, p)
                } else {
                    match numbers[(raw, p)] {
                        SpecNumberOutcome::Formatted(text) => filter_scan(
                            key,
                            filters,
                            i + 1,
                            Some(text),
                            numbers,
                        ),
                        SpecNumberOutcome::NotANumber => SpecResolution::Fail(
                            key,
                            SpecResolveFailure::NotANumber(raw),
                        ),
                        SpecNumberOutcome::NotFinite => SpecResolution::Fail(
                            key,
                            SpecResolveFailure::NotFinite(raw),
                        ),
                    }
                },
            },
        }
    }
}

/// The value of one expression: the sensor's value put through the filters.
pub open spec fn expression_value(
    e: SpecExpression,
    values: Map<Seq<char>, Seq<char>>,
    numbers: Map<(Seq<char>, nat), SpecNumberOutcome>,
) -> SpecResolution {
    let start = if values.contains_key(e.key) {
        Some(values[e.key])
    } else {
        None
    };
    filter_scan(e.key, e.filters, 0, start, numbers)
}

/// Concatenates `segments[i..]` onto `acc`, stopping at the first expression
/// that needs a number or fails.
pub open spec fn segments_scan(
    segments: Seq<SpecSegment>,
    i: int,
    values: Map<Seq<char>, Seq<char>>,
    numbers: Map<(Seq<char>, nat), SpecNumberOutcome>,
    acc: Seq<char>,
) -> SpecResolution
    decreases segments.len() - i,
{
    if i >= segments.len() || i < 0 {
        SpecResolution::Done(acc)
    } else {
        match segments[i] {
            SpecSegment::Literal(text) => segments_scan(segments, i + 1, values, numbers, acc + text),
            SpecSegment::Expression(e) => match expression_value(e, values, numbers) {
                SpecResolution::Done(v) => segments_scan(segments, i + 1, values, numbers, acc + v),
                other => other,
            },
        }
    }
}

pub open spec fn spec_resolve(
    segments: Seq<SpecSegment>,
    values: Map<Seq<char>, Seq<char>>,
    numbers: Map<(Seq<char>, nat), SpecNumberOutcome>,
) -> SpecResolution {
    segments_scan(segments, 0, values, numbers, seq![])
}

impl Expression {
    fn resolve(&self, values: &ValueMap, numbers: &NumberTable) -> (r: Resolution)
        ensures
            r@ == expression_value(self@, values@, numbers@),
    {
        let mut value = values.get(&self.key);
        let mut i: usize = 0;
        while i < self.filters.len()
            invariant
                i <= self.filters@.len(),
                expression_value(self@, values@, numbers@) == filter_scan(
                    self.key@,
                    self@.filters,
                    i as int,
                    match value {
                        Some(v) => Some(v@),
                        None => None,
                    },
                    numbers@,
                ),
            decreases self.filters@.len() - i,
        {
            assert(self@.filters[i as int] == self.filters@[i as int]@);
            match &self.filters[i] {
                Filter::Default(fallback) => {
                    let missing = match &value {
                        Some(v) => v.as_str().is_empty(),
                        None => true,
                    };
                    if missing {
                        value = Some(fallback.clone());
                    }
                },
                Filter::Number(precision) => {
                    let formatted = match &value {
                        None => None,
                        Some(raw) => if raw.as_str().is_empty() {
                            None
                        } else {
                            match numbers.get(raw, *precision) {
                                None => {
                                    return Resolution::NeedsNumber {
                                        raw: raw.clone(),
                                        precision: *precision,
                                    };
                                },
                                Some(NumberOutcome::Formatted(text)) => Some(text),
                                Some(NumberOutcome::NotANumber) => {
                                    return Resolution::Failed(
                                        BindingResolveError {
                                            key: self.key.clone(),
                                            failure: ResolveFailure::NotANumber(raw.clone()),
                                        },
                                    );
                                },
                                Some(NumberOutcome::NotFinite) => {
                                    return Resolution::Failed(
                                        BindingResolveError {
                                            key: self.key.clone(),
                                            failure: ResolveFailure::NotFinite(raw.clone()),
                                        },
                                    );
                                },
                            }
                        },
                    };
                    if let Some(text) = formatted {
                        value = Some(text);
                    }
                },
            }
            i += 1;
        }
        match value {
            Some(v) => Resolution::Resolved(v),
            None => Resolution::Resolved(String::new()),
        }
    }
}

impl Binding {
    /// Resolves the binding against sensor values. A `number(..)` filter
    /// takes its result from `numbers`; where that has no entry yet, the
    /// value text and precision it needs are returned instead.
    pub fn resolve(&self, values: &ValueMap, numbers: &NumberTable) -> (r: Resolution)
        ensures
            r@ == spec_resolve(self@, values@, numbers@),
    {
        let mut out = String::new();
        let mut i: usize = 0;
        while i < self.segments.len()
            invariant
                i <= self.segments@.len(),
                spec_resolve(self@, values@, numbers@) == segments_scan(
                    self@,
                    i as int,
                    values@,
                    numbers@,
                    out@,
                ),
            decreases self.segments@.len() - i,
        {
            assert(self@[i as int] == self.segments@[i as int]@);
            match &self.segments[i] {
                Segment::Literal(text) => {
                    out.append(text.as_str());
                },
                Segment::Expression(e) => match e.resolve(values, numbers) {
                    Resolution::Resolved(v) => {
                        out.append(v.as_str());
                    },
                    other => {
                        return other;
                    },
                },
            }
            i += 1;
        }
        Resolution::Resolved(out)
    }
}

// ---------------------------------------------------------------------------
// Laws.

/// The literal text of a binding, with its expressions left out.
pub open spec fn literal_text(segments: Seq<SpecSegment>, i: int) -> Seq<char>
    decreases segments.len() - i,
{
    if i >= segments.len() || i < 0 {
        seq![]
    } else {
        match segments[i] {
            SpecSegment::Literal(text) => text + literal_text(segments, i + 1),
            SpecSegment::Expression(_) => literal_text(segments, i + 1),
        }
    }
}

pub open spec fn has_default(filters: Seq<SpecFilter>) -> bool {
    exists|k: int| 0 <= k < filters.len() && #[trigger] filters[k] is Default
}

proof fn lemma_filters_on_missing(
    key: Seq<char>,
    filters: Seq<SpecFilter>,
    i: int,
    numbers: Map<(Seq<char>, nat), SpecNumberOutcome>,
)
    requires
        0 <= i,
        !has_default(filters),
    ensures
        filter_scan(key, filters, i, None, numbers) == SpecResolution::Done(seq![]),
    decreases filters.len() - i,
{
    if i < filters.len() {
        assert(!(filters[i] is Default));
        lemma_filters_on_missing(key, filters, i + 1, numbers);
    }
}

proof fn lemma_segments_on_missing(
    segments: Seq<SpecSegment>,
    i: int,
    values: Map<Seq<char>, Seq<char>>,
    numbers: Map<(Seq<char>, nat), SpecNumberOutcome>,
    acc: Seq<char>,
)
    requires
        0 <= i,
        forall|k: int|
            0 <= k < segments.len() ==> (#[trigger] segments[k] matches SpecSegment::Expression(e)
                ==> !values.contains_key(e.key) && !has_default(e.filters)),
    ensures
        segments_scan(segments, i, values, numbers, acc) == SpecResolution::Done(
            acc + literal_text(segments, i),
        ),
    decreases segments.len() - i,
{
    if i >= segments.len() {
        assert(acc + seq![] =~= acc);
    } else {
        match segments[i] {
            SpecSegment::Literal(text) => {
                lemma_segments_on_missing(segments, i + 1, values, numbers, acc + text);
                assert(acc + text + literal_text(segments, i + 1) =~= acc + (text + literal_text(
                    segments,
                    i + 1,
                )));
            },
            SpecSegment::Expression(e) => {
                lemma_filters_on_missing(e.key, e.filters, 0, numbers);
                lemma_segments_on_missing(segments, i + 1, values, numbers, acc + seq![]);
                assert(acc + seq![] =~= acc);
            },
        }
    }
}

/// Missing sensor values resolve to empty text: a binding whose expressions
/// all name missing sensors and have no `default` filter resolves to its
/// literal text alone, whatever the number table holds.
pub proof fn law_missing_values_resolve_to_empty(
    segments: Seq<SpecSegment>,
    values: Map<Seq<char>, Seq<char>>,
    numbers: Map<(Seq<char>, nat), SpecNumberOutcome>,
)
    requires
        forall|k: int|
            0 <= k < segments.len() ==> (#[trigger] segments[k] matches SpecSegment::Expression(e)
                ==> !values.contains_key(e.key) && !has_default(e.filters)),
    ensures
        spec_resolve(segments, values, numbers) == SpecResolution::Done(literal_text(segments, 0)),
{
    lemma_segments_on_missing(segments, 0, values, numbers, seq![]);
    assert(seq![] + literal_text(segments, 0) =~= literal_text(segments, 0));
}

proof fn lemma_filter_need_absent(
    key: Seq<char>,
    filters: Seq<SpecFilter>,
    i: int,
    value: Option<Seq<char>>,
    numbers: Map<(Seq<char>, nat), SpecNumberOutcome>,
)
    ensures
        filter_scan(key, filters, i, value, numbers) matches SpecResolution::Need(raw, p)
            ==> !numbers.contains_key((raw, p)),
    decreases filters.len() - i,
{
    if 0 <= i < filters.len() {
        match filters[i] {
            SpecFilter::Default(fallback) => {
                let next = match value {
                    Some(v) => if v.len() == 0 {
                        Some(fallback)
                    } else {
                        value
                    },
                    None => Some(fallback),
                };
                lemma_filter_need_absent(key, filters, i + 1, next, numbers);
            },
            SpecFilter::Number(p) => {
                lemma_filter_need_absent(key, filters, i + 1, value, numbers);
                if let Some(raw) = value {
                    if raw.len() != 0 && numbers.contains_key((raw, p)) {
                        if let SpecNumberOutcome::Formatted(text) = numbers[(raw, p)] {
                            lemma_filter_need_absent(key, filters, i + 1, Some(text), numbers);
                        }
                    }
                }
            },
        }
    }
}

proof fn lemma_segments_need_absent(
    segments: Seq<SpecSegment>,
    i: int,
    values: Map<Seq<char>, Seq<char>>,
    numbers: Map<(Seq<char>, nat), SpecNumberOutcome>,
    acc: Seq<char>,
)
    ensures
        segments_scan(segments, i, values, numbers, acc) matches SpecResolution::Need(raw, p)
            ==> !numbers.contains_key((raw, p)),
    decreases segments.len() - i,
{
    if 0 <= i < segments.len() {
        match segments[i] {
            SpecSegment::Literal(text) => {
                lemma_segments_need_absent(segments, i + 1, values, numbers, acc + text);
            },
            SpecSegment::Expression(e) => {
                let start = if values.contains_key(e.key) {
                    Some(values[e.key])
                } else {
                    None
                };
                lemma_filter_need_absent(e.key, e.filters, 0, start, numbers);
                if let SpecResolution::Done(v) = expression_value(e, values, numbers) {
                    lemma_segments_need_absent(segments, i + 1, values, numbers, acc + v);
                }
            },
        }
    }
}

/// Resolution only asks for a number formatting that the table does not
/// hold yet, so recording each answer and resolving again makes progress.
pub proof fn law_needed_number_is_new(
    segments: Seq<SpecSegment>,
    values: Map<Seq<char>, Seq<char>>,
    numbers: Map<(Seq<char>, nat), SpecNumberOutcome>,
)
    ensures
        spec_resolve(segments, values, numbers) matches SpecResolution::Need(raw, p)
            ==> !numbers.contains_key((raw, p)),
{
    lemma_segments_need_absent(segments, 0, values, numbers, seq![]);
}

/// Text with neither `{{` nor `}}` parses to one literal segment holding
/// it, and so resolves to itself whatever the sensor values are.
pub proof fn law_plain_text_is_literal(
    s: Seq<char>,
    values: Map<Seq<char>, Seq<char>>,
    numbers: Map<(Seq<char>, nat), SpecNumberOutcome>,
)
    requires
        find_from(s, 0, s.len() as int, open_delim()) is None,
        find_from(s, 0, s.len() as int, close_delim()) is None,
    ensures
        spec_parse_binding(s) == Ok::<Seq<SpecSegment>, SpecBindingParseError>(
            seq![SpecSegment::Literal(s)],
        ),
        spec_resolve(seq![SpecSegment::Literal(s)], values, numbers) == SpecResolution::Done(s),
{
    assert(s.subrange(0, s.len() as int) =~= s);
    let one = seq![SpecSegment::Literal(s)];
    assert(segments_scan(one, 1, values, numbers, seq![] + s) == SpecResolution::Done(seq![] + s));
    assert(seq![] + s =~= s);
}

/// Whether two value maps agree on every sensor that the expressions among
/// `segments` name: both lack it, or both hold the same value for it.
pub open spec fn agree_on_named_keys(
    segments: Seq<SpecSegment>,
    v1: Map<Seq<char>, Seq<char>>,
    v2: Map<Seq<char>, Seq<char>>,
) -> bool {
    forall|k: int|
        0 <= k < segments.len() ==> (#[trigger] segments[k] matches SpecSegment::Expression(e)
            ==> v1.contains_key(e.key) == v2.contains_key(e.key) && (v1.contains_key(e.key)
            ==> v1[e.key] == v2[e.key]))
}

proof fn lemma_scan_named_keys(
    segments: Seq<SpecSegment>,
    i: int,
    v1: Map<Seq<char>, Seq<char>>,
    v2: Map<Seq<char>, Seq<char>>,
    numbers: Map<(Seq<char>, nat), SpecNumberOutcome>,
    acc: Seq<char>,
)
    requires
        agree_on_named_keys(segments, v1, v2),
    ensures
        segments_scan(segments, i, v1, numbers, acc) == segments_scan(segments, i, v2, numbers, acc),
    decreases segments.len() - i,
{
    if 0 <= i < segments.len() {
        match segments[i] {
            SpecSegment::Literal(text) => {
                lemma_scan_named_keys(segments, i + 1, v1, v2, numbers, acc + text);
            },
            SpecSegment::Expression(e) => {
                assert(expression_value(e, v1, numbers) == expression_value(e, v2, numbers));
                if let SpecResolution::Done(v) = expression_value(e, v1, numbers) {
                    lemma_scan_named_keys(segments, i + 1, v1, v2, numbers, acc + v);
                }
            },
        }
    }
}

/// A binding reads only the sensors that its expressions name: two value
/// maps that agree on those sensors give the same resolution.
pub proof fn law_resolution_reads_only_named_sensors(
    segments: Seq<SpecSegment>,
    v1: Map<Seq<char>, Seq<char>>,
    v2: Map<Seq<char>, Seq<char>>,
    numbers: Map<(Seq<char>, nat), SpecNumberOutcome>,
)
    requires
        agree_on_named_keys(segments, v1, v2),
    ensures
        spec_resolve(segments, v1, numbers) == spec_resolve(segments, v2, numbers),
{
    lemma_scan_named_keys(segments, 0, v1, v2, numbers, seq![]);
}

proof fn lemma_scan_tail(
    first: Seq<SpecSegment>,
    second: Seq<SpecSegment>,
    j: int,
    values: Map<Seq<char>, Seq<char>>,
    numbers: Map<(Seq<char>, nat), SpecNumberOutcome>,
    acc: Seq<char>,
)
    requires
        0 <= j,
    ensures
        segments_scan(first + second, first.len() + j, values, numbers, acc) == segments_scan(
            second,
            j,
            values,
            numbers,
            acc,
        ),
    decreases second.len() - j,
{
    if j < second.len() {
        assert((first + second)[first.len() + j] == second[j]);
        match second[j] {
            SpecSegment::Literal(text) => {
                lemma_scan_tail(first, second, j + 1, values, numbers, acc + text);
            },
            SpecSegment::Expression(e) => {
                if let SpecResolution::Done(v) = expression_value(e, values, numbers) {
                    lemma_scan_tail(first, second, j + 1, values, numbers, acc + v);
                }
            },
        }
    }
}

proof fn lemma_scan_concat(
    first: Seq<SpecSegment>,
    second: Seq<SpecSegment>,
    i: int,
    values: Map<Seq<char>, Seq<char>>,
    numbers: Map<(Seq<char>, nat), SpecNumberOutcome>,
    acc: Seq<char>,
)
    requires
        0 <= i <= first.len(),
    ensures
        segments_scan(first + second, i, values, numbers, acc) == match segments_scan(
            first,
            i,
            values,
            numbers,
            acc,
        ) {
            SpecResolution::Done(text) => segments_scan(second, 0, values, numbers, text),
            other => other,
        },
    decreases first.len() - i,
{
    if i == first.len() {
        lemma_scan_tail(first, second, 0, values, numbers, acc);
    } else {
        assert((first + second)[i] == first[i]);
        match first[i] {
            SpecSegment::Literal(text) => {
                lemma_scan_concat(first, second, i + 1, values, numbers, acc + text);
            },
            SpecSegment::Expression(e) => {
                if let SpecResolution::Done(v) = expression_value(e, values, numbers) {
                    lemma_scan_concat(first, second, i + 1, values, numbers, acc + v);
                }
            },
        }
    }
}

proof fn lemma_scan_shift(
    segments: Seq<SpecSegment>,
    i: int,
    values: Map<Seq<char>, Seq<char>>,
    numbers: Map<(Seq<char>, nat), SpecNumberOutcome>,
    prefix: Seq<char>,
    acc: Seq<char>,
)
    ensures
        segments_scan(segments, i, values, numbers, prefix + acc) == match segments_scan(
            segments,
            i,
            values,
            numbers,
            acc,
        ) {
            SpecResolution::Done(text) => SpecResolution::Done(prefix + text),
            other => other,
        },
    decreases segments.len() - i,
{
    if 0 <= i < segments.len() {
        match segments[i] {
            SpecSegment::Literal(text) => {
                assert(prefix + acc + text =~= prefix + (acc + text));
                lemma_scan_shift(segments, i + 1, values, numbers, prefix, acc + text);
            },
            SpecSegment::Expression(e) => {
                if let SpecResolution::Done(v) = expression_value(e, values, numbers) {
                    assert(prefix + acc + v =~= prefix + (acc + v));
                    lemma_scan_shift(segments, i + 1, values, numbers, prefix, acc + v);
                }
            },
        }
    }
}

/// Segments resolve in order: the segments of one binding followed by those
/// of another resolve to the first text followed by the second, or to the
/// first number request or failure met on the way.
pub proof fn law_resolution_concatenates(
    first: Seq<SpecSegment>,
    second: Seq<SpecSegment>,
    values: Map<Seq<char>, Seq<char>>,
    numbers: Map<(Seq<char>, nat), SpecNumberOutcome>,
)
    ensures
        spec_resolve(first + second, values, numbers) == match spec_resolve(first, values, numbers) {
            SpecResolution::Done(a) => match spec_resolve(second, values, numbers) {
                SpecResolution::Done(b) => SpecResolution::Done(a + b),
                other => other,
            },
            other => other,
        },
{
    lemma_scan_concat(first, second, 0, values, numbers, seq![]);
    if let SpecResolution::Done(a) = spec_resolve(first, values, numbers) {
        lemma_scan_shift(second, 0, values, numbers, a, seq![]);
        assert(a + seq![] =~= a);
    }
}

proof fn lemma_filter_scan_shift(
    key: Seq<char>,
    first: SpecFilter,
    rest: Seq<SpecFilter>,
    i: int,
    value: Option<Seq<char>>,
    numbers: Map<(Seq<char>, nat), SpecNumberOutcome>,
)
    requires
        0 <= i,
    ensures
        filter_scan(key, seq![first] + rest, i + 1, value, numbers) == filter_scan(
            key,
            rest,
            i,
            value,
            numbers,
        ),
    decreases rest.len() - i,
{
    let all = seq![first] + rest;
    if i < rest.len() {
        assert(all[i + 1] == rest[i]);
        match rest[i] {
            SpecFilter::Default(fallback) => {
                let next = match value {
                    Some(v) => if v.len() == 0 {
                        Some(fallback)
                    } else {
                        value
                    },
                    None => Some(fallback),
                };
                lemma_filter_scan_shift(key, first, rest, i + 1, next, numbers);
            },
            SpecFilter::Number(p) => {
                lemma_filter_scan_shift(key, first, rest, i + 1, value, numbers);
                if let Some(raw) = value {
                    if raw.len() > 0 && numbers.contains_key((raw, p)) {
                        if let SpecNumberOutcome::Formatted(text) = numbers[(raw, p)] {
                            lemma_filter_scan_shift(key, first, rest, i + 1, Some(text), numbers);
                        }
                    }
                }
            },
        }
    }
}

/// Filters apply one after another, and `number` passes a missing or empty
/// value on untouched: for a sensor that is missing or empty, `number(p)`
/// followed by any filters resolves as those filters alone. So
/// `{{ key | number(p) | default("t") }}` gives `t` for a missing sensor.
pub proof fn law_number_passes_missing_values_on(
    key: Seq<char>,
    p: nat,
    rest: Seq<SpecFilter>,
    fallback: Seq<char>,
    values: Map<Seq<char>, Seq<char>>,
    numbers: Map<(Seq<char>, nat), SpecNumberOutcome>,
)
    requires
        !values.contains_key(key) || values[key].len() == 0,
    ensures
        expression_value(
            SpecExpression { key, filters: seq![SpecFilter::Number(p)] + rest },
            values,
            numbers,
        ) == expression_value(SpecExpression { key, filters: rest }, values, numbers),
        expression_value(
            SpecExpression {
                key,
                filters: seq![SpecFilter::Number(p), SpecFilter::Default(fallback)],
            },
            values,
            numbers,
        ) == SpecResolution::Done(fallback),
{
    let start = if values.contains_key(key) {
        Some(values[key])
    } else {
        None
    };
    lemma_filter_scan_shift(key, SpecFilter::Number(p), rest, 0, start, numbers);
    let two = seq![SpecFilter::Default(fallback)];
    lemma_filter_scan_shift(key, SpecFilter::Number(p), two, 0, start, numbers);
    assert(seq![SpecFilter::Number(p)] + two =~= seq![
        SpecFilter::Number(p),
        SpecFilter::Default(fallback),
    ]);
    assert(filter_scan(key, two, 1, Some(fallback), numbers) == SpecResolution::Done(fallback));
}

/// The `default` filter: an expression `{{ key | default("text") }}` gives
/// the sensor's value where it is present and not empty, and the fallback
/// text where it is missing or empty.
pub proof fn law_default_fills_missing_or_empty(
    key: Seq<char>,
    fallback: Seq<char>,
    values: Map<Seq<char>, Seq<char>>,
    numbers: Map<(Seq<char>, nat), SpecNumberOutcome>,
)
    ensures
        spec_resolve(
            seq![SpecSegment::Expression(SpecExpression { key, filters: seq![SpecFilter::Default(fallback)] })],
            values,
            numbers,
        ) == SpecResolution::Done(
            if values.contains_key(key) && values[key].len() > 0 {
                values[key]
            } else {
                fallback
            },
        ),
{
    let fs = seq![SpecFilter::Default(fallback)];
    let e = SpecExpression { key, filters: fs };
    let segs = seq![SpecSegment::Expression(e)];
    let start = if values.contains_key(key) { Some(values[key]) } else { None };
    let next = match start {
        Some(v) => if v.len() == 0 { Some(fallback) } else { start },
        None => Some(fallback),
    };
    assert(filter_scan(key, fs, 1, next, numbers) == SpecResolution::Done(next->0));
    let v = next->0;
    assert(segments_scan(segs, 1, values, numbers, seq![] + v) == SpecResolution::Done(seq![] + v));
    assert(seq![] + v =~= v);
}

/// The `number` filter: `{{ key | number(p) }}` gives empty text for a
/// missing or empty value; otherwise it asks for the formatting of the value
/// until the table holds it, then gives the formatted text, or fails naming
/// the sensor and the value when the value is not a (finite) number.
pub proof fn law_number_filter(
    key: Seq<char>,
    p: nat,
    values: Map<Seq<char>, Seq<char>>,
    numbers: Map<(Seq<char>, nat), SpecNumberOutcome>,
)
    ensures
        ({
            let r = spec_resolve(
                seq![SpecSegment::Expression(SpecExpression { key, filters: seq![SpecFilter::Number(p)] })],
                values,
                numbers,
            );
            if !values.contains_key(key) || values[key].len() == 0 {
                r == SpecResolution::Done(seq![])
            } else {
                let raw = values[key];
                if !numbers.contains_key((raw, p)) {
                    r == SpecResolution::Need(raw, p)
                } else {
                    match numbers[(raw, p)] {
                        SpecNumberOutcome::Formatted(text) => r == SpecResolution::Done(text),
                        SpecNumberOutcome::NotANumber => r == SpecResolution::Fail(
                            key,
                            SpecResolveFailure::NotANumber(raw),
                        ),
                        SpecNumberOutcome::NotFinite => r == SpecResolution::Fail(
                            key,
                            SpecResolveFailure::NotFinite(raw),
                        ),
                    }
                }
            }
        }),
{
    let fs = seq![SpecFilter::Number(p)];
    let e = SpecExpression { key, filters: fs };
    let segs = seq![SpecSegment::Expression(e)];
    let start = if values.contains_key(key) { Some(values[key]) } else { None };
    assert(filter_scan(key, fs, 1, start, numbers) == SpecResolution::Done(
        match start { Some(v) => v, None => seq![] },
    ));
    if values.contains_key(key) && values[key].len() > 0 && numbers.contains_key((values[key], p)) {
        if let SpecNumberOutcome::Formatted(text) = numbers[(values[key], p)] {
            assert(filter_scan(key, fs, 1, Some(text), numbers) == SpecResolution::Done(text));
        }
    }
    if let SpecResolution::Done(v) = expression_value(e, values, numbers) {
        assert(segments_scan(segs, 1, values, numbers, seq![] + v) == SpecResolution::Done(seq![] + v));
        assert(seq![] + v =~= v);
    }
}

/// The message that describes a binding syntax error.
pub open spec fn binding_parse_message(e: SpecBindingParseError) -> Seq<char> {
    match e {
        SpecBindingParseError::UnclosedExpression => "unclosed binding expression"@,
        SpecBindingParseError::UnexpectedClosingDelimiter => "binding expression has an unexpected closing delimiter"@,
        SpecBindingParseError::MissingSensorKey => "binding expression requires a sensor key"@,
        SpecBindingParseError::UnclosedQuote => "binding filter contains an unclosed quoted string"@,
        SpecBindingParseError::DefaultRequiresQuotedString => "default filter requires a quoted string"@,
        SpecBindingParseError::TrailingEscape => "default string ends with an escape character"@,
        SpecBindingParseError::UnsupportedEscape(c) => "unsupported escape sequence \\"@.push(c),
        SpecBindingParseError::PrecisionNotInteger(t) => "number filter requires a non-negative integer, got "@
            + debug_quoted(t),
        SpecBindingParseError::PrecisionOutOfRange => "number filter precision must be between 0 and 10"@,
        SpecBindingParseError::UnsupportedFilter(t) => "unsupported binding filter "@ + debug_quoted(t)
            + "; expected default(\"value\") or number(digits)"@,
    }
}

impl BindingParseError {
    /// The message that describes the error.
    pub fn message(&self) -> (r: String)
        ensures
            r@ == binding_parse_message(self@),
    {
        let mut m = String::new();
        match self {
            BindingParseError::UnclosedExpression => {
                m.append("unclosed binding expression");
            },
            BindingParseError::UnexpectedClosingDelimiter => {
                m.append("binding expression has an unexpected closing delimiter");
            },
            BindingParseError::MissingSensorKey => {
                m.append("binding expression requires a sensor key");
            },
            BindingParseError::UnclosedQuote => {
                m.append("binding filter contains an unclosed quoted string");
            },
            BindingParseError::DefaultRequiresQuotedString => {
                m.append("default filter requires a quoted string");
            },
            BindingParseError::TrailingEscape => {
                m.append("default string ends with an escape character");
            },
            BindingParseError::UnsupportedEscape(c) => {
                m.append("unsupported escape sequence \\");
                push_char(&mut m, *c);
            },
            BindingParseError::PrecisionNotInteger(t) => {
                m.append("number filter requires a non-negative integer, got ");
                m.append(quoted(t).as_str());
            },
            BindingParseError::PrecisionOutOfRange => {
                m.append("number filter precision must be between 0 and 10");
            },
            BindingParseError::UnsupportedFilter(t) => {
                m.append("unsupported binding filter ");
                m.append(quoted(t).as_str());
                m.append("; expected default(\"value\") or number(digits)");
            },
        }
        m
    }
}

/// The message that describes a failed resolution.
pub open spec fn binding_resolve_message(key: Seq<char>, f: SpecResolveFailure) -> Seq<char> {
    "sensor "@ + debug_quoted(key) + ": "@ + match f {
        SpecResolveFailure::NotANumber(raw) => "expected a number, got "@ + debug_quoted(raw),
        SpecResolveFailure::NotFinite(raw) => "expected a finite number, got "@ + debug_quoted(raw),
    }
}

impl BindingResolveError {
    /// The message that describes the error.
    pub fn message(&self) -> (r: String)
        ensures
            r@ == binding_resolve_message(self.key@, self.failure@),
    {
        let mut m = String::new();
        m.append("sensor ");
        m.append(quoted(&self.key).as_str());
        m.append(": ");
        match &self.failure {
            ResolveFailure::NotANumber(raw) => {
                m.append("expected a number, got ");
                m.append(quoted(raw).as_str());
            },
            ResolveFailure::NotFinite(raw) => {
                m.append("expected a finite number, got ");
                m.append(quoted(raw).as_str());
            },
        }
        m
    }
}

/// Every `number(..)` filter rounds to at most ten decimals.
pub open spec fn filters_within_precision(fs: Seq<SpecFilter>) -> bool {
    forall|j: int| 0 <= j < fs.len() && #[trigger] fs[j] is Number ==> fs[j]->Number_0 <= 10
}

/// Every `number(..)` filter of every expression rounds to at most ten decimals.
pub open spec fn segments_within_precision(segs: Seq<SpecSegment>) -> bool {
    forall|i: int|
        0 <= i < segs.len() && #[trigger] segs[i] is Expression ==> filters_within_precision(
            segs[i]->Expression_0.filters,
        )
}

proof fn lemma_filters_within_precision(
    s: Seq<char>,
    parts: Seq<(int, int)>,
    i: int,
    acc: Seq<SpecFilter>,
)
    requires
        parse_filters(s, parts, i, acc) is Ok,
        filters_within_precision(acc),
    ensures
        filters_within_precision(parse_filters(s, parts, i, acc)->Ok_0),
    decreases parts.len() - i,
{
    if !(i >= parts.len() || i < 0) {
        let (x, y) = trimmed(s, parts[i].0, parts[i].1);
        let f = spec_parse_filter(s, x, y)->Ok_0;
        assert(filters_within_precision(acc.push(f))) by {
            assert forall|j: int| 0 <= j < acc.push(f).len() && #[trigger] acc.push(f)[j] is Number implies acc.push(
                f,
            )[j]->Number_0 <= 10 by {
                if j < acc.len() {
                    assert(acc.push(f)[j] == acc[j]);
                }
            }
        }
        lemma_filters_within_precision(s, parts, i + 1, acc.push(f));
    }
}

proof fn lemma_segments_within_precision(s: Seq<char>, i: int, acc: Seq<SpecSegment>)
    requires
        parse_segments(s, i, acc) is Ok,
        segments_within_precision(acc),
    ensures
        segments_within_precision(parse_segments(s, i, acc)->Ok_0),
    decreases s.len() - i,
{
    if !(i < 0 || i > s.len()) {
        match find_from(s, i, s.len() as int, open_delim()) {
            Some(open) => {
                let acc1 = if open > i {
                    acc.push(SpecSegment::Literal(s.subrange(i, open)))
                } else {
                    acc
                };
                assert(segments_within_precision(acc1)) by {
                    assert forall|k: int| 0 <= k < acc1.len() && #[trigger] acc1[k] is Expression implies filters_within_precision(
                        acc1[k]->Expression_0.filters,
                    ) by {
                        if k < acc.len() {
                            assert(acc1[k] == acc[k]);
                        }
                    }
                }
                let close = find_from(s, open + 2, s.len() as int, close_delim())->0;
                lemma_find_from(s, i, s.len() as int, open_delim());
                lemma_find_from(s, open + 2, s.len() as int, close_delim());
                let (x, y) = trimmed(s, open + 2, close);
                let e = spec_parse_expression(s, x, y)->Ok_0;
                let parts = split_scan(s, x, y, x, None, false, seq![])->Ok_0;
                lemma_filters_within_precision(s, parts, 1, seq![]);
                let acc2 = acc1.push(SpecSegment::Expression(e));
                assert(segments_within_precision(acc2)) by {
                    assert forall|k: int| 0 <= k < acc2.len() && #[trigger] acc2[k] is Expression implies filters_within_precision(
                        acc2[k]->Expression_0.filters,
                    ) by {
                        if k < acc1.len() {
                            assert(acc2[k] == acc1[k]);
                        }
                    }
                }
                lemma_segments_within_precision(s, close + 2, acc2);
            },
            None => {
                let acc1 = if i < s.len() {
                    acc.push(SpecSegment::Literal(s.subrange(i, s.len() as int)))
                } else {
                    acc
                };
                assert(segments_within_precision(acc1)) by {
                    assert forall|k: int| 0 <= k < acc1.len() && #[trigger] acc1[k] is Expression implies filters_within_precision(
                        acc1[k]->Expression_0.filters,
                    ) by {
                        if k < acc.len() {
                            assert(acc1[k] == acc[k]);
                        }
                    }
                }
                assert(segments_within_precision(seq![SpecSegment::Literal(seq![])]));
            },
        }
    }
}

/// The `number` filter rounds to 0 through 10 decimal places: in every
/// binding that parses, each `number(..)` filter has a precision of at most ten.
pub proof fn law_number_precision_is_at_most_ten(s: Seq<char>)
    requires
        spec_parse_binding(s) is Ok,
    ensures
        segments_within_precision(spec_parse_binding(s)->Ok_0),
{
    assert(segments_within_precision(Seq::<SpecSegment>::empty()));
    lemma_segments_within_precision(s, 0, seq![]);
}

/// The values of a sensor file from index `i` on, added to `m`: each line
/// `key: value` sets the key to the value, both trimmed; lines without a
/// colon are skipped, and a later line wins over an earlier one.
pub open spec fn sensor_values(s: Seq<char>, i: int, m: Map<Seq<char>, Seq<char>>) -> Map<
    Seq<char>,
    Seq<char>,
>
    decreases s.len() + 1 - i,
{
    if i < 0 || i >= s.len() {
        m
    } else {
        let e = char_end(s, i, s.len() as int, '\n');
        let c = char_end(s, i, e, ':');
        let m2 = if c < e {
            m.insert(
                s.subrange(trimmed(s, i, c).0, trimmed(s, i, c).1),
                s.subrange(trimmed(s, c + 1, e).0, trimmed(s, c + 1, e).1),
            )
        } else {
            m
        };
        proof {
            lemma_char_end(s, i, s.len() as int, '\n');
        }
        sensor_values(s, e + 1, m2)
    }
}

impl ValueMap {
    /// The values of a sensor file of `key: value` lines.
    pub fn from_sensor_text(text: &str) -> (m: ValueMap)
        ensures
            m@ == sensor_values(text@, 0, Map::<Seq<char>, Seq<char>>::empty()),
    {
        let s = chars_of(text);
        let n = s.len();
        let mut m = ValueMap::new();
        let mut i: usize = 0;
        while i < n
            invariant
                n == s@.len(),
                s@ == text@,
                i <= n + 1,
                sensor_values(text@, 0, Map::<Seq<char>, Seq<char>>::empty()) == sensor_values(
                    s@,
                    i as int,
                    m@,
                ),
            decreases n + 1 - i,
        {
            let ghost before = m@;
            let e = char_end_exec(&s, i, n, '\n');
            let c = char_end_exec(&s, i, e, ':');
            if c < e {
                let (k0, k1) = trim_window(&s, i, c);
                let (v0, v1) = trim_window(&s, c + 1, e);
                m.insert(string_of(&s, k0, k1), string_of(&s, v0, v1));
            }
            assert(sensor_values(s@, i as int, before) == sensor_values(s@, e + 1, m@));
            if e >= n {
                assert(sensor_values(s@, e + 1, m@) == m@);
                return m;
            }
            i = e + 1;
        }
        m
    }
}

/// A character with no part in the binding syntax: neither a brace, a
/// quote, a backslash nor a `|`.
pub open spec fn plain_char(c: char) -> bool {
    c != '{' && c != '}' && c != '"' && c != '\'' && c != '\\' && c != '|'
}

proof fn lemma_split_plain(
    s: Seq<char>,
    i: int,
    m: int,
    hi: int,
    start: int,
    quote: Option<char>,
    acc: Seq<(int, int)>,
)
    requires
        i <= m <= hi,
        forall|j: int| i <= j < m ==> plain_char(#[trigger] s[j]),
    ensures
        split_scan(s, i, hi, start, quote, false, acc) == split_scan(s, m, hi, start, quote, false, acc),
    decreases m - i,
{
    if i < m {
        assert(plain_char(s[i]));
        lemma_split_plain(s, i + 1, m, hi, start, quote, acc);
    }
}

proof fn lemma_unescape_plain(s: Seq<char>, i: int, hi: int, acc: Seq<char>)
    requires
        0 <= i <= hi <= s.len(),
        forall|j: int| i <= j < hi ==> #[trigger] s[j] != '\\',
    ensures
        unescape(s, i, hi, acc) == Ok::<Seq<char>, SpecBindingParseError>(acc + s.subrange(i, hi)),
    decreases hi - i,
{
    if i < hi {
        lemma_unescape_plain(s, i + 1, hi, acc.push(s[i]));
        assert(acc.push(s[i]) + s.subrange(i + 1, hi) =~= acc + s.subrange(i, hi));
    } else {
        assert(acc + s.subrange(i, hi) =~= acc);
    }
}

/// The text `{{ key | default("fallback") }}`.
pub open spec fn default_binding_text(key: Seq<char>, fallback: Seq<char>) -> Seq<char> {
    seq!['{', '{', ' '] + key + seq![' ', '|', ' '] + default_head() + seq!['"'] + fallback
        + seq!['"', ')', ' ', '}', '}']
}

proof fn lemma_default_text_chars(key: Seq<char>, fallback: Seq<char>)
    requires
        is_name(key),
        forall|j: int| 0 <= j < fallback.len() ==> plain_char(#[trigger] fallback[j]),
    ensures
        ({
            let t = default_binding_text(key, fallback);
            let k = key.len() as int;
            let f = fallback.len() as int;
            let n = t.len() as int;
            &&& k > 0
            &&& n == 20 + k + f
            &&& t.subrange(0, 2) == open_delim()
            &&& t.subrange(n - 2, n) == close_delim()
            &&& t.subrange(3, 3 + k) == key
            &&& t.subrange(6 + k, 14 + k) == default_head()
            &&& t.subrange(15 + k, 15 + k + f) == fallback
            &&& is_space(t[2]) && !is_space(t[3]) && is_space(t[3 + k]) && !is_space(t[2 + k])
            &&& is_space(t[5 + k]) && !is_space(t[6 + k])
            &&& t[14 + k] == '"' && t[15 + k + f] == '"' && t[16 + k + f] == ')'
            &&& is_space(t[17 + k + f])
            &&& forall|j: int| 2 <= j < n - 2 ==> #[trigger] t[j] != '}' && t[j] != '{'
            &&& forall|j: int| 3 <= j < 4 + k ==> plain_char(#[trigger] t[j])
            &&& forall|j: int| 5 + k <= j < 14 + k ==> plain_char(#[trigger] t[j])
            &&& forall|j: int| 15 + k <= j < 15 + k + f ==> plain_char(#[trigger] t[j])
            &&& forall|j: int| 15 + k <= j < 15 + k + f ==> #[trigger] t[j] != '\\'
        }),
{
    let t = default_binding_text(key, fallback);
    let k = key.len() as int;
    let f = fallback.len() as int;
    let n = t.len() as int;
    assert forall|j: int| 0 <= j < k implies t[3 + j] == key[j] by {}
    assert forall|j: int| 0 <= j < f implies t[15 + k + j] == fallback[j] by {}
    assert forall|j: int| 0 <= j < 8 implies t[6 + k + j] == default_head()[j] by {}
    assert(t.subrange(0, 2) =~= open_delim());
    assert(t.subrange(n - 2, n) =~= close_delim());
    assert(t.subrange(3, 3 + k) =~= key);
    assert(t.subrange(6 + k, 14 + k) =~= default_head());
    assert(t.subrange(15 + k, 15 + k + f) =~= fallback);
    assert(is_name_char(key[0]) && is_name_char(key[k - 1]));
    assert forall|j: int| 3 <= j < 4 + k implies plain_char(#[trigger] t[j]) by {
        if j < 3 + k {
            assert(is_name_char(key[j - 3]));
        }
    }
    assert forall|j: int| 5 + k <= j < 14 + k implies plain_char(#[trigger] t[j]) by {
        if j >= 6 + k {
            assert(t[j] == default_head()[j - 6 - k]);
        }
    }
    assert forall|j: int| 15 + k <= j < 15 + k + f implies plain_char(#[trigger] t[j]) by {
        assert(plain_char(fallback[j - 15 - k]));
    }
    assert forall|j: int| 2 <= j < n - 2 implies #[trigger] t[j] != '}' && t[j] != '{' by {
        if 3 <= j < 4 + k {
            assert(plain_char(t[j]));
        } else if 5 + k <= j < 14 + k {
            assert(plain_char(t[j]));
        } else if 15 + k <= j < 15 + k + f {
            assert(plain_char(t[j]));
        }
    }
}

proof fn lemma_default_text_window(key: Seq<char>, fallback: Seq<char>)
    requires
        is_name(key),
        forall|j: int| 0 <= j < fallback.len() ==> plain_char(#[trigger] fallback[j]),
    ensures
        ({
            let t = default_binding_text(key, fallback);
            let n = t.len() as int;
            &&& find_from(t, 0, n, open_delim()) == Some(0int)
            &&& find_from(t, 2, n, close_delim()) == Some(n - 2)
            &&& trimmed(t, 2, n - 2) == (3int, n - 3)
        }),
{
    lemma_default_text_chars(key, fallback);
    let t = default_binding_text(key, fallback);
    let n = t.len() as int;
    lemma_find_at(t, 0, 0, n, open_delim());
    assert forall|j: int| 2 <= j < n - 2 implies !occurs_at(t, j, close_delim()) by {
        assert(t.subrange(j, j + 2)[0] == t[j]);
    }
    lemma_find_at(t, 2, n - 2, n, close_delim());
    assert(t[n - 4] == ')');
    lemma_trim_lo_at(t, 2, 3, n - 2);
    lemma_trim_hi_at(t, 3, n - 3, n - 2);
}

proof fn lemma_default_text_expression(key: Seq<char>, fallback: Seq<char>)
    requires
        is_name(key),
        forall|j: int| 0 <= j < fallback.len() ==> plain_char(#[trigger] fallback[j]),
    ensures
        ({
            let t = default_binding_text(key, fallback);
            let n = t.len() as int;
            spec_parse_expression(t, 3, n - 3) == Ok::<SpecExpression, SpecBindingParseError>(
                SpecExpression { key, filters: seq![SpecFilter::Default(fallback)] },
            )
        }),
{
    lemma_default_text_chars(key, fallback);
    let t = default_binding_text(key, fallback);
    let k = key.len() as int;
    let f = fallback.len() as int;
    let n = t.len() as int;
    lemma_split_plain(t, 3, 4 + k, n - 3, 3, None, seq![]);
    let w1 = seq![(3int, 4 + k)];
    assert(seq![].push((3int, 4 + k)) =~= w1);
    lemma_split_plain(t, 5 + k, 14 + k, n - 3, 5 + k, None, w1);
    lemma_split_plain(t, 15 + k, 15 + k + f, n - 3, 5 + k, Some('"'), w1);
    let parts = w1.push((5 + k, n - 3));
    assert(t[4 + k] == '|');
    assert(split_scan(t, 4 + k, n - 3, 3, None, false, seq![]) == split_scan(
        t,
        5 + k,
        n - 3,
        5 + k,
        None,
        false,
        w1,
    ));
    assert(split_scan(t, 14 + k, n - 3, 5 + k, None, false, w1) == split_scan(
        t,
        15 + k,
        n - 3,
        5 + k,
        Some('"'),
        false,
        w1,
    ));
    assert(split_scan(t, 15 + k + f, n - 3, 5 + k, Some('"'), false, w1) == split_scan(
        t,
        16 + k + f,
        n - 3,
        5 + k,
        None,
        false,
        w1,
    ));
    assert(split_scan(t, 16 + k + f, n - 3, 5 + k, None, false, w1) == split_scan(
        t,
        n - 3,
        n - 3,
        5 + k,
        None,
        false,
        w1,
    ));
    assert(split_scan(t, 3, n - 3, 3, None, false, seq![]) == Ok::<Seq<(int, int)>, ()>(parts));
    lemma_trim_lo_at(t, 3, 3, 4 + k);
    lemma_trim_hi_at(t, 3, 3 + k, 4 + k);
    lemma_default_text_filter(key, fallback);
    assert(parse_filters(t, parts, 2, seq![SpecFilter::Default(fallback)]) == Ok::<
        Seq<SpecFilter>,
        SpecBindingParseError,
    >(seq![SpecFilter::Default(fallback)]));
    assert(seq![].push(SpecFilter::Default(fallback)) =~= seq![SpecFilter::Default(fallback)]);
}

proof fn lemma_default_text_filter(key: Seq<char>, fallback: Seq<char>)
    requires
        is_name(key),
        forall|j: int| 0 <= j < fallback.len() ==> plain_char(#[trigger] fallback[j]),
    ensures
        ({
            let t = default_binding_text(key, fallback);
            let k = key.len() as int;
            let n = t.len() as int;
            &&& trimmed(t, 5 + k, n - 3) == (6 + k, n - 3)
            &&& spec_parse_filter(t, 6 + k, n - 3) == Ok::<SpecFilter, SpecBindingParseError>(
                SpecFilter::Default(fallback),
            )
        }),
{
    lemma_default_text_chars(key, fallback);
    let t = default_binding_text(key, fallback);
    let k = key.len() as int;
    let n = t.len() as int;
    assert(t[n - 4] == ')' && t[n - 5] == '"');
    lemma_trim_lo_at(t, 5 + k, 6 + k, n - 3);
    lemma_trim_hi_at(t, 6 + k, n - 3, n - 3);
    assert(occurs_at(t, 6 + k, default_head()));
    lemma_trim_lo_at(t, 14 + k, 14 + k, n - 4);
    lemma_trim_hi_at(t, 14 + k, n - 4, n - 4);
    lemma_unescape_plain(t, 15 + k, n - 5, seq![]);
    assert(seq![] + t.subrange(15 + k, n - 5) =~= fallback);
}

/// The `default` filter, from the text: `{{ key | default("fallback") }}`
/// parses to one expression, and resolves to the sensor's value where it is
/// present and not empty, and to the fallback where it is missing or empty.
/// This is stated for a key of letters, digits, `_` and `-`, and a fallback
/// without braces, quotes, backslashes or `|`.
#[verifier::rlimit(60)]
pub proof fn law_default_binding_from_text(
    key: Seq<char>,
    fallback: Seq<char>,
    values: Map<Seq<char>, Seq<char>>,
    numbers: Map<(Seq<char>, nat), SpecNumberOutcome>,
)
    requires
        is_name(key),
        forall|j: int| 0 <= j < fallback.len() ==> plain_char(#[trigger] fallback[j]),
    ensures
        spec_parse_binding(default_binding_text(key, fallback)) == Ok::<
            Seq<SpecSegment>,
            SpecBindingParseError,
        >(
            seq![
                SpecSegment::Expression(
                    SpecExpression { key, filters: seq![SpecFilter::Default(fallback)] },
                ),
            ],
        ),
        spec_resolve(
            seq![SpecSegment::Expression(SpecExpression { key, filters: seq![SpecFilter::Default(fallback)] })],
            values,
            numbers,
        ) == SpecResolution::Done(
            if values.contains_key(key) && values[key].len() > 0 {
                values[key]
            } else {
                fallback
            },
        ),
{
    lemma_default_text_chars(key, fallback);
    lemma_default_text_window(key, fallback);
    lemma_default_text_expression(key, fallback);
    let t = default_binding_text(key, fallback);
    let n = t.len() as int;
    let e = SpecExpression { key, filters: seq![SpecFilter::Default(fallback)] };
    assert(find_from(t, n, n, open_delim()) is None);
    assert(find_from(t, n, n, close_delim()) is None);
    assert(seq![].push(SpecSegment::Expression(e)) =~= seq![SpecSegment::Expression(e)]);
    assert(parse_segments(t, n, seq![SpecSegment::Expression(e)]) == Ok::<
        Seq<SpecSegment>,
        SpecBindingParseError,
    >(seq![SpecSegment::Expression(e)]));
    law_default_fills_missing_or_empty(key, fallback, values, numbers);
}

} // verus!
