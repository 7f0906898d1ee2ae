//! Decimal numbers as written in stylesheets and configuration.
//!
//! A number is kept as its decimal digits and a power of ten, so that no
//! rounding happens here. Where the dashboard reads a number as `f32`, the
//! predicates below say how that rounding comes out, against exact decimal
//! bounds.
use vstd::prelude::*;
use crate::text::{
    char_end, char_end_exec, chars_of, is_ascii_digit, is_digit_char, lemma_char_end, lowers_to,
    lowers_to_char, trim_window, trimmed,
};

verus! {

broadcast use vstd::string::group_string_axioms;

/// Exponent digits are read up to this value; a larger exponent is read as
/// it. For a text shorter than 2^64 characters this changes no comparison.
pub open spec fn exponent_cap() -> nat {
    0x2_0000_0000_0000_0000
}

/// `sign * digits * 10^exponent`, the digits most significant first.
#[derive(Debug)]
pub struct Decimal {
    negative: bool,
    digits: Vec<u8>,
    exponent: i128,
}

pub struct SpecDecimal {
    pub negative: bool,
    pub digits: Seq<u8>,
    pub exponent: int,
}

impl Decimal {
    /// Exponents stay well inside `i128`.
    #[verifier::type_invariant]
    spec fn exponent_in_range(self) -> bool {
        -0x40_0000_0000_0000_0000 <= self.exponent <= 0x40_0000_0000_0000_0000
    }
}

impl View for Decimal {
    type V = SpecDecimal;

    closed spec fn view(&self) -> SpecDecimal {
        SpecDecimal { negative: self.negative, digits: self.digits@, exponent: self.exponent as int }
    }
}

/// A number token: a finite decimal, an infinity, or NaN.
#[derive(Debug)]
pub enum NumberToken {
    Finite(Decimal),
    Infinite(bool),
    NotANumber,
}

pub enum SpecNumberToken {
    Finite(SpecDecimal),
    Infinite(bool),
    NotANumber,
}

impl View for NumberToken {
    type V = SpecNumberToken;

    open spec fn view(&self) -> SpecNumberToken {
        match self {
            NumberToken::Finite(d) => SpecNumberToken::Finite(d@),
            NumberToken::Infinite(negative) => SpecNumberToken::Infinite(*negative),
            NumberToken::NotANumber => SpecNumberToken::NotANumber,
        }
    }
}

// ---------------------------------------------------------------------------
// Reading a number token, with the grammar of `f32::from_str`: an optional
// sign, then digits with an optional point and at least one digit, then an
// optional exponent `e`/`E`, sign, digits; or `nan`, `inf`, `infinity` in
// any case.

/// The first index at or after `i` that is not an ASCII digit (or `hi`).
pub open spec fn digit_run_end(s: Seq<char>, i: int, hi: int) -> int
    decreases hi - i,
{
    if i < hi && is_ascii_digit(s[i]) {
        digit_run_end(s, i + 1, hi)
    } else {
        i
    }
}

pub open spec fn char_digit(c: char) -> u8 {
    ((c as int) - 48) as u8
}

/// The digit values of the window.
pub open spec fn digits_of(s: Seq<char>, lo: int, hi: int) -> Seq<u8> {
    Seq::new((hi - lo) as nat, |k: int| char_digit(s[lo + k]))
}

/// Value of the digits in `i..hi`, continuing from `acc`, held at the cap.
pub open spec fn capped_value(s: Seq<char>, i: int, hi: int, acc: nat) -> nat
    decreases hi - i,
{
    if i >= hi {
        acc
    } else {
        let next = acc * 10 + (char_digit(s[i]) as nat);
        capped_value(s, i + 1, hi, if next > exponent_cap() { exponent_cap() } else { next })
    }
}

/// The window is `word` (in lower case), ignoring ASCII case.
pub open spec fn lower_window_is(s: Seq<char>, lo: int, hi: int, word: Seq<char>) -> bool {
    &&& hi - lo == word.len()
    &&& forall|k: int| 0 <= k < word.len() ==> lowers_to(#[trigger] s[lo + k], word[k])
}

/// The finite number in `a..hi` (after the sign), if the whole window is one.
pub open spec fn spec_finite_part(s: Seq<char>, a: int, hi: int, negative: bool) -> Option<
    SpecDecimal,
> {
    let i1 = digit_run_end(s, a, hi);
    let has_dot = i1 < hi && s[i1] == '.';
    let f0 = if has_dot {
        i1 + 1
    } else {
        i1
    };
    let f1 = if has_dot {
        digit_run_end(s, f0, hi)
    } else {
        i1
    };
    let digits = digits_of(s, a, i1) + digits_of(s, f0, f1);
    if (i1 - a) + (f1 - f0) == 0 {
        None
    } else if f1 >= hi {
        Some(SpecDecimal { negative, digits, exponent: -(f1 - f0) })
    } else if s[f1] == 'e' || s[f1] == 'E' {
        let signed = f1 + 1 < hi && (s[f1 + 1] == '-' || s[f1 + 1] == '+');
        let e0 = if signed {
            f1 + 2
        } else {
            f1 + 1
        };
        let e1 = digit_run_end(s, e0, hi);
        if e1 <= e0 || e1 != hi {
            None
        } else {
            let value = capped_value(s, e0, e1, 0);
            let exp = if signed && s[f1 + 1] == '-' {
                -value
            } else {
                value as int
            };
            Some(SpecDecimal { negative, digits, exponent: exp - (f1 - f0) })
        }
    } else {
        None
    }
}

pub open spec fn nan_word() -> Seq<char> {
    seq!['n', 'a', 'n']
}

pub open spec fn inf_word() -> Seq<char> {
    seq!['i', 'n', 'f']
}

pub open spec fn infinity_word() -> Seq<char> {
    seq!['i', 'n', 'f', 'i', 'n', 'i', 't', 'y']
}

/// The number token that the window `lo..hi` spells, if it spells one.
pub open spec fn spec_number_token(s: Seq<char>, lo: int, hi: int) -> Option<SpecNumberToken> {
    if lo >= hi {
        None
    } else {
        let negative = s[lo] == '-';
        let a = if s[lo] == '-' || s[lo] == '+' {
            lo + 1
        } else {
            lo
        };
        if a >= hi {
            None
        } else {
            match spec_finite_part(s, a, hi, negative) {
                Some(d) => Some(SpecNumberToken::Finite(d)),
                None => if lower_window_is(s, a, hi, nan_word()) {
                    Some(SpecNumberToken::NotANumber)
                } else if lower_window_is(s, a, hi, inf_word()) || lower_window_is(
                    s,
                    a,
                    hi,
                    infinity_word(),
                ) {
                    Some(SpecNumberToken::Infinite(negative))
                } else {
                    None
                },
            }
        }
    }
}

proof fn lemma_digit_run_end(s: Seq<char>, i: int, hi: int)
    requires
        i <= hi,
    ensures
        i <= digit_run_end(s, i, hi) <= hi,
        forall|k: int| i <= k < digit_run_end(s, i, hi) ==> is_ascii_digit(#[trigger] s[k]),
        digit_run_end(s, i, hi) < hi ==> !is_ascii_digit(s[digit_run_end(s, i, hi)]),
    decreases hi - i,
{
    if i < hi && is_ascii_digit(s[i]) {
        lemma_digit_run_end(s, i + 1, hi);
    }
}

fn digit_run_end_exec(s: &Vec<char>, i: usize, hi: usize) -> (r: usize)
    requires
        i <= hi <= s@.len(),
    ensures
        r == digit_run_end(s@, i as int, hi as int),
        i <= r <= hi,
{
    proof {
        lemma_digit_run_end(s@, i as int, hi as int);
    }
    let mut k = i;
    while k < hi && is_digit_char(s[k])
        invariant
            i <= k <= hi <= s@.len(),
            digit_run_end(s@, i as int, hi as int) == digit_run_end(s@, k as int, hi as int),
        decreases hi - k,
    {
        k += 1;
    }
    k
}

/// Appends the digit values of `lo..hi` to `out`.
fn push_digits(s: &Vec<char>, lo: usize, hi: usize, out: &mut Vec<u8>)
    requires
        lo <= hi <= s@.len(),
        forall|k: int| lo <= k < hi ==> is_ascii_digit(#[trigger] s@[k]),
    ensures
        final(out)@ == old(out)@ + digits_of(s@, lo as int, hi as int),
{
    let ghost start = out@;
    let mut k = lo;
    while k < hi
        invariant
            lo <= k <= hi <= s@.len(),
            forall|j: int| lo <= j < hi ==> is_ascii_digit(#[trigger] s@[j]),
            out@ == start + digits_of(s@, lo as int, k as int),
        decreases hi - k,
    {
        assert(is_ascii_digit(s@[k as int]));
        let d = (s[k] as u32 - 48) as u8;
        out.push(d);
        assert(out@ =~= start + digits_of(s@, lo as int, k + 1));
        k += 1;
    }
}

fn capped_exponent(s: &Vec<char>, lo: usize, hi: usize) -> (r: u128)
    requires
        lo <= hi <= s@.len(),
        forall|k: int| lo <= k < hi ==> is_ascii_digit(#[trigger] s@[k]),
    ensures
        r == capped_value(s@, lo as int, hi as int, 0),
        r <= exponent_cap(),
{
    let mut value: u128 = 0;
    let mut k = lo;
    while k < hi
        invariant
            lo <= k <= hi <= s@.len(),
            forall|j: int| lo <= j < hi ==> is_ascii_digit(#[trigger] s@[j]),
            value <= exponent_cap(),
            capped_value(s@, lo as int, hi as int, 0) == capped_value(
                s@,
                k as int,
                hi as int,
                value as nat,
            ),
        decreases hi - k,
    {
        assert(is_ascii_digit(s@[k as int]));
        let d = (s[k] as u32 - 48) as u128;
        let next = value * 10 + d;
        value = if next > 0x2_0000_0000_0000_0000 {
            0x2_0000_0000_0000_0000
        } else {
            next
        };
        k += 1;
    }
    value
}

fn lower_window_is_exec(s: &Vec<char>, lo: usize, hi: usize, word: &Vec<char>) -> (r: bool)
    requires
        lo <= hi <= s@.len(),
    ensures
        r == lower_window_is(s@, lo as int, hi as int, word@),
{
    if hi - lo != word.len() {
        return false;
    }
    let mut k: usize = 0;
    while k < word.len()
        invariant
            hi - lo == word@.len(),
            lo <= hi <= s@.len(),
            k <= word@.len(),
            forall|j: int| 0 <= j < k ==> lowers_to(#[trigger] s@[lo + j], word@[j]),
        decreases word@.len() - k,
    {
        if !lowers_to_char(s[lo + k], word[k]) {
            return false;
        }
        k += 1;
    }
    true
}

fn word_vec(which: u8) -> (r: Vec<char>)
    ensures
        r@ == (if which == 0 {
            nan_word()
        } else if which == 1 {
            inf_word()
        } else {
            infinity_word()
        }),
{
    let mut v: Vec<char> = Vec::new();
    if which == 0 {
        v.push('n');
        v.push('a');
        v.push('n');
        assert(v@ =~= nan_word());
    } else if which == 1 {
        v.push('i');
        v.push('n');
        v.push('f');
        assert(v@ =~= inf_word());
    } else {
        v.push('i');
        v.push('n');
        v.push('f');
        v.push('i');
        v.push('n');
        v.push('i');
        v.push('t');
        v.push('y');
        assert(v@ =~= infinity_word());
    }
    v
}

fn finite_part(s: &Vec<char>, a: usize, hi: usize, negative: bool) -> (r: Option<Decimal>)
    requires
        a <= hi <= s@.len(),
    ensures
        r matches Some(d) ==> spec_finite_part(s@, a as int, hi as int, negative) == Some(d@),
        r is None ==> spec_finite_part(s@, a as int, hi as int, negative) is None,
{
    proof {
        lemma_digit_run_end(s@, a as int, hi as int);
    }
    let i1 = digit_run_end_exec(s, a, hi);
    let has_dot = i1 < hi && s[i1] == '.';
    let f0 = if has_dot {
        i1 + 1
    } else {
        i1
    };
    proof {
        lemma_digit_run_end(s@, f0 as int, hi as int);
    }
    let f1 = if has_dot {
        digit_run_end_exec(s, f0, hi)
    } else {
        i1
    };
    if (i1 - a) + (f1 - f0) == 0 {
        return None;
    }
    let mut digits: Vec<u8> = Vec::new();
    push_digits(s, a, i1, &mut digits);
    push_digits(s, f0, f1, &mut digits);
    assert(digits@ =~= digits_of(s@, a as int, i1 as int) + digits_of(s@, f0 as int, f1 as int));
    let frac = (f1 - f0) as i128;
    if f1 >= hi {
        return Some(Decimal { negative, digits, exponent: -frac });
    }
    if s[f1] == 'e' || s[f1] == 'E' {
        let signed = f1 + 1 < hi && (s[f1 + 1] == '-' || s[f1 + 1] == '+');
        let e0 = if signed {
            f1 + 2
        } else {
            f1 + 1
        };
        proof {
            lemma_digit_run_end(s@, e0 as int, hi as int);
        }
        let e1 = digit_run_end_exec(s, e0, hi);
        if e1 <= e0 || e1 != hi {
            return None;
        }
        let value = capped_exponent(s, e0, e1) as i128;
        let exp = if signed && s[f1 + 1] == '-' {
            -value
        } else {
            value
        };
        return Some(Decimal { negative, digits, exponent: exp - frac });
    }
    None
}

/// Reads the window `lo..hi` as a number token, as `f32::from_str` would.
pub fn parse_number_token(s: &Vec<char>, lo: usize, hi: usize) -> (r: Option<NumberToken>)
    requires
        lo <= hi <= s@.len(),
    ensures
        r matches Some(t) ==> spec_number_token(s@, lo as int, hi as int) == Some(t@),
        r is None ==> spec_number_token(s@, lo as int, hi as int) is None,
{
    if lo >= hi {
        return None;
    }
    let negative = s[lo] == '-';
    let a = if s[lo] == '-' || s[lo] == '+' {
        lo + 1
    } else {
        lo
    };
    if a >= hi {
        return None;
    }
    match finite_part(s, a, hi, negative) {
        Some(d) => Some(NumberToken::Finite(d)),
        None => {
            if lower_window_is_exec(s, a, hi, &word_vec(0)) {
                Some(NumberToken::NotANumber)
            } else if lower_window_is_exec(s, a, hi, &word_vec(1)) || lower_window_is_exec(
                s,
                a,
                hi,
                &word_vec(2),
            ) {
                Some(NumberToken::Infinite(negative))
            } else {
                None
            }
        },
    }
}

/// Reads a whole string as a number token.
pub fn number_token_of(text: &str) -> (r: Option<NumberToken>)
    ensures
        r matches Some(t) ==> spec_number_token(text@, 0, text@.len() as int) == Some(t@),
        r is None ==> spec_number_token(text@, 0, text@.len() as int) is None,
{
    let s = chars_of(text);
    parse_number_token(&s, 0, s.len())
}

// ---------------------------------------------------------------------------
// Order. Two decimals compare as numbers: by sign, then by the position of
// the leading significant digit, then digit by digit from there.

/// Index of the first non-zero digit at or after `i` (or the length).
pub open spec fn lead(d: Seq<u8>, i: int) -> int
    decreases d.len() - i,
{
    if 0 <= i < d.len() && d[i] == 0 {
        lead(d, i + 1)
    } else {
        i
    }
}

pub open spec fn is_zero(d: SpecDecimal) -> bool {
    lead(d.digits, 0) >= d.digits.len()
}

/// Number of significant digits.
pub open spec fn sig_len(d: SpecDecimal) -> int {
    d.digits.len() - lead(d.digits, 0)
}

/// The power of ten just above the number: `10^(position - 1) <= |d| < 10^position`.
pub open spec fn position(d: SpecDecimal) -> int {
    sig_len(d) + d.exponent
}

/// The `k`-th significant digit, zero past the last one.
pub open spec fn sig_digit(d: SpecDecimal, k: int) -> int {
    let j = lead(d.digits, 0) + k;
    if 0 <= k && j < d.digits.len() {
        d.digits[j] as int
    } else {
        0
    }
}

/// Compares significant digits `k..n` of two numbers with the same position.
pub open spec fn digits_order(a: SpecDecimal, b: SpecDecimal, k: int, n: int) -> int
    decreases n - k,
{
    if k >= n {
        0
    } else if sig_digit(a, k) < sig_digit(b, k) {
        -1
    } else if sig_digit(a, k) > sig_digit(b, k) {
        1
    } else {
        digits_order(a, b, k + 1, n)
    }
}

/// Compares `|a|` with `|b|`: -1, 0 or 1.
pub open spec fn magnitude_order(a: SpecDecimal, b: SpecDecimal) -> int {
    if is_zero(a) && is_zero(b) {
        0
    } else if is_zero(a) {
        -1
    } else if is_zero(b) {
        1
    } else if position(a) < position(b) {
        -1
    } else if position(a) > position(b) {
        1
    } else {
        digits_order(a, b, 0, if sig_len(a) > sig_len(b) { sig_len(a) } else { sig_len(b) })
    }
}

/// Strictly below zero.
pub open spec fn is_negative(d: SpecDecimal) -> bool {
    d.negative && !is_zero(d)
}

/// Compares `a` with `b`: -1, 0 or 1.
pub open spec fn compare(a: SpecDecimal, b: SpecDecimal) -> int {
    if is_negative(a) && !is_negative(b) {
        -1
    } else if !is_negative(a) && is_negative(b) {
        1
    } else if !is_negative(a) {
        magnitude_order(a, b)
    } else {
        magnitude_order(b, a)
    }
}

proof fn lemma_lead(d: Seq<u8>, i: int)
    requires
        0 <= i <= d.len(),
    ensures
        i <= lead(d, i) <= d.len(),
    decreases d.len() - i,
{
    if i < d.len() && d[i] == 0 {
        lemma_lead(d, i + 1);
    }
}

fn lead_exec(d: &Vec<u8>) -> (r: usize)
    ensures
        r == lead(d@, 0),
        r <= d@.len(),
{
    proof {
        lemma_lead(d@, 0);
    }
    let mut i: usize = 0;
    while i < d.len() && d[i] == 0
        invariant
            i <= d@.len(),
            lead(d@, 0) == lead(d@, i as int),
        decreases d@.len() - i,
    {
        i += 1;
    }
    i
}

impl Decimal {
    pub fn magnitude_compare(&self, other: &Decimal) -> (r: i8)
        ensures
            r as int == magnitude_order(self@, other@),
    {
        proof {
            use_type_invariant(self);
            use_type_invariant(other);
        }
        let la = lead_exec(&self.digits);
        let lb = lead_exec(&other.digits);
        let za = la >= self.digits.len();
        let zb = lb >= other.digits.len();
        if za && zb {
            return 0;
        } else if za {
            return -1;
        } else if zb {
            return 1;
        }
        let na = self.digits.len() - la;
        let nb = other.digits.len() - lb;
        let pa = na as i128 + self.exponent;
        let pb = nb as i128 + other.exponent;
        if pa < pb {
            return -1;
        } else if pa > pb {
            return 1;
        }
        let n = if na > nb {
            na
        } else {
            nb
        };
        let len_a = self.digits.len();
        let len_b = other.digits.len();
        let mut k: usize = 0;
        while k < n
            invariant
                len_a == self.digits@.len(),
                len_b == other.digits@.len(),
                la == lead(self@.digits, 0),
                lb == lead(other@.digits, 0),
                na == sig_len(self@),
                nb == sig_len(other@),
                n == (if na > nb { na } else { nb }),
                k <= n,
                la + na == len_a,
                lb + nb == len_b,
                magnitude_order(self@, other@) == digits_order(self@, other@, k as int, n as int),
            decreases n - k,
        {
            let x: u8 = if k < na {
                self.digits[la + k]
            } else {
                0
            };
            let y: u8 = if k < nb {
                other.digits[lb + k]
            } else {
                0
            };
            assert(x == sig_digit(self@, k as int));
            assert(y == sig_digit(other@, k as int));
            if x < y {
                return -1;
            } else if x > y {
                return 1;
            }
            k += 1;
        }
        0
    }

    fn is_negative_exec(&self) -> (r: bool)
        ensures
            r == is_negative(self@),
    {
        self.negative && lead_exec(&self.digits) < self.digits.len()
    }

    /// Compares two numbers: -1 when `self` is the smaller, 0 when equal, 1 when larger.
    pub fn compare(&self, other: &Decimal) -> (r: i8)
        ensures
            r as int == compare(self@, other@),
    {
        let na = self.is_negative_exec();
        let nb = other.is_negative_exec();
        if na && !nb {
            -1
        } else if !na && nb {
            1
        } else if !na {
            self.magnitude_compare(other)
        } else {
            other.magnitude_compare(self)
        }
    }

    /// The number zero.
    pub fn zero() -> (r: Decimal)
        ensures
            r@ == spec_zero(),
    {
        let r = Decimal { negative: false, digits: Vec::new(), exponent: 0 };
        assert(r@.digits =~= seq![]);
        r
    }

    /// The digits of `text` (characters other than digits read as 0) times `10^exponent`.
    pub fn from_digit_text(text: &str, exponent: i64) -> (r: Decimal)
        ensures
            r@ == (SpecDecimal {
                negative: false,
                digits: text@.map_values(|c: char| digit_or_zero(c)),
                exponent: exponent as int,
            }),
    {
        let chars = chars_of(text);
        let mut digits: Vec<u8> = Vec::new();
        let mut k: usize = 0;
        while k < chars.len()
            invariant
                k <= chars@.len(),
                chars@ == text@,
                digits@ == chars@.take(k as int).map_values(|c: char| digit_or_zero(c)),
            decreases chars@.len() - k,
        {
            let c = chars[k];
            let d: u8 = if is_digit_char(c) {
                (c as u32 - 48) as u8
            } else {
                0
            };
            digits.push(d);
            assert(chars@.take(k + 1) =~= chars@.take(k as int).push(c));
            assert(digits@ =~= chars@.take(k + 1).map_values(|c: char| digit_or_zero(c)));
            k += 1;
        }
        assert(chars@.take(chars@.len() as int) =~= chars@);
        Decimal { negative: false, digits, exponent: exponent as i128 }
    }

    pub fn is_negative(&self) -> (r: bool)
        ensures
            r == is_negative(self@),
    {
        self.is_negative_exec()
    }

    /// Whether the number is written with a minus sign (so `-0` counts).
    pub fn has_minus(&self) -> (r: bool)
        ensures
            r == self@.negative,
    {
        self.negative
    }

    /// The same number with the sign flipped.
    pub fn negated(&self) -> (r: Decimal)
        ensures
            r@ == (SpecDecimal { negative: !self@.negative, ..self@ }),
    {
        proof {
            use_type_invariant(self);
        }
        Decimal { negative: !self.negative, digits: self.digits.clone(), exponent: self.exponent }
    }

    pub fn duplicate(&self) -> (r: Decimal)
        ensures
            r@ == self@,
    {
        proof {
            use_type_invariant(self);
        }
        Decimal { negative: self.negative, digits: self.digits.clone(), exponent: self.exponent }
    }

    /// The number in `f32::from_str` syntax: sign, digits, `e`, exponent.
    pub fn digits(&self) -> (r: &Vec<u8>)
        ensures
            r@ == self@.digits,
    {
        &self.digits
    }

    pub fn exponent(&self) -> (r: i128)
        ensures
            r as int == self@.exponent,
            -0x40_0000_0000_0000_0000 <= r <= 0x40_0000_0000_0000_0000,
    {
        proof {
            use_type_invariant(self);
        }
        self.exponent
    }
}

/// Zero, written without digits.
pub open spec fn spec_zero() -> SpecDecimal {
    SpecDecimal { negative: false, digits: seq![], exponent: 0 }
}

/// The digits of `text` times `10^exponent`.
pub open spec fn spec_decimal_of(text: Seq<char>, exponent: int) -> SpecDecimal {
    SpecDecimal { negative: false, digits: text.map_values(|c: char| digit_or_zero(c)), exponent }
}

/// The value of a decimal digit character; other characters read as 0.
pub open spec fn digit_or_zero(c: char) -> u8 {
    if is_ascii_digit(c) {
        char_digit(c)
    } else {
        0
    }
}

// ---------------------------------------------------------------------------
// Rounding to `f32`. Rounding to nearest, ties to even, sends a magnitude at
// or above 2^128 - 2^103 to infinity, a magnitude at or below 2^-150 to zero,
// and anything up to 1 + 2^-24 to at most 1.

/// 2^128 - 2^103.
pub open spec fn float_limit() -> SpecDecimal {
    SpecDecimal {
        negative: false,
        digits: "340282356779733661637539395458142568448"@.map_values(|c: char| digit_or_zero(c)),
        exponent: 0,
    }
}

/// 2^-150, half the least positive `f32`.
pub open spec fn float_tiny() -> SpecDecimal {
    SpecDecimal {
        negative: false,
        digits: "700649232162408535461864791644958065640130970938257885878534141944895541342930300743319094181060791015625"@.map_values(
            |c: char| digit_or_zero(c),
        ),
        exponent: -150,
    }
}

/// 1 + 2^-24, half way from 1 to the next `f32`.
pub open spec fn float_one_limit() -> SpecDecimal {
    SpecDecimal {
        negative: false,
        digits: "1000000059604644775390625"@.map_values(|c: char| digit_or_zero(c)),
        exponent: -24,
    }
}

/// Reads as a finite `f32`.
pub open spec fn rounds_finite(d: SpecDecimal) -> bool {
    magnitude_order(d, float_limit()) < 0
}

/// Reads as an `f32` that is not zero.
pub open spec fn rounds_nonzero(d: SpecDecimal) -> bool {
    magnitude_order(d, float_tiny()) > 0
}

/// Reads as an `f32` that is `>= 0.0` (negative zero included).
pub open spec fn rounds_non_negative(d: SpecDecimal) -> bool {
    !d.negative || !rounds_nonzero(d)
}

/// Reads as an `f32` that is `> 0.0`.
pub open spec fn rounds_positive(d: SpecDecimal) -> bool {
    !d.negative && rounds_nonzero(d)
}

/// Reads as an `f32` that is `<= 1.0`.
pub open spec fn rounds_at_most_one(d: SpecDecimal) -> bool {
    d.negative || magnitude_order(d, float_one_limit()) <= 0
}

impl Decimal {
    pub fn rounds_finite(&self) -> (r: bool)
        ensures
            r == rounds_finite(self@),
    {
        let limit = Decimal::from_digit_text("340282356779733661637539395458142568448", 0);
        self.magnitude_compare(&limit) < 0
    }

    pub fn rounds_nonzero(&self) -> (r: bool)
        ensures
            r == rounds_nonzero(self@),
    {
        let tiny = Decimal::from_digit_text(
            "700649232162408535461864791644958065640130970938257885878534141944895541342930300743319094181060791015625",
            -150,
        );
        self.magnitude_compare(&tiny) > 0
    }

    pub fn rounds_non_negative(&self) -> (r: bool)
        ensures
            r == rounds_non_negative(self@),
    {
        !self.negative || !self.rounds_nonzero()
    }

    pub fn rounds_positive(&self) -> (r: bool)
        ensures
            r == rounds_positive(self@),
    {
        !self.negative && self.rounds_nonzero()
    }

    pub fn rounds_at_most_one(&self) -> (r: bool)
        ensures
            r == rounds_at_most_one(self@),
    {
        let limit = Decimal::from_digit_text("1000000059604644775390625", -24);
        self.negative || self.magnitude_compare(&limit) <= 0
    }
}

/// Where a value text stands in a range `min..max`, as a meter fills.
#[derive(Debug)]
pub enum Placement {
    /// The text is empty: there is no value, and nothing fills.
    Blank,
    /// The text is not a finite number.
    NotNumeric,
    /// At or below `min`: the meter is empty.
    AtOrBelowMin,
    /// At or above `max`: the meter is full.
    AtOrAboveMax,
    /// Strictly between `min` and `max`.
    Within(Decimal),
}

pub enum SpecPlacement {
    Blank,
    NotNumeric,
    AtOrBelowMin,
    AtOrAboveMax,
    Within(SpecDecimal),
}

impl View for Placement {
    type V = SpecPlacement;

    open spec fn view(&self) -> SpecPlacement {
        match self {
            Placement::Blank => SpecPlacement::Blank,
            Placement::NotNumeric => SpecPlacement::NotNumeric,
            Placement::AtOrBelowMin => SpecPlacement::AtOrBelowMin,
            Placement::AtOrAboveMax => SpecPlacement::AtOrAboveMax,
            Placement::Within(d) => SpecPlacement::Within(d@),
        }
    }
}

/// The placement of `text` in `min..max`: values outside the range are
/// clamped to its ends.
pub open spec fn spec_placement(text: Seq<char>, min: SpecDecimal, max: SpecDecimal) -> SpecPlacement {
    if text.len() == 0 {
        SpecPlacement::Blank
    } else {
        match spec_number_token(text, 0, text.len() as int) {
            Some(SpecNumberToken::Finite(d)) => if compare(d, min) <= 0 {
                SpecPlacement::AtOrBelowMin
            } else if compare(d, max) >= 0 {
                SpecPlacement::AtOrAboveMax
            } else {
                SpecPlacement::Within(d)
            },
            _ => SpecPlacement::NotNumeric,
        }
    }
}

/// Places a value text in the range `min..max`.
pub fn place_in_range(text: &str, min: &Decimal, max: &Decimal) -> (r: Placement)
    ensures
        r@ == spec_placement(text@, min@, max@),
{
    if text.unicode_len() == 0 {
        return Placement::Blank;
    }
    match number_token_of(text) {
        Some(NumberToken::Finite(d)) => if d.compare(min) <= 0 {
            Placement::AtOrBelowMin
        } else if d.compare(max) >= 0 {
            Placement::AtOrAboveMax
        } else {
            Placement::Within(d)
        },
        _ => Placement::NotNumeric,
    }
}


pub open spec fn decimals_view(v: Seq<Decimal>) -> Seq<SpecDecimal> {
    v.map_values(|d: Decimal| d@)
}

/// The samples of `i..hi` onwards, after `acc`: comma-separated finite
/// numbers, white space around each ignored; none when one is not a number.
pub open spec fn samples_from(s: Seq<char>, i: int, hi: int, acc: Seq<SpecDecimal>) -> Option<
    Seq<SpecDecimal>,
>
    decreases hi - i,
{
    if i > hi {
        None
    } else {
        let e = char_end(s, i, hi, ',');
        let (a, b) = trimmed(s, i, e);
        match spec_number_token(s, a, b) {
            Some(SpecNumberToken::Finite(d)) => if e < hi {
                proof {
                    lemma_char_end(s, i, hi, ',');
                }
                samples_from(s, e + 1, hi, acc.push(d))
            } else {
                Some(acc.push(d))
            },
            _ => None,
        }
    }
}

/// The samples of a graph's value text: comma-separated finite numbers,
/// white space around each ignored. A blank text has no samples.
pub open spec fn spec_graph_samples(s: Seq<char>) -> Option<Seq<SpecDecimal>> {
    let (a, b) = trimmed(s, 0, s.len() as int);
    if a == b {
        Some(seq![])
    } else {
        samples_from(s, 0, s.len() as int, seq![])
    }
}

/// Reads a graph's samples from its value text, or `None` where a sample is
/// not a finite number.
pub fn graph_samples(text: &str) -> (r: Option<Vec<Decimal>>)
    ensures
        r matches Some(v) ==> spec_graph_samples(text@) == Some(decimals_view(v@)),
        r is None ==> spec_graph_samples(text@) is None,
{
    let s = chars_of(text);
    let n = s.len();
    let (a0, b0) = trim_window(&s, 0, n);
    let mut out: Vec<Decimal> = Vec::new();
    if a0 == b0 {
        assert(decimals_view(out@) =~= seq![]);
        return Some(out);
    }
    let mut i: usize = 0;
    assert(decimals_view(out@) =~= seq![]);
    loop
        invariant
            i <= n,
            n == s@.len(),
            s@ == text@,
            trimmed(s@, 0, n as int).0 != trimmed(s@, 0, n as int).1,
            spec_graph_samples(text@) == samples_from(s@, i as int, n as int, decimals_view(out@)),
        decreases n - i,
    {
        let e = char_end_exec(&s, i, n, ',');
        let (a, b) = trim_window(&s, i, e);
        match parse_number_token(&s, a, b) {
            Some(NumberToken::Finite(d)) => {
                let ghost before = out@;
                out.push(d);
                assert(decimals_view(out@) =~= decimals_view(before).push(out@.last()@));
                if e < n {
                    i = e + 1;
                } else {
                    return Some(out);
                }
            },
            _ => {
                return None;
            },
        }
    }
}

} // verus!
