//! Character-level helpers shared by the parsers.
//!
//! Text is handled as a `Vec<char>`; a window of it is a pair of indices
//! `lo..hi`, and the spec functions speak of the same windows.
use vstd::prelude::*;

verus! {

broadcast use vstd::string::group_string_axioms;

/// Unicode `White_Space`, the set that `char::is_whitespace` tests.
pub open spec fn is_space(c: char) -> bool {
    ||| ('\u{9}' <= c && c <= '\u{d}')
    ||| c == ' '
    ||| c == '\u{85}'
    ||| c == '\u{a0}'
    ||| c == '\u{1680}'
    ||| ('\u{2000}' <= c && c <= '\u{200a}')
    ||| c == '\u{2028}'
    ||| c == '\u{2029}'
    ||| c == '\u{202f}'
    ||| c == '\u{205f}'
    ||| c == '\u{3000}'
}

pub open spec fn is_ascii_digit(c: char) -> bool {
    '0' <= c && c <= '9'
}

pub open spec fn is_ascii_alphanumeric(c: char) -> bool {
    ||| is_ascii_digit(c)
    ||| ('a' <= c && c <= 'z')
    ||| ('A' <= c && c <= 'Z')
}

pub open spec fn is_ascii_hexdigit(c: char) -> bool {
    ||| is_ascii_digit(c)
    ||| ('a' <= c && c <= 'f')
    ||| ('A' <= c && c <= 'F')
}

/// `c` lowered as `char::to_ascii_lowercase` does it equals `t`, for `t` not an
/// upper-case ASCII letter.
pub open spec fn lowers_to(c: char, t: char) -> bool {
    ||| c == t
    ||| ('A' <= c && c <= 'Z' && (c as u32) + 32 == (t as u32))
}

pub fn is_space_char(c: char) -> (r: bool)
    ensures
        r == is_space(c),
{
    ('\u{9}' <= c && c <= '\u{d}') || c == ' ' || c == '\u{85}' || c == '\u{a0}' || c
        == '\u{1680}' || ('\u{2000}' <= c && c <= '\u{200a}') || c == '\u{2028}' || c == '\u{2029}'
        || c == '\u{202f}' || c == '\u{205f}' || c == '\u{3000}'
}

pub fn is_digit_char(c: char) -> (r: bool)
    ensures
        r == is_ascii_digit(c),
{
    '0' <= c && c <= '9'
}

pub fn is_alphanumeric_char(c: char) -> (r: bool)
    ensures
        r == is_ascii_alphanumeric(c),
{
    ('0' <= c && c <= '9') || ('a' <= c && c <= 'z') || ('A' <= c && c <= 'Z')
}

pub fn is_hexdigit_char(c: char) -> (r: bool)
    ensures
        r == is_ascii_hexdigit(c),
{
    ('0' <= c && c <= '9') || ('a' <= c && c <= 'f') || ('A' <= c && c <= 'F')
}

pub fn lowers_to_char(c: char, t: char) -> (r: bool)
    ensures
        r == lowers_to(c, t),
{
    c == t || ('A' <= c && c <= 'Z' && (c as u32) + 32 == (t as u32))
}

/// The characters of a string, in order.
pub fn chars_of(s: &str) -> (r: Vec<char>)
    ensures
        r@ == s@,
{
    let mut out: Vec<char> = Vec::new();
    for c in it: s.chars()
        invariant
            it.seq() == s@,
            out@ == s@.take(it.index() as int),
    {
        out.push(c);
        assert(s@.take(it.index() + 1) =~= out@);
    }
    assert(out@ =~= s@);
    out
}

/// Appends `c` with `String::push`. Trusted: the text afterwards is the text
/// before with `c` at its end, as `String::push` documents.
#[verifier::external_body]
pub(crate) fn push_char(s: &mut String, c: char)
    ensures
        final(s)@ == old(s)@.push(c),
{
    s.push(c);
}

/// The text of the window `lo..hi`.
pub fn string_of(s: &Vec<char>, lo: usize, hi: usize) -> (r: String)
    requires
        lo <= hi <= s@.len(),
    ensures
        r@ == s@.subrange(lo as int, hi as int),
{
    let mut out = String::new();
    let mut i = lo;
    while i < hi
        invariant
            lo <= i <= hi <= s@.len(),
            out@ == s@.subrange(lo as int, i as int),
        decreases hi - i,
    {
        push_char(&mut out, s[i]);
        assert(out@ =~= s@.subrange(lo as int, i + 1));
        i += 1;
    }
    out
}

/// Start of the window once leading white space is dropped.
pub open spec fn trim_lo(s: Seq<char>, lo: int, hi: int) -> int
    decreases hi - lo,
{
    if lo < hi && is_space(s[lo]) {
        trim_lo(s, lo + 1, hi)
    } else {
        lo
    }
}

/// End of the window once trailing white space is dropped.
pub open spec fn trim_hi(s: Seq<char>, lo: int, hi: int) -> int
    decreases hi - lo,
{
    if lo < hi && is_space(s[hi - 1]) {
        trim_hi(s, lo, hi - 1)
    } else {
        hi
    }
}

/// The window `lo..hi` with white space dropped at both ends, as `str::trim` does.
pub open spec fn trimmed(s: Seq<char>, lo: int, hi: int) -> (int, int) {
    let a = trim_lo(s, lo, hi);
    (a, trim_hi(s, a, hi))
}

pub proof fn lemma_trim_lo(s: Seq<char>, lo: int, hi: int)
    requires
        lo <= hi,
    ensures
        lo <= trim_lo(s, lo, hi) <= hi,
        forall|k: int| lo <= k < trim_lo(s, lo, hi) ==> is_space(#[trigger] s[k]),
        trim_lo(s, lo, hi) < hi ==> !is_space(s[trim_lo(s, lo, hi)]),
    decreases hi - lo,
{
    if lo < hi && is_space(s[lo]) {
        lemma_trim_lo(s, lo + 1, hi);
    }
}

pub proof fn lemma_trim_hi(s: Seq<char>, lo: int, hi: int)
    requires
        lo <= hi,
    ensures
        lo <= trim_hi(s, lo, hi) <= hi,
        forall|k: int| trim_hi(s, lo, hi) <= k < hi ==> is_space(#[trigger] s[k]),
        lo < trim_hi(s, lo, hi) ==> !is_space(s[trim_hi(s, lo, hi) - 1]),
    decreases hi - lo,
{
    if lo < hi && is_space(s[hi - 1]) {
        lemma_trim_hi(s, lo, hi - 1);
    }
}

pub proof fn lemma_trimmed(s: Seq<char>, lo: int, hi: int)
    requires
        lo <= hi,
    ensures
        lo <= trimmed(s, lo, hi).0 <= trimmed(s, lo, hi).1 <= hi,
{
    lemma_trim_lo(s, lo, hi);
    lemma_trim_hi(s, trim_lo(s, lo, hi), hi);
}

/// The trimmed bounds of a window.
pub fn trim_window(s: &Vec<char>, lo: usize, hi: usize) -> (r: (usize, usize))
    requires
        lo <= hi <= s@.len(),
    ensures
        r.0 == trimmed(s@, lo as int, hi as int).0,
        r.1 == trimmed(s@, lo as int, hi as int).1,
        lo <= r.0 <= r.1 <= hi,
{
    proof {
        lemma_trimmed(s@, lo as int, hi as int);
    }
    let mut a = lo;
    while a < hi && is_space_char(s[a])
        invariant
            lo <= a <= hi <= s@.len(),
            trim_lo(s@, lo as int, hi as int) == trim_lo(s@, a as int, hi as int),
        decreases hi - a,
    {
        a += 1;
    }
    let mut b = hi;
    while a < b && is_space_char(s[b - 1])
        invariant
            lo <= a <= b <= hi <= s@.len(),
            a == trim_lo(s@, lo as int, hi as int),
            trim_hi(s@, a as int, hi as int) == trim_hi(s@, a as int, b as int),
        decreases b - a,
    {
        b -= 1;
    }
    (a, b)
}

/// `pat` occurs in `s` at index `i`.
pub open spec fn occurs_at(s: Seq<char>, i: int, pat: Seq<char>) -> bool {
    &&& 0 <= i
    &&& i + pat.len() <= s.len()
    &&& s.subrange(i, i + pat.len()) == pat
}

/// First index `k >= i` with `pat` occurring at `k` and ending by `hi`, as `str::find` gives it.
pub open spec fn find_from(s: Seq<char>, i: int, hi: int, pat: Seq<char>) -> Option<int>
    decreases hi + 1 - i,
{
    if i < 0 || i + pat.len() > hi {
        None
    } else if occurs_at(s, i, pat) {
        Some(i)
    } else {
        find_from(s, i + 1, hi, pat)
    }
}

pub proof fn lemma_find_from(s: Seq<char>, i: int, hi: int, pat: Seq<char>)
    requires
        0 <= i,
        hi <= s.len(),
    ensures
        find_from(s, i, hi, pat) matches Some(k) ==> {
            &&& i <= k
            &&& k + pat.len() <= hi
            &&& occurs_at(s, k, pat)
            &&& forall|j: int| i <= j < k ==> !occurs_at(s, j, pat)
        },
        find_from(s, i, hi, pat) is None ==> forall|j: int|
            i <= j && j + pat.len() <= hi ==> !occurs_at(s, j, pat),
    decreases hi + 1 - i,
{
    if i + pat.len() > hi {
    } else if occurs_at(s, i, pat) {
    } else {
        lemma_find_from(s, i + 1, hi, pat);
    }
}

/// Whether `pat` occurs at `i`, within `hi`.
pub fn occurs_at_exec(s: &Vec<char>, i: usize, hi: usize, pat: &Vec<char>) -> (r: bool)
    requires
        hi <= s@.len(),
    ensures
        r == (i + pat@.len() <= hi && occurs_at(s@, i as int, pat@)),
{
    if pat.len() > hi || i > hi - pat.len() {
        return false;
    }
    let mut j: usize = 0;
    while j < pat.len()
        invariant
            i + pat@.len() <= hi <= s@.len(),
            j <= pat@.len(),
            forall|k: int| 0 <= k < j ==> s@[i + k] == pat@[k],
        decreases pat@.len() - j,
    {
        if s[i + j] != pat[j] {
            assert(s@.subrange(i as int, i + pat@.len())[j as int] != pat@[j as int]);
            return false;
        }
        j += 1;
    }
    assert(s@.subrange(i as int, i + pat@.len()) =~= pat@);
    true
}

/// First occurrence of `pat` in the window `i..hi`.
pub fn find_in(s: &Vec<char>, i: usize, hi: usize, pat: &Vec<char>) -> (r: Option<usize>)
    requires
        i <= hi <= s@.len(),
    ensures
        r matches Some(k) ==> find_from(s@, i as int, hi as int, pat@) == Some(k as int),
        r is None ==> find_from(s@, i as int, hi as int, pat@) is None,
{
    let mut k = i;
    while k <= hi
        invariant
            i <= k <= hi + 1,
            hi <= s@.len(),
            find_from(s@, i as int, hi as int, pat@) == find_from(s@, k as int, hi as int, pat@),
        decreases hi + 1 - k,
    {
        if pat.len() > hi || k > hi - pat.len() {
            return None;
        }
        if pat.len() == 0 {
            assert(s@.subrange(k as int, k as int) =~= pat@);
            return Some(k);
        }
        if occurs_at_exec(s, k, hi, pat) {
            return Some(k);
        }
        k += 1;
    }
    None
}

/// Whether the window `lo..hi` holds exactly `lit`.
pub fn window_is(s: &Vec<char>, lo: usize, hi: usize, lit: &str) -> (r: bool)
    requires
        lo <= hi <= s@.len(),
    ensures
        r == (s@.subrange(lo as int, hi as int) == lit@),
{
    let pat = chars_of(lit);
    if hi - lo != pat.len() {
        assert(s@.subrange(lo as int, hi as int).len() != lit@.len());
        return false;
    }
    occurs_at_exec(s, lo, hi, &pat)
}

/// Whether `c` occurs in the window `lo..hi`.
pub fn window_has(s: &Vec<char>, lo: usize, hi: usize, c: char) -> (r: bool)
    requires
        lo <= hi <= s@.len(),
    ensures
        r == (exists|k: int| lo <= k < hi && s@[k] == c),
{
    let mut k = lo;
    while k < hi
        invariant
            lo <= k <= hi <= s@.len(),
            forall|j: int| lo <= j < k ==> s@[j] != c,
        decreases hi - k,
    {
        if s[k] == c {
            return true;
        }
        k += 1;
    }
    false
}

/// Index of the first `c` in the window `i..hi`, or `hi` where there is none.
pub open spec fn char_end(s: Seq<char>, i: int, hi: int, c: char) -> int
    decreases hi - i,
{
    if i >= hi {
        hi
    } else if s[i] == c {
        i
    } else {
        char_end(s, i + 1, hi, c)
    }
}

pub proof fn lemma_char_end(s: Seq<char>, i: int, hi: int, c: char)
    requires
        i <= hi,
    ensures
        i <= char_end(s, i, hi, c) <= hi,
        forall|k: int| i <= k < char_end(s, i, hi, c) ==> s[k] != c,
        char_end(s, i, hi, c) < hi ==> s[char_end(s, i, hi, c)] == c,
    decreases hi - i,
{
    if i < hi && s[i] != c {
        lemma_char_end(s, i + 1, hi, c);
    }
}

/// The index of the first `c` in the window `i..hi`, or `hi`.
pub fn char_end_exec(s: &Vec<char>, i: usize, hi: usize, c: char) -> (r: usize)
    requires
        i <= hi <= s@.len(),
    ensures
        r == char_end(s@, i as int, hi as int, c),
        i <= r <= hi,
{
    proof {
        lemma_char_end(s@, i as int, hi as int, c);
    }
    let mut k = i;
    while k < hi && s[k] != c
        invariant
            i <= k <= hi <= s@.len(),
            char_end(s@, i as int, hi as int, c) == char_end(s@, k as int, hi as int, c),
        decreases hi - k,
    {
        k += 1;
    }
    k
}

/// What `{:?}` prints for a string: the text in double quotes, with quotes,
/// backslashes and control characters escaped.
pub uninterp spec fn debug_quoted(s: Seq<char>) -> Seq<char>;

/// The text as `format!("{:?}", s)` writes it, by `<str as Debug>::fmt`.
/// Trusted only to be `debug_quoted` of the text: a function of the text
/// alone. Which characters are escaped, and how, is left unsaid.
#[verifier::external_body]
pub(crate) fn quoted(s: &String) -> (r: String)
    ensures
        r@ == debug_quoted(s@),
{
    format!("{:?}", s)
}

/// The decimal digit character for `d < 10`.
pub open spec fn digit_char(d: nat) -> char {
    if d == 0 {
        '0'
    } else if d == 1 {
        '1'
    } else if d == 2 {
        '2'
    } else if d == 3 {
        '3'
    } else if d == 4 {
        '4'
    } else if d == 5 {
        '5'
    } else if d == 6 {
        '6'
    } else if d == 7 {
        '7'
    } else if d == 8 {
        '8'
    } else {
        '9'
    }
}

/// `n` written in decimal, as `format!("{n}")` writes it.
pub open spec fn decimal_text(n: nat) -> Seq<char>
    decreases n,
{
    if n < 10 {
        seq![digit_char(n)]
    } else {
        decimal_text(n / 10).push(digit_char(n % 10))
    }
}

fn digit_char_exec(d: usize) -> (r: char)
    requires
        d < 10,
    ensures
        r == digit_char(d as nat),
{
    if d == 0 {
        '0'
    } else if d == 1 {
        '1'
    } else if d == 2 {
        '2'
    } else if d == 3 {
        '3'
    } else if d == 4 {
        '4'
    } else if d == 5 {
        '5'
    } else if d == 6 {
        '6'
    } else if d == 7 {
        '7'
    } else if d == 8 {
        '8'
    } else {
        '9'
    }
}

/// Appends `n` written in decimal.
pub fn push_decimal(s: &mut String, n: usize)
    ensures
        final(s)@ == old(s)@ + decimal_text(n as nat),
    decreases n,
{
    if n < 10 {
        push_char(s, digit_char_exec(n));
        assert(decimal_text(n as nat) =~= seq![digit_char(n as nat)]);
    } else {
        push_decimal(s, n / 10);
        push_char(s, digit_char_exec(n % 10));
    }
}

} // verus!
