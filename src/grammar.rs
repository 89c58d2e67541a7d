//! Character-level building blocks of the log line grammar: character
//! classes, maximal runs, literals and decimal numbers, each given as a spec
//! function together with an executable matcher proved equal to it.
use vstd::prelude::*;

verus! {

/// The character classes that the line grammar scans runs of.
#[derive(Clone, Copy, PartialEq, Eq)]
pub enum CharClass {
    /// `0-9`
    Digit,
    /// ASCII letters, digits and `_`
    Word,
    /// word characters and `.`
    WordDot,
    /// digits and the space
    DigitSpace,
    /// anything but `(`
    NotParen,
    /// anything but the space
    NotSpace,
}

pub open spec fn is_digit(c: char) -> bool {
    '0' <= c <= '9'
}

pub open spec fn is_word(c: char) -> bool {
    is_digit(c) || ('a' <= c <= 'z') || ('A' <= c <= 'Z') || c == '_'
}

pub open spec fn in_class(k: CharClass, c: char) -> bool {
    match k {
        CharClass::Digit => is_digit(c),
        CharClass::Word => is_word(c),
        CharClass::WordDot => is_word(c) || c == '.',
        CharClass::DigitSpace => is_digit(c) || c == ' ',
        CharClass::NotParen => c != '(',
        CharClass::NotSpace => c != ' ',
    }
}

/// End of the longest run of class `k` that starts at `i`.
pub open spec fn run_end(s: Seq<char>, i: int, k: CharClass) -> int
    decreases s.len() - i,
{
    if 0 <= i < s.len() && in_class(k, s[i]) {
        run_end(s, i + 1, k)
    } else {
        i
    }
}

/// `t` stands in `s` at position `i`.
pub open spec fn lit_at(s: Seq<char>, i: int, t: Seq<char>) -> bool {
    0 <= i && i + t.len() <= s.len() && s.subrange(i, i + t.len()) == t
}

pub open spec fn digit_value(c: char) -> nat {
    (c as u32 - '0' as u32) as nat
}

/// Value of a string of decimal digits, most significant first.
pub open spec fn decimal_value(d: Seq<char>) -> nat
    decreases d.len(),
{
    if d.len() == 0 {
        0
    } else {
        decimal_value(d.drop_last()) * 10 + digit_value(d.last())
    }
}

/// The number written by the digits `s[i..j]`, where that span is not empty
/// and its value fits in a `usize`.
pub open spec fn number_at(s: Seq<char>, i: int, j: int) -> Option<usize> {
    if 0 <= i < j <= s.len() && decimal_value(s.subrange(i, j)) <= usize::MAX {
        Some(decimal_value(s.subrange(i, j)) as usize)
    } else {
        None
    }
}

pub proof fn lemma_run_end_bounds(s: Seq<char>, i: int, k: CharClass)
    requires
        0 <= i <= s.len(),
    ensures
        i <= run_end(s, i, k) <= s.len(),
        forall|m: int| i <= m < run_end(s, i, k) ==> in_class(k, #[trigger] s[m]),
        run_end(s, i, k) < s.len() ==> !in_class(k, s[run_end(s, i, k)]),
    decreases s.len() - i,
{
    if i < s.len() && in_class(k, s[i]) {
        lemma_run_end_bounds(s, i + 1, k);
    }
}

fn char_in_class(k: CharClass, c: char) -> (r: bool)
    ensures
        r == in_class(k, c),
{
    let digit = '0' <= c && c <= '9';
    let word = digit || ('a' <= c && c <= 'z') || ('A' <= c && c <= 'Z') || c == '_';
    match k {
        CharClass::Digit => digit,
        CharClass::Word => word,
        CharClass::WordDot => word || c == '.',
        CharClass::DigitSpace => digit || c == ' ',
        CharClass::NotParen => c != '(',
        CharClass::NotSpace => c != ' ',
    }
}

/// Scans the run of class `k` that starts at `i` and returns where it ends.
pub fn scan(s: &Vec<char>, i: usize, k: CharClass) -> (j: usize)
    requires
        i <= s@.len(),
    ensures
        j == run_end(s@, i as int, k),
        i <= j <= s@.len(),
{
    let mut j: usize = i;
    while j < s.len() && char_in_class(k, s[j])
        invariant
            i <= j <= s@.len(),
            run_end(s@, j as int, k) == run_end(s@, i as int, k),
        decreases s@.len() - j,
    {
        j = j + 1;
    }
    proof {
        lemma_run_end_bounds(s@, i as int, k);
    }
    j
}

/// Whether the literal `t` stands in `s` at position `i`.
pub fn lit_matches(s: &Vec<char>, i: usize, t: &str) -> (r: bool)
    ensures
        r == lit_at(s@, i as int, t@),
{
    let n = t.unicode_len();
    if n > s.len() || i > s.len() - n {
        return false;
    }
    let mut m: usize = 0;
    while m < n
        invariant
            n == t@.len(),
            i + n <= s.len(),
            m <= n,
            forall|p: int| 0 <= p < m ==> s@[i + p] == t@[p],
        decreases n - m,
    {
        if s[i + m] != t.get_char(m) {
            assert(s@.subrange(i as int, i + n)[m as int] != t@[m as int]);
            return false;
        }
        m = m + 1;
    }
    assert(s@.subrange(i as int, i + n) =~= t@);
    true
}

/// Whether `s[a..b]` is exactly the literal `t`.
pub fn span_is(s: &Vec<char>, a: usize, b: usize, t: &str) -> (r: bool)
    requires
        a <= b <= s@.len(),
    ensures
        r == (s@.subrange(a as int, b as int) == t@),
{
    let n = t.unicode_len();
    if b - a != n {
        proof {
            if s@.subrange(a as int, b as int) == t@ {
                assert(s@.subrange(a as int, b as int).len() == t@.len());
            }
        }
        return false;
    }
    lit_matches(s, a, t)
}

proof fn lemma_decimal_step(s: Seq<char>, i: int, m: int)
    requires
        0 <= i <= m < s.len(),
    ensures
        decimal_value(s.subrange(i, m + 1)) == decimal_value(s.subrange(i, m)) * 10
            + digit_value(s[m]),
{
    assert(s.subrange(i, m + 1).drop_last() =~= s.subrange(i, m));
}

proof fn lemma_decimal_grows(s: Seq<char>, i: int, m: int, j: int)
    requires
        0 <= i <= m <= j <= s.len(),
    ensures
        decimal_value(s.subrange(i, m)) <= decimal_value(s.subrange(i, j)),
    decreases j - m,
{
    if m < j {
        lemma_decimal_grows(s, i, m, j - 1);
        lemma_decimal_step(s, i, j - 1);
    }
}

/// Reads the digits `s[i..j]` as a number; `None` where the span is empty or
/// the number does not fit in a `usize`.
pub fn parse_number(s: &Vec<char>, i: usize, j: usize) -> (r: Option<usize>)
    requires
        i <= j <= s@.len(),
        forall|m: int| i <= m < j ==> is_digit(#[trigger] s@[m]),
    ensures
        r == number_at(s@, i as int, j as int),
{
    if i == j {
        return None;
    }
    let mut acc: usize = 0;
    let mut m: usize = i;
    assert(s@.subrange(i as int, i as int) =~= Seq::<char>::empty());
    while m < j
        invariant
            i <= m <= j <= s@.len(),
            forall|p: int| i <= p < j ==> is_digit(#[trigger] s@[p]),
            acc == decimal_value(s@.subrange(i as int, m as int)),
        decreases j - m,
    {
        let c = s[m];
        let d = (c as u32 - '0' as u32) as usize;
        proof {
            lemma_decimal_step(s@, i as int, m as int);
        }
        if acc > (usize::MAX - d) / 10 {
            proof {
                assert(acc * 10 + d > usize::MAX) by (nonlinear_arith)
                    requires
                        acc > (usize::MAX - d) / 10,
                        d <= 9,
                ;
                lemma_decimal_grows(s@, i as int, m as int + 1, j as int);
            }
            return None;
        }
        proof {
            assert(acc * 10 + d <= usize::MAX) by (nonlinear_arith)
                requires
                    acc <= (usize::MAX - d) / 10,
                    d <= 9,
            ;
        }
        acc = acc * 10 + d;
        m = m + 1;
    }
    Some(acc)
}

} // verus!
