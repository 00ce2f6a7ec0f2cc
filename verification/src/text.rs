//! Text helpers: decimal rendering of numbers and string concatenation.

use vstd::prelude::*;
use vstd::string::*;

verus! {

/// The character of a decimal digit `d < 10`.
pub open spec fn digit_char(d: nat) -> char {
    (48 + d) as char
}

/// The decimal rendering of `n`, without sign, leading zeros or separators.
pub open spec fn decimal(n: nat) -> Seq<char>
    decreases n,
{
    if n < 10 {
        seq![digit_char(n)]
    } else {
        decimal(n / 10) + seq![digit_char(n % 10)]
    }
}

/// Renders `n` in decimal through `usize`'s `Display`, which prints the
/// digits of the number with no sign, padding or separator.
#[verifier::external_body]
pub(crate) fn decimal_string(n: usize) -> (s: String)
    ensures
        s@ == decimal(n as nat),
{
    n.to_string()
}

/// The concatenation of two strings.
pub fn concat(a: &str, b: &str) -> (s: String)
    ensures
        s@ == a@ + b@,
{
    let mut s = a.to_owned();
    s.append(b);
    s
}

/// Whether two strings have the same characters.
pub fn same_text(a: &str, b: &str) -> (r: bool)
    ensures
        r == (a@ == b@),
{
    let x = a.to_owned();
    let y = b.to_owned();
    x == y
}

/// Whether `ch` is an ASCII letter, digit or `_`.
pub open spec fn is_word_char(ch: char) -> bool {
    ('a' <= ch && ch <= 'z') || ('A' <= ch && ch <= 'Z') || ('0' <= ch && ch <= '9') || ch == '_'
}

/// Whether a C-string literal can start at position `i` of `s`: `c"`, `cr"`
/// or `cr#`, with the `c` not following a letter, digit or `_` (after one of
/// those the lexer takes the `c` into the same word).
pub open spec fn c_string_mark_at(s: Seq<char>, i: int) -> bool {
    &&& 0 <= i
    &&& i + 1 < s.len()
    &&& s[i] == 'c'
    &&& (i == 0 || !is_word_char(s[i - 1]))
    &&& (s[i + 1] == '"' || (s[i + 1] == 'r' && i + 2 < s.len() && (s[i + 2] == '"' || s[i + 2]
        == '#')))
}

/// Whether `s` holds a place where a C-string literal can start. `syn`
/// cannot read such a literal and panics on one, so text that holds such a
/// place is not handed to it.
pub open spec fn has_c_string_mark(s: Seq<char>) -> bool {
    exists|i: int| #[trigger] c_string_mark_at(s, i)
}

fn is_word(ch: char) -> (r: bool)
    ensures
        r == is_word_char(ch),
{
    ('a' <= ch && ch <= 'z') || ('A' <= ch && ch <= 'Z') || ('0' <= ch && ch <= '9') || ch == '_'
}

/// Whether `s` holds a place where a C-string literal can start.
pub fn holds_c_string_mark(s: &str) -> (r: bool)
    ensures
        r == has_c_string_mark(s@),
{
    let n = s.unicode_len();
    let mut i: usize = 0;
    while i < n
        invariant
            n == s@.len(),
            i <= n,
            forall|j: int| 0 <= j < i ==> !#[trigger] c_string_mark_at(s@, j),
        decreases n - i,
    {
        if n - i > 1 && s.get_char(i) == 'c' && (i == 0 || !is_word(s.get_char(i - 1))) {
            let d = s.get_char(i + 1);
            if d == '"' {
                assert(c_string_mark_at(s@, i as int));
                return true;
            }
            if d == 'r' && n - i > 2 {
                let e = s.get_char(i + 2);
                if e == '"' || e == '#' {
                    assert(c_string_mark_at(s@, i as int));
                    return true;
                }
            }
        }
        i = i + 1;
    }
    assert forall|j: int| !#[trigger] c_string_mark_at(s@, j) by {
        if 0 <= j < n {
        }
    }
    false
}

} // verus!
