//! The `seq!` repetition: `N in START..END { BODY }` expands `BODY` once for
//! every `N` in the range, or, when `BODY` holds `#( ... )*`, repeats only the
//! marked parts.

use crate::text::{concat, decimal, decimal_string, has_c_string_mark, holds_c_string_mark, same_text};
use crate::tokens::{
    Delimiter, Spacing, Token, TokenTree, duplicate_trees, lemma_trees_value, lemma_trees_value_push,
    trees_value,
};
use vstd::prelude::*;

verus! {

/// Whether `t` is the punctuation character `c`.
pub open spec fn is_punct(t: Token, c: char) -> bool {
    t matches Token::Punct(x, _) && x == c
}

/// The text a token contributes when pasted into an identifier. A group
/// contributes its delimiters.
pub open spec fn token_text(t: Token) -> Seq<char> {
    match t {
        Token::Group(d, _) => delimiter_text(d),
        Token::Ident(s, _) => s,
        Token::Punct(c, _) => seq![c],
        Token::Literal(s) => s,
    }
}

/// The delimiter characters of a group.
pub open spec fn delimiter_text(d: Delimiter) -> Seq<char> {
    match d {
        Delimiter::Parenthesis => seq!['(', ')'],
        Delimiter::Brace => seq!['{', '}'],
        Delimiter::Bracket => seq!['[', ']'],
        Delimiter::NoDelimiter => seq![],
    }
}

/// `buf` from position `k` on, or nothing when `k` is past its end.
pub open spec fn tail_from(buf: Seq<Token>, k: int) -> Seq<Token> {
    if k < buf.len() {
        buf.subrange(k, buf.len() as int)
    } else {
        buf.subrange(buf.len() as int, buf.len() as int)
    }
}

/// `buf` with the variable `var` replaced by the literal `n`, inside groups
/// too. An identifier followed by `~` and the variable is pasted with `n`:
/// `f ~ N` becomes `fn`, and `f ~ N ~ s` becomes `fns` where `s` is the text
/// of the fifth token; the pasted identifier keeps the span of `f`.
pub open spec fn substituted(buf: Seq<Token>, var: Seq<char>, n: nat) -> Seq<Token>
    decreases buf,
{
    if buf.len() == 0 {
        seq![]
    } else {
        match buf[0] {
            Token::Group(d, inner) => seq![Token::Group(d, substituted(inner, var, n))]
                + substituted(tail_from(buf, 1), var, n),
            Token::Ident(x, sp) => if x == var {
                seq![Token::Literal(decimal(n))] + substituted(tail_from(buf, 1), var, n)
            } else if buf.len() > 2 && is_punct(buf[1], '~') && ident_of(buf[2]) == Some(var) {
                if buf.len() > 4 && is_punct(buf[3], '~') {
                    seq![Token::Ident(x + decimal(n) + token_text(buf[4]), sp)] + substituted(
                        tail_from(buf, 5),
                        var,
                        n,
                    )
                } else {
                    seq![Token::Ident(x + decimal(n), sp)] + substituted(tail_from(buf, 3), var, n)
                }
            } else {
                seq![buf[0]] + substituted(tail_from(buf, 1), var, n)
            },
            _ => seq![buf[0]] + substituted(tail_from(buf, 1), var, n),
        }
    }
}

/// `body` substituted with every value of `start..end` in turn, one copy
/// after the other.
pub open spec fn repeated(body: Seq<Token>, var: Seq<char>, start: nat, end: nat) -> Seq<Token>
    decreases end - start,
{
    if start >= end {
        seq![]
    } else {
        substituted(body, var, start) + repeated(body, var, start + 1, end)
    }
}

/// Whether `t` is a group; its contents when it is.
pub open spec fn group_contents(t: Token) -> Option<Seq<Token>> {
    match t {
        Token::Group(_, inner) => Some(inner),
        _ => None,
    }
}

/// Whether `buf` starts with a repetition `# ( ... ) *`.
pub open spec fn starts_repetition(buf: Seq<Token>) -> bool {
    buf.len() > 2 && is_punct(buf[0], '#') && is_punct(buf[2], '*') && group_contents(buf[1]) is Some
}

/// Whether `buf` holds a repetition `# ( ... ) *`, at any depth.
pub open spec fn has_repetition(buf: Seq<Token>) -> bool
    decreases buf,
{
    if buf.len() == 0 {
        false
    } else {
        match buf[0] {
            Token::Group(_, inner) => has_repetition(inner) || has_repetition(tail_from(buf, 1)),
            _ => if starts_repetition(buf) {
                true
            } else {
                has_repetition(tail_from(buf, 1))
            },
        }
    }
}

/// `buf` with every repetition `# ( ... ) *`, at any depth, replaced by the
/// contents of its group repeated for `start..end`.
pub open spec fn repetitions_expanded(buf: Seq<Token>, var: Seq<char>, start: nat, end: nat) -> Seq<
    Token,
>
    decreases buf,
{
    if buf.len() == 0 {
        seq![]
    } else {
        match buf[0] {
            Token::Group(d, inner) => seq![Token::Group(d, repetitions_expanded(inner, var, start, end))]
                + repetitions_expanded(tail_from(buf, 1), var, start, end),
            _ => if starts_repetition(buf) {
                repeated(group_contents(buf[1]).unwrap(), var, start, end) + repetitions_expanded(
                    tail_from(buf, 3),
                    var,
                    start,
                    end,
                )
            } else {
                seq![buf[0]] + repetitions_expanded(tail_from(buf, 1), var, start, end)
            },
        }
    }
}

/// The expansion of `seq!`: the repetitions of the body when it has any,
/// otherwise the whole body once for every value of the range.
pub open spec fn expansion(body: Seq<Token>, var: Seq<char>, start: nat, end: nat) -> Seq<Token> {
    if has_repetition(body) {
        repetitions_expanded(body, var, start, end)
    } else {
        repeated(body, var, start, end)
    }
}

proof fn lemma_repeated_snoc(body: Seq<Token>, var: Seq<char>, start: nat, n: nat)
    requires
        start <= n,
    ensures
        repeated(body, var, start, n + 1) == repeated(body, var, start, n) + substituted(body, var, n),
    decreases n - start,
{
    if start < n {
        lemma_repeated_snoc(body, var, start + 1, n);
        assert(repeated(body, var, start, n + 1) =~= substituted(body, var, start) + (repeated(
            body,
            var,
            start + 1,
            n,
        ) + substituted(body, var, n)));
    } else {
        assert(repeated(body, var, n + 1, n + 1) =~= Seq::<Token>::empty());
        assert(repeated(body, var, start, n) =~= Seq::<Token>::empty());
        assert(repeated(body, var, start, n + 1) =~= substituted(body, var, n) + Seq::<Token>::empty());
    }
}

/// What an integer literal denotes as a `usize`.
#[derive(Debug, Clone, Copy, PartialEq, Eq, Structural)]
pub enum UsizeLiteral {
    /// The text is not an integer literal.
    NotInteger,
    /// An integer literal whose value is not a `usize`.
    OutOfRange,
    /// An integer literal and its value.
    Value(usize),
}

/// What `syn` makes of an integer literal written as `text`, read as a
/// `usize` by `LitInt::base10_parse`.
pub uninterp spec fn usize_literal(text: Seq<char>) -> UsizeLiteral;

/// Whether `syn` accepts `text` as an identifier: keywords and `_` are
/// rejected.
pub uninterp spec fn ident_accepted(text: Seq<char>) -> bool;

/// Reads an integer literal with `syn`: `syn::parse_str::<LitInt>` decides
/// whether the text is an integer literal and `LitInt::base10_parse` gives its
/// value. A plain decimal rendering of a `usize` reads as that value.
#[verifier::external_body]
fn read_usize_literal(text: &str) -> (r: UsizeLiteral)
    requires
        !has_c_string_mark(text@),
    ensures
        r == usize_literal(text@),
        forall|v: usize| text@ == decimal(v as nat) ==> r == UsizeLiteral::Value(v),
{
    match syn::parse_str::<syn::LitInt>(text) {
        Ok(lit) => match lit.base10_parse::<usize>() {
            Ok(v) => UsizeLiteral::Value(v),
            Err(_) => UsizeLiteral::OutOfRange,
        },
        Err(_) => UsizeLiteral::NotInteger,
    }
}

/// What a literal written as `text` denotes as a `usize`: what `syn` reads,
/// except that a text holding the start of a C-string literal, which `syn`
/// cannot read, is no integer.
pub open spec fn literal_reading(text: Seq<char>) -> UsizeLiteral {
    if has_c_string_mark(text) {
        UsizeLiteral::NotInteger
    } else {
        usize_literal(text)
    }
}

/// Reads a literal written as `text` as a `usize`.
pub fn read_literal(text: &str) -> (r: UsizeLiteral)
    ensures
        r == literal_reading(text@),
{
    if holds_c_string_mark(text) {
        UsizeLiteral::NotInteger
    } else {
        read_usize_literal(text)
    }
}

/// The start of a range from the reading of its literal.
pub open spec fn start_of_range(v: UsizeLiteral) -> Result<usize, SeqError> {
    match v {
        UsizeLiteral::Value(s) => Ok(s),
        _ => Err(SeqError::InvalidStart),
    }
}

/// The start of a range: the value of its literal, or `InvalidStart` when
/// the literal is not a `usize`.
pub fn range_start(v: UsizeLiteral) -> (r: Result<usize, SeqError>)
    ensures
        r == start_of_range(v),
{
    match v {
        UsizeLiteral::Value(s) => Ok(s),
        _ => Err(SeqError::InvalidStart),
    }
}

/// The excluded end of a range from the reading of its literal: one past an
/// inclusive end.
pub open spec fn end_of_range(v: UsizeLiteral, inclusive: bool) -> Result<usize, SeqError> {
    match v {
        UsizeLiteral::Value(e) => if !inclusive {
            Ok(e)
        } else if e == usize::MAX {
            Err(SeqError::EndOverflow)
        } else {
            Ok((e + 1) as usize)
        },
        _ => Err(SeqError::InvalidEnd),
    }
}

/// The excluded end of a range: the value of its literal, one more for an
/// inclusive range; `InvalidEnd` when the literal is not a `usize`, and
/// `EndOverflow` when an inclusive end is `usize::MAX`.
pub fn range_end(v: UsizeLiteral, inclusive: bool) -> (r: Result<usize, SeqError>)
    ensures
        r == end_of_range(v, inclusive),
{
    match v {
        UsizeLiteral::Value(e) => if !inclusive {
            Ok(e)
        } else if e == usize::MAX {
            Err(SeqError::EndOverflow)
        } else {
            Ok(e + 1)
        },
        _ => Err(SeqError::InvalidEnd),
    }
}

/// Whether `syn::parse_str::<syn::Ident>` accepts the text.
#[verifier::external_body]
fn accepts_ident(text: &str) -> (r: bool)
    ensures
        r == ident_accepted(text@),
{
    syn::parse_str::<syn::Ident>(text).is_ok()
}

/// Why a `seq!` invocation could not be read.
#[derive(Debug, Clone, Copy, PartialEq, Eq, Structural)]
pub enum SeqError {
    /// The loop variable is missing.
    ExpectedIdent,
    /// The keyword `in` is missing.
    ExpectedIn,
    /// A bound of the range is not an integer literal.
    ExpectedInteger,
    /// The `..` of the range is missing.
    ExpectedRange,
    /// The end of the range is not a `usize`.
    InvalidEnd,
    /// The inclusive end of the range is `usize::MAX`.
    EndOverflow,
    /// The body in braces is missing.
    ExpectedBraces,
    /// The start of the range is not a `usize`.
    InvalidStart,
    /// Tokens follow the body.
    UnexpectedToken,
}

/// The text of an identifier token.
pub open spec fn ident_of(t: Token) -> Option<Seq<char>> {
    match t {
        Token::Ident(s, _) => Some(s),
        _ => None,
    }
}

/// The integer literal at position `i`, if any: how many tokens it takes and
/// what it denotes. A `-` followed by an integer literal is a negative
/// literal, which is never a `usize`.
pub open spec fn int_literal_at(ts: Seq<Token>, i: int) -> Option<(int, UsizeLiteral)> {
    if 0 <= i < ts.len() && literal_of(ts[i]) is Some && literal_reading(literal_of(ts[i]).unwrap())
        != UsizeLiteral::NotInteger {
        Some((1, literal_reading(literal_of(ts[i]).unwrap())))
    } else if 0 <= i && i + 1 < ts.len() && is_punct(ts[i], '-') && literal_of(ts[i + 1]) is Some
        && literal_reading(literal_of(ts[i + 1]).unwrap()) != UsizeLiteral::NotInteger {
        Some((2, UsizeLiteral::OutOfRange))
    } else {
        None
    }
}

/// The text of a literal token.
pub open spec fn literal_of(t: Token) -> Option<Seq<char>> {
    match t {
        Token::Literal(s) => Some(s),
        _ => None,
    }
}

/// The contents of a brace group.
pub open spec fn brace_contents(t: Token) -> Option<Seq<Token>> {
    match t {
        Token::Group(Delimiter::Brace, inner) => Some(inner),
        _ => None,
    }
}

/// The reading of `VAR in START..END { BODY }` or `VAR in START..=END { BODY }`
/// from `ts`: the variable, the range with its end excluded, and the body;
/// or the first thing that is wrong, in the order the parts are read.
pub open spec fn parse_outcome(ts: Seq<Token>) -> Result<(Seq<char>, nat, nat, Seq<Token>), SeqError> {
    if !(ts.len() > 0 && ident_of(ts[0]) is Some && ident_accepted(ident_of(ts[0]).unwrap())) {
        Err(SeqError::ExpectedIdent)
    } else if !(ts.len() > 1 && ident_of(ts[1]) == Some(seq!['i', 'n'])) {
        Err(SeqError::ExpectedIn)
    } else if int_literal_at(ts, 2) is None {
        Err(SeqError::ExpectedInteger)
    } else {
        let (l1, v1) = int_literal_at(ts, 2).unwrap();
        let p = 2 + l1;
        if !(p + 1 < ts.len() && ts[p] == Token::Punct('.', Spacing::Joint) && is_punct(
            ts[p + 1],
            '.',
        )) {
            Err(SeqError::ExpectedRange)
        } else {
            let inclusive = p + 2 < ts.len() && is_punct(ts[p + 2], '=');
            let q = if inclusive {
                p + 3
            } else {
                p + 2
            };
            if int_literal_at(ts, q) is None {
                Err(SeqError::ExpectedInteger)
            } else {
                let (l2, v2) = int_literal_at(ts, q).unwrap();
                let r = q + l2;
                if !(v2 is Value) {
                    Err(SeqError::InvalidEnd)
                } else if inclusive && v2->Value_0 == usize::MAX {
                    Err(SeqError::EndOverflow)
                } else if !(r < ts.len() && brace_contents(ts[r]) is Some) {
                    Err(SeqError::ExpectedBraces)
                } else if !(v1 is Value) {
                    Err(SeqError::InvalidStart)
                } else if r + 1 != ts.len() {
                    Err(SeqError::UnexpectedToken)
                } else {
                    Ok(
                        (
                            ident_of(ts[0]).unwrap(),
                            v1->Value_0 as nat,
                            if inclusive {
                                (v2->Value_0 + 1) as nat
                            } else {
                                v2->Value_0 as nat
                            },
                            brace_contents(ts[r]).unwrap(),
                        ),
                    )
                }
            }
        }
    }
}

/// The tokens of `VAR in START..END { BODY }`, the two identifiers with the
/// span tags `tags`.
pub open spec fn exclusive_invocation(
    tags: (usize, usize),
    var: Seq<char>,
    start: Seq<char>,
    end: Seq<char>,
    body: Seq<Token>,
) -> Seq<Token> {
    seq![
        Token::Ident(var, tags.0),
        Token::Ident(seq!['i', 'n'], tags.1),
        Token::Literal(start),
        Token::Punct('.', Spacing::Joint),
        Token::Punct('.', Spacing::Alone),
        Token::Literal(end),
        Token::Group(Delimiter::Brace, body),
    ]
}

/// The tokens of `VAR in START..=END { BODY }`, the two identifiers with the
/// span tags `tags`.
pub open spec fn inclusive_invocation(
    tags: (usize, usize),
    var: Seq<char>,
    start: Seq<char>,
    end: Seq<char>,
    body: Seq<Token>,
) -> Seq<Token> {
    seq![
        Token::Ident(var, tags.0),
        Token::Ident(seq!['i', 'n'], tags.1),
        Token::Literal(start),
        Token::Punct('.', Spacing::Joint),
        Token::Punct('.', Spacing::Joint),
        Token::Punct('=', Spacing::Alone),
        Token::Literal(end),
        Token::Group(Delimiter::Brace, body),
    ]
}

/// An inclusive range `START..=END` runs over the same numbers as the
/// exclusive range `START..END + 1`: both invocations read as the same
/// variable, range and body.
pub proof fn law_inclusive_range_includes_end(
    tags: (usize, usize),
    var: Seq<char>,
    start: Seq<char>,
    end: Seq<char>,
    end_after: Seq<char>,
    body: Seq<Token>,
    s: usize,
    e: usize,
)
    requires
        ident_accepted(var),
        literal_reading(start) == UsizeLiteral::Value(s),
        literal_reading(end) == UsizeLiteral::Value(e),
        e < usize::MAX,
        literal_reading(end_after) == UsizeLiteral::Value((e + 1) as usize),
    ensures
        parse_outcome(inclusive_invocation(tags, var, start, end, body)) == Ok::<
            (Seq<char>, nat, nat, Seq<Token>),
            SeqError,
        >((var, s as nat, (e + 1) as nat, body)),
        parse_outcome(inclusive_invocation(tags, var, start, end, body)) == parse_outcome(
            exclusive_invocation(tags, var, start, end_after, body),
        ),
{
    let inc = inclusive_invocation(tags, var, start, end, body);
    let exc = exclusive_invocation(tags, var, start, end_after, body);
    assert(int_literal_at(inc, 2) == Some((1int, UsizeLiteral::Value(s))));
    assert(int_literal_at(inc, 6) == Some((1int, UsizeLiteral::Value(e))));
    assert(int_literal_at(exc, 2) == Some((1int, UsizeLiteral::Value(s))));
    assert(int_literal_at(exc, 5) == Some((1int, UsizeLiteral::Value((e + 1) as usize))));
}

/// A repetition `#( ... )*` is found inside a group of any delimiter: a body
/// made of one group holding only the repetition of `x` has a repetition and
/// expands to that group holding `x` repeated over the range, once.
pub proof fn law_repetition_inside_any_group(
    d: Delimiter,
    inner_d: Delimiter,
    x: Seq<Token>,
    hash_spacing: Spacing,
    star_spacing: Spacing,
    var: Seq<char>,
    start: nat,
    end: nat,
)
    ensures
        ({
            let rep = seq![
                Token::Punct('#', hash_spacing),
                Token::Group(inner_d, x),
                Token::Punct('*', star_spacing),
            ];
            let body = seq![Token::Group(d, rep)];
            &&& has_repetition(body)
            &&& expansion(body, var, start, end) == seq![Token::Group(d, repeated(x, var, start, end))]
        }),
{
    let rep = seq![
        Token::Punct('#', hash_spacing),
        Token::Group(inner_d, x),
        Token::Punct('*', star_spacing),
    ];
    let body = seq![Token::Group(d, rep)];
    assert(starts_repetition(rep));
    assert(tail_from(rep, 3) =~= Seq::<Token>::empty());
    assert(tail_from(body, 1) =~= Seq::<Token>::empty());
    assert(has_repetition(rep));
    assert(has_repetition(body));
    assert(repetitions_expanded(Seq::<Token>::empty(), var, start, end) =~= Seq::<Token>::empty());
    assert(repetitions_expanded(rep, var, start, end) =~= repeated(x, var, start, end));
    assert(repetitions_expanded(body, var, start, end) =~= seq![Token::Group(d, repeated(x, var, start, end))]);
}

/// The delimiter of a group plays no part in finding and expanding the
/// repetitions inside it: two bodies that differ only in the delimiter of a
/// leading group agree on whether they hold a repetition, and expand to the
/// same tokens but for that delimiter.
pub proof fn law_delimiter_does_not_matter(
    d1: Delimiter,
    d2: Delimiter,
    inner: Seq<Token>,
    rest: Seq<Token>,
    var: Seq<char>,
    start: nat,
    end: nat,
)
    ensures
        has_repetition(seq![Token::Group(d1, inner)] + rest) == has_repetition(
            seq![Token::Group(d2, inner)] + rest,
        ),
        repetitions_expanded(seq![Token::Group(d1, inner)] + rest, var, start, end).len() > 0,
        repetitions_expanded(seq![Token::Group(d1, inner)] + rest, var, start, end)[0] == Token::Group(
            d1,
            repetitions_expanded(inner, var, start, end),
        ),
        repetitions_expanded(seq![Token::Group(d1, inner)] + rest, var, start, end).drop_first()
            == repetitions_expanded(seq![Token::Group(d2, inner)] + rest, var, start, end).drop_first(),
{
    let b1 = seq![Token::Group(d1, inner)] + rest;
    let b2 = seq![Token::Group(d2, inner)] + rest;
    assert(tail_from(b1, 1) =~= rest);
    assert(tail_from(b2, 1) =~= rest);
    assert(b1[0] == Token::Group(d1, inner));
    assert(b2[0] == Token::Group(d2, inner));
    let e1 = repetitions_expanded(b1, var, start, end);
    let e2 = repetitions_expanded(b2, var, start, end);
    assert(e1 == seq![Token::Group(d1, repetitions_expanded(inner, var, start, end))]
        + repetitions_expanded(rest, var, start, end));
    assert(e2 == seq![Token::Group(d2, repetitions_expanded(inner, var, start, end))]
        + repetitions_expanded(rest, var, start, end));
    assert(e1.drop_first() =~= repetitions_expanded(rest, var, start, end));
    assert(e2.drop_first() =~= repetitions_expanded(rest, var, start, end));
}

/// Repeating over a range is repeating over its two halves, one after the
/// other: each value of the range gives one copy, in order.
pub proof fn law_repeated_splits(body: Seq<Token>, var: Seq<char>, start: nat, mid: nat, end: nat)
    requires
        start <= mid <= end,
    ensures
        repeated(body, var, start, end) == repeated(body, var, start, mid) + repeated(body, var, mid, end),
    decreases mid - start,
{
    if start < mid {
        law_repeated_splits(body, var, start + 1, mid, end);
        assert(repeated(body, var, start, end) =~= substituted(body, var, start) + (repeated(
            body,
            var,
            start + 1,
            mid,
        ) + repeated(body, var, mid, end)));
    } else {
        assert(repeated(body, var, start, mid) =~= Seq::<Token>::empty());
        assert(repeated(body, var, start, end) =~= Seq::<Token>::empty() + repeated(body, var, mid, end));
    }
}

/// The loop variable becomes the number, whatever its span, and the rest is
/// substituted on its own.
pub proof fn law_variable_becomes_number(var: Seq<char>, tag: usize, rest: Seq<Token>, n: nat)
    ensures
        substituted(seq![Token::Ident(var, tag)] + rest, var, n) == seq![Token::Literal(decimal(n))]
            + substituted(rest, var, n),
{
    let b = seq![Token::Ident(var, tag)] + rest;
    assert(b[0] == Token::Ident(var, tag));
    assert(tail_from(b, 1) =~= rest);
}

/// Another identifier is kept as it is unless `~` and the variable follow
/// it.
pub proof fn law_other_identifier_kept(
    x: Seq<char>,
    var: Seq<char>,
    tag: usize,
    rest: Seq<Token>,
    n: nat,
)
    requires
        x != var,
        !(rest.len() > 1 && is_punct(rest[0], '~') && ident_of(rest[1]) == Some(var)),
    ensures
        substituted(seq![Token::Ident(x, tag)] + rest, var, n) == seq![Token::Ident(x, tag)]
            + substituted(rest, var, n),
{
    let b = seq![Token::Ident(x, tag)] + rest;
    assert(b[0] == Token::Ident(x, tag));
    assert(tail_from(b, 1) =~= rest);
    if b.len() > 2 {
        assert(b[1] == rest[0]);
        assert(b[2] == rest[1]);
    }
}

/// `f ~ N` becomes the one identifier `f` followed by the number, with the
/// span of `f`, when no second `~` follows.
pub proof fn law_paste_with_variable(
    x: Seq<char>,
    var: Seq<char>,
    tag: usize,
    tilde: Spacing,
    var_tag: usize,
    rest: Seq<Token>,
    n: nat,
)
    requires
        x != var,
        !(rest.len() > 1 && is_punct(rest[0], '~')),
    ensures
        substituted(
            seq![Token::Ident(x, tag), Token::Punct('~', tilde), Token::Ident(var, var_tag)] + rest,
            var,
            n,
        ) == seq![Token::Ident(x + decimal(n), tag)] + substituted(rest, var, n),
{
    let b = seq![Token::Ident(x, tag), Token::Punct('~', tilde), Token::Ident(var, var_tag)] + rest;
    assert(b[0] == Token::Ident(x, tag));
    assert(b[1] == Token::Punct('~', tilde));
    assert(b[2] == Token::Ident(var, var_tag));
    assert(tail_from(b, 3) =~= rest);
    if b.len() > 4 {
        assert(b[3] == rest[0]);
    }
}

proof fn lemma_tail_step(vals: Seq<Token>, i: int, k: int)
    requires
        0 <= i < vals.len(),
        k >= 1,
    ensures
        tail_from(vals, i).len() == vals.len() - i,
        forall|j: int| 0 <= j < vals.len() - i ==> #[trigger] tail_from(vals, i)[j] == vals[i + j],
        tail_from(tail_from(vals, i), k) == tail_from(vals, i + k),
{
    assert(tail_from(tail_from(vals, i), k) =~= tail_from(vals, i + k));
}

/// Whether the token tree is the punctuation `~`.
fn is_tilde(t: &TokenTree) -> (r: bool)
    ensures
        r == is_punct(t@, '~'),
{
    match t {
        TokenTree::Punct(c, _) => *c == '~',
        _ => false,
    }
}

/// Whether the token tree is the identifier `name`.
fn is_ident_named(t: &TokenTree, name: &str) -> (r: bool)
    ensures
        r == (ident_of(t@) == Some(name@)),
{
    match t {
        TokenTree::Ident(s, _) => same_text(s.as_str(), name),
        _ => false,
    }
}

/// Whether the token tree is the punctuation `c`.
fn is_punct_char(t: &TokenTree, c: char) -> (r: bool)
    ensures
        r == is_punct(t@, c),
{
    match t {
        TokenTree::Punct(x, _) => *x == c,
        _ => false,
    }
}

/// The text a token contributes when pasted into an identifier.
fn text_of(t: &TokenTree) -> (r: String)
    ensures
        r@ == token_text(t@),
{
    match t {
        TokenTree::Group(d, _) => {
            proof {
                reveal_strlit("()");
                reveal_strlit("{}");
                reveal_strlit("[]");
                reveal_strlit("");
            }
            match d {
                Delimiter::Parenthesis => "()".to_owned(),
                Delimiter::Brace => "{}".to_owned(),
                Delimiter::Bracket => "[]".to_owned(),
                Delimiter::NoDelimiter => "".to_owned(),
            }
        },
        TokenTree::Ident(s, _) => s.clone(),
        TokenTree::Punct(c, _) => char_string(*c),
        TokenTree::Literal(s) => s.clone(),
    }
}

/// The string holding the single character `c`, through `char`'s
/// `to_string`, which renders the character itself.
#[verifier::external_body]
fn char_string(c: char) -> (s: String)
    ensures
        s@ == seq![c],
{
    c.to_string()
}

/// A parsed `seq!` invocation.
pub struct SeqParser {
    /// The loop variable.
    pub name: String,
    /// First value of the range.
    pub start: usize,
    /// End of the range, excluded.
    pub end: usize,
    /// The tokens to repeat.
    pub body: Vec<TokenTree>,
}

/// Reads the integer literal at position `i` of `ts`.
fn read_int_literal_at(ts: &Vec<TokenTree>, i: usize) -> (r: Option<(usize, UsizeLiteral)>)
    ensures
        r matches Some((l, v)) ==> int_literal_at(trees_value(ts@), i as int) == Some((l as int, v)),
        r is None ==> int_literal_at(trees_value(ts@), i as int) is None,
{
    proof {
        lemma_trees_value(ts@);
    }
    if i < ts.len() {
        if let TokenTree::Literal(t) = &ts[i] {
            let v = read_literal(t.as_str());
            if v != UsizeLiteral::NotInteger {
                return Some((1, v));
            }
        }
        if ts.len() - i > 1 && is_punct_char(&ts[i], '-') {
            if let TokenTree::Literal(t) = &ts[i + 1] {
                let v = read_literal(t.as_str());
                if v != UsizeLiteral::NotInteger {
                    return Some((2, UsizeLiteral::OutOfRange));
                }
            }
        }
    }
    None
}

impl SeqParser {
    /// Reads `VAR in START..END { BODY }` (or `..=END`) from the tokens of an
    /// invocation.
    pub fn parse(tokens: &Vec<TokenTree>) -> (r: Result<SeqParser, SeqError>)
        ensures
            r matches Ok(p) ==> parse_outcome(trees_value(tokens@)) == Ok::<
                (Seq<char>, nat, nat, Seq<Token>),
                SeqError,
            >((p.name@, p.start as nat, p.end as nat, trees_value(p.body@))),
            r matches Err(e) ==> parse_outcome(trees_value(tokens@)) == Err::<
                (Seq<char>, nat, nat, Seq<Token>),
                SeqError,
            >(e),
    {
        let ghost ts = trees_value(tokens@);
        proof {
            lemma_trees_value(tokens@);
        }
        let len = tokens.len();
        if len == 0 {
            return Err(SeqError::ExpectedIdent);
        }
        let name = match &tokens[0] {
            TokenTree::Ident(x, _) => {
                if !accepts_ident(x.as_str()) {
                    return Err(SeqError::ExpectedIdent);
                }
                x.clone()
            },
            _ => {
                return Err(SeqError::ExpectedIdent);
            },
        };
        assert(ident_of(ts[0]) == Some(name@));
        let in_ok = if len > 1 {
            match &tokens[1] {
                TokenTree::Ident(x, _) => {
                    proof {
                        reveal_strlit("in");
                        assert("in"@ =~= seq!['i', 'n']);
                    }
                    same_text(x.as_str(), "in")
                },
                _ => false,
            }
        } else {
            false
        };
        if !in_ok {
            return Err(SeqError::ExpectedIn);
        }
        let (l1, v1) = match read_int_literal_at(tokens, 2) {
            Some(x) => x,
            None => {
                return Err(SeqError::ExpectedInteger);
            },
        };
        let p = 2 + l1;
        let dots = len - p > 1 && match &tokens[p] {
            TokenTree::Punct(c, sp) => *c == '.' && *sp == Spacing::Joint,
            _ => false,
        } && is_punct_char(&tokens[p + 1], '.');
        if !dots {
            return Err(SeqError::ExpectedRange);
        }
        let inclusive = len - p > 2 && is_punct_char(&tokens[p + 2], '=');
        let q = if inclusive {
            p + 3
        } else {
            p + 2
        };
        let (l2, v2) = match read_int_literal_at(tokens, q) {
            Some(x) => x,
            None => {
                return Err(SeqError::ExpectedInteger);
            },
        };
        let end = match range_end(v2, inclusive) {
            Ok(e) => e,
            Err(e) => {
                return Err(e);
            },
        };
        let r = q + l2;
        let body = if r < len {
            match &tokens[r] {
                TokenTree::Group(Delimiter::Brace, inner) => duplicate_trees(inner),
                _ => {
                    return Err(SeqError::ExpectedBraces);
                },
            }
        } else {
            return Err(SeqError::ExpectedBraces);
        };
        let start = match range_start(v1) {
            Ok(s) => s,
            Err(e) => {
                return Err(e);
            },
        };
        if r + 1 != len {
            return Err(SeqError::UnexpectedToken);
        }
        Ok(SeqParser { name, start, end, body })
    }

    /// `body` with the loop variable replaced by `n`.
    pub fn gen_body(&self, body: &Vec<TokenTree>, n: usize) -> (r: Vec<TokenTree>)
        ensures
            trees_value(r@) == substituted(trees_value(body@), self.name@, n as nat),
        decreases body,
    {
        let ghost vals = trees_value(body@);
        let ghost var = self.name@;
        proof {
            lemma_trees_value(body@);
            assert(tail_from(vals, 0) =~= vals);
        }
        let mut stream: Vec<TokenTree> = Vec::new();
        let len = body.len();
        let mut idx: usize = 0;
        while idx < len
            invariant
                idx <= len == body.len(),
                vals == trees_value(body@),
                var == self.name@,
                vals.len() == body@.len(),
                forall|j: int| 0 <= j < body@.len() ==> #[trigger] vals[j] == body@[j]@,
                trees_value(stream@) + substituted(tail_from(vals, idx as int), var, n as nat)
                    == substituted(vals, var, n as nat),
            decreases len - idx,
        {
            let i = idx;
            let ghost before = stream@;
            let ghost step: int = 1;
            proof {
                lemma_tail_step(vals, i as int, 1);
            }
            match &body[i] {
                TokenTree::Group(d, inner) => {
                    let ts = self.gen_body(inner, n);
                    stream.push(TokenTree::Group(*d, ts));
                    idx = i + 1;
                },
                TokenTree::Ident(ident, sp) => {
                    if *ident == self.name {
                        stream.push(TokenTree::Literal(decimal_string(n)));
                        idx = i + 1;
                    } else if len - i > 2 && is_tilde(&body[i + 1]) && is_ident_named(
                        &body[i + 2],
                        self.name.as_str(),
                    ) {
                        let digits = decimal_string(n);
                        let pasted = concat(ident.as_str(), digits.as_str());
                        if len - i > 4 && is_tilde(&body[i + 3]) {
                            let suffix = text_of(&body[i + 4]);
                            let full = concat(pasted.as_str(), suffix.as_str());
                            stream.push(TokenTree::Ident(full, *sp));
                            idx = i + 5;
                            proof {
                                step = 5;
                            }
                        } else {
                            stream.push(TokenTree::Ident(pasted, *sp));
                            idx = i + 3;
                            proof {
                                step = 3;
                            }
                        }
                    } else {
                        stream.push(TokenTree::Ident(ident.clone(), *sp));
                        idx = i + 1;
                    }
                },
                _ => {
                    stream.push(body[i].duplicate());
                    idx = i + 1;
                },
            }
            proof {
                lemma_tail_step(vals, i as int, step);
                lemma_trees_value_push(before, stream@.last());
                assert(stream@ =~= before.push(stream@.last()));
                assert(tail_from(vals, i + step) =~= tail_from(vals, idx as int));
                let tail = tail_from(vals, i as int);
                assert(substituted(tail, var, n as nat) == seq![trees_value(stream@).last()]
                    + substituted(tail_from(tail, step), var, n as nat));
                assert(trees_value(stream@) =~= trees_value(before) + seq![trees_value(stream@).last()]);
            }
        }
        proof {
            assert(tail_from(vals, len as int) =~= Seq::<Token>::empty());
            assert(trees_value(stream@) =~= trees_value(stream@) + Seq::<Token>::empty());
        }
        stream
    }

    /// The body substituted with every value of `start..end` in turn.
    pub fn repeat_body(&self, body: &Vec<TokenTree>, start: usize, end: usize) -> (r: Vec<TokenTree>)
        ensures
            trees_value(r@) == repeated(trees_value(body@), self.name@, start as nat, end as nat),
    {
        let mut stream: Vec<TokenTree> = Vec::new();
        let mut n = start;
        proof {
            assert(trees_value(stream@) =~= Seq::<Token>::empty());
        }
        if start >= end {
            return stream;
        }
        while n < end
            invariant
                start <= n <= end,
                trees_value(stream@) == repeated(trees_value(body@), self.name@, start as nat, n as nat),
            decreases end - n,
        {
            let mut ts = self.gen_body(body, n);
            let ghost before = stream@;
            let ghost added = ts@;
            stream.append(&mut ts);
            proof {
                lemma_trees_value(before);
                lemma_trees_value(added);
                lemma_trees_value(stream@);
                lemma_repeated_snoc(trees_value(body@), self.name@, start as nat, n as nat);
                assert(trees_value(stream@) =~= trees_value(before) + trees_value(added));
            }
            n = n + 1;
        }
        stream
    }

    /// `body` with its repetitions `# ( ... ) *` expanded for `start..end`,
    /// and whether it had any.
    pub fn gen_body_match_cycle(&self, body: &Vec<TokenTree>, start: usize, end: usize) -> (r: (
        bool,
        Vec<TokenTree>,
    ))
        ensures
            r.0 == has_repetition(trees_value(body@)),
            trees_value(r.1@) == repetitions_expanded(
                trees_value(body@),
                self.name@,
                start as nat,
                end as nat,
            ),
        decreases body,
    {
        let ghost vals = trees_value(body@);
        let ghost var = self.name@;
        proof {
            lemma_trees_value(body@);
            assert(tail_from(vals, 0) =~= vals);
        }
        let mut stream: Vec<TokenTree> = Vec::new();
        let mut find = false;
        let len = body.len();
        let mut idx: usize = 0;
        while idx < len
            invariant
                idx <= len == body.len(),
                vals == trees_value(body@),
                var == self.name@,
                vals.len() == body@.len(),
                forall|j: int| 0 <= j < body@.len() ==> #[trigger] vals[j] == body@[j]@,
                (find || has_repetition(tail_from(vals, idx as int))) == has_repetition(vals),
                trees_value(stream@) + repetitions_expanded(
                    tail_from(vals, idx as int),
                    var,
                    start as nat,
                    end as nat,
                ) == repetitions_expanded(vals, var, start as nat, end as nat),
            decreases len - idx,
        {
            let i = idx;
            let ghost before = stream@;
            let ghost before_find = find;
            let ghost step: int = 1;
            proof {
                lemma_tail_step(vals, i as int, 1);
            }
            match &body[i] {
                TokenTree::Group(d, inner) => {
                    let (f, ts) = self.gen_body_match_cycle(inner, start, end);
                    if f {
                        find = f;
                    }
                    stream.push(TokenTree::Group(*d, ts));
                    idx = i + 1;
                    proof {
                        lemma_trees_value_push(before, stream@.last());
                    }
                },
                TokenTree::Punct(c, sp) => {
                    let mut handled = false;
                    if *c == '#' && len - i > 2 {
                        if is_punct_char(&body[i + 2], '*') {
                            if let TokenTree::Group(_, g) = &body[i + 1] {
                                let mut ts = self.repeat_body(g, start, end);
                                let ghost added = ts@;
                                stream.append(&mut ts);
                                idx = i + 3;
                                find = true;
                                handled = true;
                                proof {
                                    step = 3;
                                    lemma_trees_value(before);
                                    lemma_trees_value(added);
                                    lemma_trees_value(stream@);
                                    assert(trees_value(stream@) =~= trees_value(before)
                                        + trees_value(added));
                                }
                            }
                        }
                    }
                    if !handled {
                        stream.push(TokenTree::Punct(*c, *sp));
                        idx = i + 1;
                        proof {
                            lemma_trees_value_push(before, stream@.last());
                        }
                    }
                },
                _ => {
                    stream.push(body[i].duplicate());
                    idx = i + 1;
                    proof {
                        lemma_trees_value_push(before, stream@.last());
                    }
                },
            }
            proof {
                lemma_tail_step(vals, i as int, step);
                assert(tail_from(vals, i + step) =~= tail_from(vals, idx as int));
                let tail = tail_from(vals, i as int);
                assert(starts_repetition(tail) == (is_punct(vals[i as int], '#') && vals.len() - i
                    > 2 && is_punct(vals[i + 2], '*') && group_contents(vals[i + 1]) is Some));
            }
        }
        proof {
            assert(tail_from(vals, len as int) =~= Seq::<Token>::empty());
            assert(trees_value(stream@) =~= trees_value(stream@) + Seq::<Token>::empty());
        }
        (find, stream)
    }

    /// The expansion of the invocation.
    pub fn generate(&self) -> (r: Vec<TokenTree>)
        ensures
            trees_value(r@) == expansion(
                trees_value(self.body@),
                self.name@,
                self.start as nat,
                self.end as nat,
            ),
    {
        let (find, stream) = self.gen_body_match_cycle(&self.body, self.start, self.end);
        if find {
            return stream;
        }
        self.repeat_body(&self.body, self.start, self.end)
    }
}

} // verus!