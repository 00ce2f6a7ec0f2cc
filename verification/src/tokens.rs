//! A plain model of token trees, as a procedural macro receives and emits
//! them: groups, identifiers, punctuation and literals.

use vstd::prelude::*;

verus! {

/// The delimiter of a group.
#[derive(Debug, Clone, Copy, PartialEq, Eq, Structural)]
pub enum Delimiter {
    /// `( ... )`
    Parenthesis,
    /// `{ ... }`
    Brace,
    /// `[ ... ]`
    Bracket,
    /// A group without visible delimiters.
    NoDelimiter,
}

/// Whether a punctuation character is joined to the next one.
#[derive(Debug, Clone, Copy, PartialEq, Eq, Structural)]
pub enum Spacing {
    /// Followed by whitespace or a non-punctuation token.
    Alone,
    /// Immediately followed by another punctuation character.
    Joint,
}

/// A token tree.
#[derive(Debug)]
pub enum TokenTree {
    /// A delimited sequence of token trees.
    Group(Delimiter, Vec<TokenTree>),
    /// An identifier: its text and the tag of its span.
    Ident(String, usize),
    /// A single punctuation character.
    Punct(char, Spacing),
    /// A literal, by its source text.
    Literal(String),
}

/// The mathematical value of a token tree.
pub enum Token {
    /// A delimited sequence of tokens.
    Group(Delimiter, Seq<Token>),
    /// An identifier: its text and the tag of its span.
    Ident(Seq<char>, usize),
    /// A punctuation character.
    Punct(char, Spacing),
    /// A literal.
    Literal(Seq<char>),
}

impl TokenTree {
    /// The value of the token tree.
    pub open spec fn value(self) -> Token
        decreases self, 0int,
    {
        match self {
            TokenTree::Group(d, ts) => Token::Group(d, trees_value(ts@)),
            TokenTree::Ident(s, sp) => Token::Ident(s@, sp),
            TokenTree::Punct(c, sp) => Token::Punct(c, sp),
            TokenTree::Literal(s) => Token::Literal(s@),
        }
    }
}

/// The values of a sequence of token trees.
pub open spec fn trees_value(s: Seq<TokenTree>) -> Seq<Token>
    decreases s, 1int,
{
    if s.len() == 0 {
        seq![]
    } else {
        trees_value(s.drop_last()).push(s.last().value())
    }
}

impl View for TokenTree {
    type V = Token;

    open spec fn view(&self) -> Token {
        self.value()
    }
}

impl TokenTree {
    /// A copy of the token tree.
    pub fn duplicate(&self) -> (r: TokenTree)
        ensures
            r@ == self@,
        decreases self,
    {
        match self {
            TokenTree::Group(d, ts) => {
                let inner = duplicate_trees(ts);
                TokenTree::Group(*d, inner)
            },
            TokenTree::Ident(s, sp) => TokenTree::Ident(s.clone(), *sp),
            TokenTree::Punct(c, sp) => TokenTree::Punct(*c, *sp),
            TokenTree::Literal(s) => TokenTree::Literal(s.clone()),
        }
    }
}

/// A copy of a sequence of token trees.
pub fn duplicate_trees(ts: &Vec<TokenTree>) -> (r: Vec<TokenTree>)
    ensures
        trees_value(r@) == trees_value(ts@),
    decreases ts,
{
    let mut r: Vec<TokenTree> = Vec::new();
    let mut i: usize = 0;
    while i < ts.len()
        invariant
            i <= ts.len(),
            trees_value(r@) == trees_value(ts@.subrange(0, i as int)),
        decreases ts.len() - i,
    {
        let t = ts[i].duplicate();
        let ghost before = r@;
        r.push(t);
        proof {
            assert(ts@.subrange(0, i + 1).drop_last() =~= ts@.subrange(0, i as int));
            assert(r@.drop_last() =~= before);
        }
        i = i + 1;
    }
    proof {
        assert(ts@.subrange(0, ts.len() as int) =~= ts@);
    }
    r
}

/// The values of a sequence of token trees are the values of its elements.
pub proof fn lemma_trees_value(s: Seq<TokenTree>)
    ensures
        trees_value(s).len() == s.len(),
        forall|i: int| 0 <= i < s.len() ==> #[trigger] trees_value(s)[i] == s[i]@,
    decreases s.len(),
{
    if s.len() > 0 {
        lemma_trees_value(s.drop_last());
    }
}

/// The values of a sequence with one more element.
pub proof fn lemma_trees_value_push(s: Seq<TokenTree>, t: TokenTree)
    ensures
        trees_value(s.push(t)) == trees_value(s).push(t@),
{
    assert(s.push(t).drop_last() =~= s);
}

} // verus!
