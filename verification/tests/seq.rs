use macro_workshop::seq_macro::{range_end, range_start, read_literal, UsizeLiteral};
use macro_workshop::seq_macro::{SeqError, SeqParser};
use macro_workshop::tokens::{Delimiter, Spacing, TokenTree};

fn ident(s: &str) -> TokenTree {
    TokenTree::Ident(s.to_string(), 0)
}

fn lit(s: &str) -> TokenTree {
    TokenTree::Literal(s.to_string())
}

fn punct(c: char) -> TokenTree {
    TokenTree::Punct(c, Spacing::Alone)
}

fn joint(c: char) -> TokenTree {
    TokenTree::Punct(c, Spacing::Joint)
}

fn group(d: Delimiter, ts: Vec<TokenTree>) -> TokenTree {
    TokenTree::Group(d, ts)
}

fn render(ts: &[TokenTree]) -> String {
    let mut parts = Vec::new();
    for t in ts {
        parts.push(match t {
            TokenTree::Ident(s, _) => s.clone(),
            TokenTree::Literal(s) => s.clone(),
            TokenTree::Punct(c, _) => c.to_string(),
            TokenTree::Group(d, inner) => {
                let (open, close) = match d {
                    Delimiter::Parenthesis => ("(", ")"),
                    Delimiter::Brace => ("{", "}"),
                    Delimiter::Bracket => ("[", "]"),
                    Delimiter::NoDelimiter => ("", ""),
                };
                format!("{}{}{}", open, render(inner), close)
            }
        });
    }
    parts.join(" ")
}

/// `N in START..END { body }`
fn invocation(start: &str, end: &str, inclusive: bool, body: Vec<TokenTree>) -> Vec<TokenTree> {
    let mut ts = vec![ident("N"), ident("in"), lit(start), joint('.'), punct('.')];
    if inclusive {
        ts.pop();
        ts.push(joint('.'));
        ts.push(punct('='));
    }
    ts.push(lit(end));
    ts.push(group(Delimiter::Brace, body));
    ts
}

fn parse_err(ts: Vec<TokenTree>) -> SeqError {
    match SeqParser::parse(&ts) {
        Ok(_) => panic!("expected an error"),
        Err(e) => e,
    }
}

#[test]
fn parses_exclusive_range() {
    let p = SeqParser::parse(&invocation("0", "4", false, vec![ident("x")])).unwrap();
    assert_eq!(p.name, "N");
    assert_eq!(p.start, 0);
    assert_eq!(p.end, 4);
    assert_eq!(render(&p.body), "x");
}

#[test]
fn parses_inclusive_range_with_end_plus_one() {
    let p = SeqParser::parse(&invocation("1", "3", true, vec![])).unwrap();
    assert_eq!(p.start, 1);
    assert_eq!(p.end, 4);
}

#[test]
fn parses_hex_and_suffixed_literals_by_value() {
    let p = SeqParser::parse(&invocation("0x10", "20usize", false, vec![])).unwrap();
    assert_eq!(p.start, 16);
    assert_eq!(p.end, 20);
}

#[test]
fn rejects_keyword_as_variable() {
    let mut ts = invocation("0", "1", false, vec![]);
    ts[0] = ident("in");
    assert_eq!(parse_err(ts), SeqError::ExpectedIdent);
}

#[test]
fn rejects_missing_in() {
    let mut ts = invocation("0", "1", false, vec![]);
    ts[1] = ident("of");
    assert_eq!(parse_err(ts), SeqError::ExpectedIn);
}

#[test]
fn rejects_non_integer_bound() {
    assert_eq!(parse_err(invocation("\"a\"", "1", false, vec![])), SeqError::ExpectedInteger);
    assert_eq!(parse_err(invocation("0", "1.5", false, vec![])), SeqError::ExpectedInteger);
}

#[test]
fn rejects_missing_dots() {
    let ts = vec![ident("N"), ident("in"), lit("0"), punct('.'), punct('.'), lit("4"), group(Delimiter::Brace, vec![])];
    assert_eq!(parse_err(ts), SeqError::ExpectedRange);
}

#[test]
fn rejects_out_of_range_end() {
    assert_eq!(parse_err(invocation("0", "99999999999999999999999", false, vec![])), SeqError::InvalidEnd);
}

#[test]
fn rejects_inclusive_end_at_maximum() {
    let max = usize::MAX.to_string();
    assert_eq!(parse_err(invocation("0", &max, true, vec![])), SeqError::EndOverflow);
}

#[test]
fn rejects_missing_braces() {
    let mut ts = invocation("0", "1", false, vec![]);
    ts[6] = group(Delimiter::Parenthesis, vec![]);
    assert_eq!(parse_err(ts), SeqError::ExpectedBraces);
}

#[test]
fn rejects_negative_start_after_the_body() {
    let ts = vec![
        ident("N"),
        ident("in"),
        punct('-'),
        lit("1"),
        joint('.'),
        punct('.'),
        lit("4"),
        group(Delimiter::Brace, vec![]),
    ];
    assert_eq!(parse_err(ts), SeqError::InvalidStart);
}

#[test]
fn rejects_trailing_tokens() {
    let mut ts = invocation("0", "1", false, vec![]);
    ts.push(punct(';'));
    assert_eq!(parse_err(ts), SeqError::UnexpectedToken);
}

#[test]
fn expands_body_once_per_value() {
    // compile_error!(concat!("error number ", stringify!(N)));
    let body = vec![
        ident("compile_error"),
        punct('!'),
        group(
            Delimiter::Parenthesis,
            vec![
                ident("concat"),
                punct('!'),
                group(
                    Delimiter::Parenthesis,
                    vec![
                        lit("\"error number \""),
                        punct(','),
                        ident("stringify"),
                        punct('!'),
                        group(Delimiter::Parenthesis, vec![ident("N")]),
                    ],
                ),
            ],
        ),
        punct(';'),
    ];
    let p = SeqParser::parse(&invocation("0", "2", false, body)).unwrap();
    let out = p.generate();
    assert_eq!(
        render(&out),
        "compile_error ! (concat ! (\"error number \" , stringify ! (0))) ; compile_error ! (concat ! (\"error number \" , stringify ! (1))) ;"
    );
}

#[test]
fn pastes_variable_into_identifiers() {
    // fn f~N () -> u64 { N * 2 }
    let body = vec![
        ident("fn"),
        ident("f"),
        punct('~'),
        ident("N"),
        group(Delimiter::Parenthesis, vec![]),
        group(Delimiter::Brace, vec![ident("N"), punct('*'), lit("2")]),
    ];
    let p = SeqParser::parse(&invocation("1", "3", true, body)).unwrap();
    assert_eq!(render(&p.generate()), "fn f1 () {1 * 2} fn f2 () {2 * 2} fn f3 () {3 * 2}");
}

#[test]
fn pastes_suffix_after_second_tilde() {
    let body = vec![ident("f"), punct('~'), ident("N"), punct('~'), ident("_suffix")];
    let p = SeqParser::parse(&invocation("0", "2", false, body)).unwrap();
    assert_eq!(render(&p.generate()), "f0_suffix f1_suffix");
}

#[test]
fn repeats_marked_sections_only() {
    // enum Interrupt { #( Irq~N, )* }
    let body = vec![
        ident("enum"),
        ident("Interrupt"),
        group(
            Delimiter::Brace,
            vec![
                punct('#'),
                group(Delimiter::Parenthesis, vec![ident("Irq"), punct('~'), ident("N"), punct(',')]),
                punct('*'),
            ],
        ),
    ];
    let p = SeqParser::parse(&invocation("0", "3", false, body)).unwrap();
    let (found, _) = p.gen_body_match_cycle(&p.body, p.start, p.end);
    assert!(found);
    assert_eq!(render(&p.generate()), "enum Interrupt {Irq0 , Irq1 , Irq2 ,}");
}

#[test]
fn empty_range_expands_to_nothing() {
    let p = SeqParser::parse(&invocation("3", "3", false, vec![ident("N")])).unwrap();
    assert_eq!(p.generate().len(), 0);
}

#[test]
fn lone_hash_is_kept() {
    let body = vec![punct('#'), ident("N")];
    let p = SeqParser::parse(&invocation("5", "6", false, body)).unwrap();
    assert_eq!(render(&p.generate()), "# 5");
}

#[test]
fn inclusive_range_matches_exclusive_range_past_its_end() {
    let inclusive = SeqParser::parse(&invocation("2", "6", true, vec![ident("N")])).unwrap();
    let exclusive = SeqParser::parse(&invocation("2", "7", false, vec![ident("N")])).unwrap();
    assert_eq!((inclusive.start, inclusive.end), (2, 7));
    assert_eq!((exclusive.start, exclusive.end), (2, 7));
    assert_eq!(render(&inclusive.generate()), render(&exclusive.generate()));
    assert_eq!(render(&inclusive.generate()), "2 3 4 5 6");
}

#[test]
fn tilde_before_another_identifier_is_kept() {
    let p = SeqParser::parse(&invocation("3", "4", false, vec![])).unwrap();
    let body = vec![ident("f"), punct('~'), ident("M")];
    assert_eq!(render(&p.gen_body(&body, 3)), "f ~ M");
    let trailing = vec![ident("f"), punct('~')];
    assert_eq!(render(&p.gen_body(&trailing, 3)), "f ~");
}

#[test]
fn pasted_identifier_keeps_span_of_its_first_token() {
    // let _ = Missing~N;
    let p = SeqParser::parse(&invocation("0", "1", false, vec![])).unwrap();
    let body = vec![
        TokenTree::Ident("let".to_string(), 1),
        TokenTree::Ident("_".to_string(), 2),
        punct('='),
        TokenTree::Ident("Missing".to_string(), 3),
        punct('~'),
        TokenTree::Ident("N".to_string(), 4),
        punct(';'),
    ];
    let out = p.gen_body(&body, 0);
    match &out[3] {
        TokenTree::Ident(s, tag) => {
            assert_eq!(s, "Missing0");
            assert_eq!(*tag, 3);
        }
        _ => panic!("expected the pasted identifier"),
    }
    match &out[0] {
        TokenTree::Ident(_, tag) => assert_eq!(*tag, 1),
        _ => panic!("expected `let`"),
    }
}

#[test]
fn c_string_bound_is_not_an_integer() {
    // seq!(N in c"x"..4 {})
    assert_eq!(parse_err(invocation("c\"x\"", "4", false, vec![])), SeqError::ExpectedInteger);
    assert_eq!(parse_err(invocation("0", "cr#\"x\"#", false, vec![])), SeqError::ExpectedInteger);
}

#[test]
fn reads_literals_and_range_bounds() {
    assert_eq!(read_literal("42"), UsizeLiteral::Value(42));
    assert_eq!(read_literal("0x10"), UsizeLiteral::Value(16));
    assert_eq!(read_literal("\"4\""), UsizeLiteral::NotInteger);
    assert_eq!(read_literal("c\"4\""), UsizeLiteral::NotInteger);
    assert_eq!(read_literal("99999999999999999999999"), UsizeLiteral::OutOfRange);
    assert_eq!(range_start(UsizeLiteral::Value(3)), Ok(3));
    assert_eq!(range_start(UsizeLiteral::OutOfRange), Err(SeqError::InvalidStart));
    assert_eq!(range_end(UsizeLiteral::Value(3), false), Ok(3));
    assert_eq!(range_end(UsizeLiteral::Value(3), true), Ok(4));
    assert_eq!(range_end(UsizeLiteral::Value(usize::MAX), true), Err(SeqError::EndOverflow));
    assert_eq!(range_end(UsizeLiteral::NotInteger, false), Err(SeqError::InvalidEnd));
}
