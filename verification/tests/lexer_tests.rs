use fl::lexer::Error;
use fl::lexer::Lexer;
use fl::token::Token;

fn lex(src: &str) -> Vec<Result<Token, Error>> {
    let mut lexer = Lexer::new(src.chars().collect());
    let mut out = Vec::new();
    while let Some(r) = lexer.next() {
        out.push(r);
    }
    out
}

fn lex_ok(src: &str) -> Vec<Token> {
    lex(src).into_iter().map(|r| r.expect("token")).collect()
}

fn ident(name: &str) -> Token {
    Token::Identifier(name.to_string())
}

fn number(text: &str) -> Token {
    Token::Number(text.to_string())
}

#[test]
fn empty_source_no_tokens() {
    assert_eq!(lex_ok(""), Vec::<Token>::new());
}

#[test]
fn whitespace_only_no_tokens() {
    assert_eq!(lex_ok("  \t\r\n  \n"), Vec::<Token>::new());
}

#[test]
fn comment_only_no_tokens() {
    assert_eq!(lex_ok("# nothing but a comment"), Vec::<Token>::new());
    assert_eq!(lex_ok("# one\n# two\n"), Vec::<Token>::new());
}

#[test]
fn comment_line_is_transparent() {
    let with_comment = lex_ok("a\n#comment\nb");
    assert_eq!(with_comment, vec![ident("a"), ident("b")]);
    assert_eq!(with_comment, lex_ok("a\n\nb"));
}

#[test]
fn comment_runs_to_end_of_line() {
    assert_eq!(lex_ok("x # y : ( ) ; -> 1\nz"), vec![ident("x"), ident("z")]);
}

#[test]
fn single_character_tokens() {
    assert_eq!(
        lex_ok(":();"),
        vec![Token::Colon, Token::LParen, Token::RParen, Token::Semi]
    );
}

#[test]
fn arrow_token() {
    assert_eq!(lex_ok("->"), vec![Token::ThinArrow]);
    assert_eq!(lex_ok("a -> b"), vec![ident("a"), Token::ThinArrow, ident("b")]);
}

#[test]
fn negative_number() {
    let toks = lex_ok("-1");
    assert_eq!(toks, vec![number("-1")]);
    match &toks[0] {
        Token::Number(text) => assert_eq!(text.parse::<f64>().unwrap(), -1.0),
        _ => panic!("expected a number"),
    }
}

#[test]
fn lone_minus_is_invalid_number() {
    // A lone `-` is digit-or-minus-led text that is not a valid literal.
    assert_eq!(
        lex("-"),
        vec![Err(Error::InvalidNumber("-".to_string()))]
    );
    assert_eq!(
        lex("- x"),
        vec![
            Err(Error::InvalidNumber("-".to_string())),
            Ok(ident("x")),
        ]
    );
}

#[test]
fn invalid_number_text_is_carried() {
    assert_eq!(
        lex("-1.2.3"),
        vec![Err(Error::InvalidNumber("-1.2.3".to_string()))]
    );
    assert_eq!(
        lex("12ab"),
        vec![Err(Error::InvalidNumber("12ab".to_string()))]
    );
}

#[test]
fn number_forms() {
    assert_eq!(lex_ok("1"), vec![number("1")]);
    assert_eq!(lex_ok("1."), vec![number("1.")]);
    assert_eq!(lex_ok("1.5e3"), vec![number("1.5e3")]);
    assert_eq!(lex_ok("-2.5E-1"), vec![number("-2.5E-1")]);
    assert_eq!(lex_ok("-inf"), vec![number("-inf")]);
}

#[test]
fn letter_led_text_is_an_identifier() {
    // `inf` parses as a float, but only digit- or minus-led text is
    // classified as a number.
    assert_eq!(lex_ok("inf"), vec![ident("inf")]);
    assert_eq!(lex_ok("+1"), vec![ident("+1")]);
    assert_eq!(lex_ok("+"), vec![ident("+")]);
    assert_eq!(lex_ok("*"), vec![ident("*")]);
}

#[test]
fn separators_end_identifiers() {
    assert_eq!(
        lex_ok("f(x);"),
        vec![ident("f"), Token::LParen, ident("x"), Token::RParen, Token::Semi]
    );
    assert_eq!(lex_ok("a:b"), vec![ident("a"), Token::Colon, ident("b")]);
}

#[test]
fn hash_inside_identifier_does_not_split_it() {
    // Scanning stops only at separators; a `#` reached mid-scan is part of
    // the identifier, and comments begin only where a token would start.
    assert_eq!(lex_ok("a#comment\nb"), vec![ident("a#comment"), ident("b")]);
}

#[test]
fn minus_prefix_continues_identifier_scan() {
    assert_eq!(lex_ok("a-b"), vec![ident("a-b")]);
    assert_eq!(lex_ok("a->b"), vec![ident("a->b")]);
}

#[test]
fn program_token_stream() {
    assert_eq!(
        lex_ok("f: a -> * 2 a;"),
        vec![
            ident("f"),
            Token::Colon,
            ident("a"),
            Token::ThinArrow,
            ident("*"),
            number("2"),
            ident("a"),
            Token::Semi,
        ]
    );
}
