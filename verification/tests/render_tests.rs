use fl::lexer::Lexer;
use fl::token::Token;

fn relex_one(src: &str) -> Token {
    let mut lexer = Lexer::new(src.chars().collect());
    let first = lexer.next().expect("one token").expect("no error");
    assert!(lexer.next().is_none(), "exactly one token expected");
    first
}

#[test]
fn render_expected_text() {
    assert_eq!(Token::Colon.render(), ":");
    assert_eq!(Token::ThinArrow.render(), "->");
    assert_eq!(Token::LParen.render(), "(");
    assert_eq!(Token::RParen.render(), ")");
    assert_eq!(Token::Semi.render(), ";");
    assert_eq!(Token::Number("1.5".to_string()).render(), "1.5");
    assert_eq!(Token::Identifier("print".to_string()).render(), "print");
}

#[test]
fn render_then_relex_round_trip() {
    let tokens = vec![
        Token::Colon,
        Token::ThinArrow,
        Token::LParen,
        Token::RParen,
        Token::Semi,
        Token::Number("1.5".to_string()),
        Token::Number("-2e7".to_string()),
        Token::Identifier("print".to_string()),
        Token::Identifier("+".to_string()),
    ];
    for t in tokens {
        assert_eq!(relex_one(&t.render()), t);
    }
}

#[test]
fn duplicate_preserves_content() {
    let t = Token::Identifier("abc".to_string());
    assert_eq!(t.duplicate(), t);
    let n = Token::Number("-1.25".to_string());
    assert_eq!(n.duplicate(), n);
    assert_eq!(Token::Semi.duplicate(), Token::Semi);
}
