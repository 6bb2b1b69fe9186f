use fl::ast::ASTNode;
use fl::function::FunctionDescriptor;
use fl::function::Pattern;
use fl::function::PatternElement;
use fl::lexer::Lexer;
use fl::parser::Error;
use fl::parser::Parser;
use fl::token::Token;

fn tokens_of(src: &str) -> Vec<Token> {
    let mut lexer = Lexer::new(src.chars().collect());
    let mut out = Vec::new();
    while let Some(r) = lexer.next() {
        out.push(r.expect("lexes cleanly"));
    }
    out
}

fn parse(src: &str) -> Vec<Result<ASTNode, Error>> {
    let mut parser = Parser::new(tokens_of(src));
    let mut out = Vec::new();
    while let Some(r) = parser.next() {
        out.push(r);
    }
    out
}

fn atom(name: &str) -> ASTNode {
    ASTNode::atom(name.to_string())
}

fn number(text: &str) -> ASTNode {
    ASTNode::number(text.to_string())
}

fn descriptor(name: &str, params: &[&str]) -> FunctionDescriptor {
    let mut d = FunctionDescriptor::new(name.to_string());
    for p in params {
        d.add_arg(PatternElement::ident(p.to_string()));
    }
    d
}

#[test]
fn no_tokens_no_nodes() {
    let mut parser = Parser::new(Vec::new());
    assert!(parser.next().is_none());
}

#[test]
fn bare_identifier_is_an_atom() {
    assert_eq!(parse("f"), vec![Ok(atom("f"))]);
}

#[test]
fn application_is_left_associative() {
    // f a b == (f a) b
    assert_eq!(
        parse("f a b;"),
        vec![Ok(ASTNode::call(ASTNode::call(atom("f"), atom("a")), atom("b")))]
    );
}

#[test]
fn application_with_parenthesised_argument() {
    // print (+ 1 2)
    assert_eq!(
        parse("print (+ 1 2)"),
        vec![Ok(ASTNode::call(
            atom("print"),
            ASTNode::call(ASTNode::call(atom("+"), number("1")), number("2")),
        ))]
    );
}

#[test]
fn function_definition_with_body() {
    // f: a -> * 2 a;  — the trailing `;` ends the body's argument list and
    // is not a separate statement.
    let nodes = parse("f: a -> * 2 a;");
    assert_eq!(
        nodes,
        vec![Ok(ASTNode::define_function(
            descriptor("f", &["a"]),
            ASTNode::call(ASTNode::call(atom("*"), number("2")), atom("a")),
        ))]
    );
}

#[test]
fn function_definition_without_parameters() {
    assert_eq!(
        parse("f: -> g 1;"),
        vec![Ok(ASTNode::define_function(
            descriptor("f", &[]),
            ASTNode::call(atom("g"), number("1")),
        ))]
    );
}

#[test]
fn statement_cannot_open_with_number() {
    // A top-level expression begins with an identifier.
    assert_eq!(
        parse("1"),
        vec![Err(Error::UnexpectedToken(Token::Number("1".to_string())))]
    );
}

#[test]
fn unclosed_paren_is_unmatched_paren() {
    // An unmatched `(` followed by end of input is UnmatchedParen, not
    // UnexpectedEnd.
    assert_eq!(parse("f (g a"), vec![Err(Error::UnmatchedParen)]);
    assert_eq!(parse("f ("), vec![Err(Error::UnmatchedParen)]);
}

#[test]
fn paren_closed_by_wrong_token_is_unmatched_paren() {
    assert_eq!(parse("f (g a; b"), vec![Err(Error::UnmatchedParen)]);
}

#[test]
fn double_colon_is_unexpected_token() {
    assert_eq!(
        parse("f:: x"),
        vec![Err(Error::UnexpectedToken(Token::Colon)), Ok(atom("x"))]
    );
}

#[test]
fn statement_cannot_open_with_operator_token() {
    assert_eq!(
        parse(") x"),
        vec![Err(Error::UnexpectedToken(Token::RParen)), Ok(atom("x"))]
    );
}

#[test]
fn definition_cut_short_is_unexpected_end() {
    assert_eq!(parse("f:"), vec![Err(Error::UnexpectedEnd)]);
    assert_eq!(parse("f: a b"), vec![Err(Error::UnexpectedEnd)]);
}

#[test]
fn definition_with_bad_parameter_is_unexpected_token() {
    // After the error, later statements are fresh attempts from where the
    // cursor stopped, and none of what follows opens a valid statement.
    assert_eq!(
        parse("f: ( -> 1;"),
        vec![
            Err(Error::UnexpectedToken(Token::LParen)),
            Err(Error::UnexpectedToken(Token::ThinArrow)),
            Err(Error::UnexpectedToken(Token::Number("1".to_string()))),
            Err(Error::UnexpectedToken(Token::Semi)),
        ]
    );
}

#[test]
fn statements_are_independent() {
    assert_eq!(
        parse("f a; g b;"),
        vec![
            Ok(ASTNode::call(atom("f"), atom("a"))),
            Ok(ASTNode::call(atom("g"), atom("b"))),
        ]
    );
}

#[test]
fn whole_program_pipeline() {
    let program = "\
#       f:: Number -> Number -> Number
       f: a -> * 2 a;

        print 1;
        print (+ 1 2);
";
    let nodes = parse(program);
    assert_eq!(
        nodes,
        vec![
            Ok(ASTNode::define_function(
                descriptor("f", &["a"]),
                ASTNode::call(ASTNode::call(atom("*"), number("2")), atom("a")),
            )),
            Ok(ASTNode::call(atom("print"), number("1"))),
            Ok(ASTNode::call(
                atom("print"),
                ASTNode::call(ASTNode::call(atom("+"), number("1")), number("2")),
            )),
        ]
    );
}

fn sentinel_free(n: &ASTNode) -> bool {
    match n {
        ASTNode::Empty => false,
        ASTNode::Number(_) => true,
        ASTNode::Atom(_) => true,
        ASTNode::Call { function, arg } => sentinel_free(function) && sentinel_free(arg),
        ASTNode::Define { function: _, body } => sentinel_free(body),
    }
}

#[test]
fn parsed_trees_are_sentinel_free() {
    let nodes = parse("f: a -> * 2 a; print 1; print (+ 1 2); g; h (i j);");
    assert_eq!(nodes.len(), 5);
    for node in nodes {
        assert!(sentinel_free(&node.expect("parses cleanly")));
    }
}

#[test]
fn empty_sentinel_never_in_finished_trees() {
    assert!(ASTNode::empty().is_empty());
    assert!(!atom("x").is_empty());
    assert!(!number("1").is_empty());
    assert!(!ASTNode::call(atom("f"), atom("a")).is_empty());
}

#[test]
fn descriptor_keeps_parameter_order() {
    let d = descriptor("f", &["a", "b", "c"]);
    assert_eq!(d.name, "f");
    assert_eq!(
        d.arguments,
        Pattern {
            elements: vec![
                PatternElement::Identifier("a".to_string()),
                PatternElement::Identifier("b".to_string()),
                PatternElement::Identifier("c".to_string()),
            ]
        }
    );
}
