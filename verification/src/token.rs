//! The closed set of lexical units the lexer produces.

use vstd::prelude::*;

use crate::trusted::push_char;

verus! {

/// A name appearing in source text, owned and compared by content.
pub type Identifier = String;

/// A classified lexical unit, produced in source order.
///
/// A numeric literal is carried as its source text, exactly as written; the
/// lexer only emits `Number` for text that `f64`'s `FromStr` accepts, so a
/// consumer may parse the text into its own numeric type.
#[derive(Debug, Clone, PartialEq)]
pub enum Token {
    Colon,
    ThinArrow,
    LParen,
    RParen,
    Semi,
    Number(String),
    Identifier(Identifier),
}

/// The mathematical model of a token: the same tags over sequences of
/// characters.
pub enum TokenModel {
    Colon,
    ThinArrow,
    LParen,
    RParen,
    Semi,
    Number(Seq<char>),
    Identifier(Seq<char>),
}

impl View for Token {
    type V = TokenModel;

    open spec fn view(&self) -> TokenModel {
        match self {
            Token::Colon => TokenModel::Colon,
            Token::ThinArrow => TokenModel::ThinArrow,
            Token::LParen => TokenModel::LParen,
            Token::RParen => TokenModel::RParen,
            Token::Semi => TokenModel::Semi,
            Token::Number(text) => TokenModel::Number(text@),
            Token::Identifier(name) => TokenModel::Identifier(name@),
        }
    }
}

/// The stable textual rendering of a token, used by diagnostics: the written
/// form of each operator, and the carried text of a number or identifier.
pub open spec fn spec_render(t: TokenModel) -> Seq<char> {
    match t {
        TokenModel::Colon => seq![':'],
        TokenModel::ThinArrow => seq!['-', '>'],
        TokenModel::LParen => seq!['('],
        TokenModel::RParen => seq![')'],
        TokenModel::Semi => seq![';'],
        TokenModel::Number(text) => text,
        TokenModel::Identifier(name) => name,
    }
}

/// Builds the string of the one given character.
fn one_char_string(c: char) -> (r: String)
    ensures
        r@ == seq![c],
{
    let mut s = String::new();
    push_char(&mut s, c);
    proof {
        assert(s@ =~= seq![c]);
    }
    s
}

impl Token {
    /// Renders the token as `spec_render` gives it.
    pub fn render(&self) -> (r: String)
        ensures
            r@ == spec_render(self@),
    {
        match self {
            Token::Colon => one_char_string(':'),
            Token::ThinArrow => {
                let mut s = one_char_string('-');
                push_char(&mut s, '>');
                proof {
                    assert(s@ =~= seq!['-', '>']);
                }
                s
            },
            Token::LParen => one_char_string('('),
            Token::RParen => one_char_string(')'),
            Token::Semi => one_char_string(';'),
            Token::Number(text) => text.clone(),
            Token::Identifier(name) => name.clone(),
        }
    }

    /// Makes an owned token with the same content.
    pub fn duplicate(&self) -> (r: Token)
        ensures
            r@ == self@,
    {
        match self {
            Token::Colon => Token::Colon,
            Token::ThinArrow => Token::ThinArrow,
            Token::LParen => Token::LParen,
            Token::RParen => Token::RParen,
            Token::Semi => Token::Semi,
            Token::Number(text) => Token::Number(text.clone()),
            Token::Identifier(name) => Token::Identifier(name.clone()),
        }
    }
}

} // verus!
