//! The lexer: a character-stream to token-stream transducer.
//!
//! `spec_next` gives the meaning of one step as a function of the remaining
//! input alone: skip whitespace and line comments, then either end the
//! sequence or take one token (or one lexical error) off the front.
//! `Lexer::next` is proved to follow it exactly, and `spec_tokens` chains the
//! steps into the whole token sequence.

use vstd::prelude::*;

use crate::text::is_ascii_digit;
use crate::text::is_ascii_digit_char;
use crate::text::is_separator;
use crate::text::is_separator_char;
use crate::text::is_valid_float;
use crate::text::is_valid_float_text;
use crate::text::is_whitespace;
use crate::text::is_whitespace_char;
use crate::token::Token;
use crate::token::TokenModel;
use crate::trusted::push_char;

verus! {

/// A lexical error. Every variant is terminal for the token attempt it
/// arises in.
///
/// `UnexpectedEOF` is defensive: it arises only when a token is demanded of
/// an exhausted input, which the iteration contract always checks first.
/// `UnexpectedChar` is reserved for rejecting invalid characters; no current
/// path raises it. `InvalidNumber` carries the digit- or minus-led text that
/// is not a valid numeric literal.
#[derive(Debug, Clone, PartialEq)]
pub enum Error {
    UnexpectedEOF,
    UnexpectedChar(char),
    InvalidNumber(String),
}

/// The mathematical model of a lexical error.
pub enum ErrorModel {
    UnexpectedEOF,
    UnexpectedChar(char),
    InvalidNumber(Seq<char>),
}

impl View for Error {
    type V = ErrorModel;

    open spec fn view(&self) -> ErrorModel {
        match self {
            Error::UnexpectedEOF => ErrorModel::UnexpectedEOF,
            Error::UnexpectedChar(c) => ErrorModel::UnexpectedChar(*c),
            Error::InvalidNumber(text) => ErrorModel::InvalidNumber(text@),
        }
    }
}

/// The model of one lexer result.
pub open spec fn lex_result_view(r: Result<Token, Error>) -> Result<TokenModel, ErrorModel> {
    match r {
        Ok(t) => Ok(t@),
        Err(e) => Err(e@),
    }
}

/// The input left after skipping whitespace and line comments. A `#` enters
/// comment state, a newline leaves it, and skipping stops at the first
/// other character outside a comment that is not whitespace.
pub open spec fn spec_skip(s: Seq<char>, in_comment: bool) -> Seq<char>
    decreases s.len(),
{
    if s.len() == 0 {
        s
    } else if s[0] == '\n' {
        spec_skip(s.drop_first(), false)
    } else if s[0] == '#' {
        spec_skip(s.drop_first(), true)
    } else if in_comment {
        spec_skip(s.drop_first(), true)
    } else if is_whitespace_char(s[0]) {
        spec_skip(s.drop_first(), false)
    } else {
        s
    }
}

/// How many characters an identifier or number scan takes off the front of
/// `s`: everything up to the first separator.
pub open spec fn scan_len(s: Seq<char>) -> int
    decreases s.len(),
{
    if s.len() == 0 || is_separator_char(s[0]) {
        0
    } else {
        1 + scan_len(s.drop_first())
    }
}

/// Classifies a scanned lexeme: digit- or minus-led text must be a valid
/// numeric literal, and anything else is an identifier.
pub open spec fn classify(text: Seq<char>) -> Result<TokenModel, ErrorModel> {
    if text.len() > 0 && (is_ascii_digit_char(text[0]) || text[0] == '-') {
        if is_valid_float_text(text) {
            Ok(TokenModel::Number(text))
        } else {
            Err(ErrorModel::InvalidNumber(text))
        }
    } else {
        Ok(TokenModel::Identifier(text))
    }
}

/// One token taken off the front of `s` (which starts at a token head, i.e.
/// after skipping), with the input left after it. A lone `-` is ambiguous:
/// followed by `>` it is the arrow, otherwise it prefixes a lexeme scan.
pub open spec fn spec_next_token(s: Seq<char>) -> (Result<TokenModel, ErrorModel>, Seq<char>) {
    if s.len() == 0 {
        (Err(ErrorModel::UnexpectedEOF), s)
    } else {
        let c = s[0];
        let rest = s.drop_first();
        if c == ':' {
            (Ok(TokenModel::Colon), rest)
        } else if c == '(' {
            (Ok(TokenModel::LParen), rest)
        } else if c == ')' {
            (Ok(TokenModel::RParen), rest)
        } else if c == ';' {
            (Ok(TokenModel::Semi), rest)
        } else if c == '-' {
            if rest.len() > 0 && rest[0] == '>' {
                (Ok(TokenModel::ThinArrow), rest.drop_first())
            } else {
                let n = scan_len(rest);
                (classify(seq!['-'].add(rest.take(n))), rest.skip(n))
            }
        } else {
            let n = scan_len(s);
            (classify(s.take(n)), s.skip(n))
        }
    }
}

/// One step of the token sequence: `None` when skipping exhausts the input
/// (the normal end), otherwise the next token or error.
pub open spec fn spec_next(s: Seq<char>) -> (Option<Result<TokenModel, ErrorModel>>, Seq<char>) {
    let r = spec_skip(s, false);
    if r.len() == 0 {
        (None, r)
    } else {
        let (t, rest) = spec_next_token(r);
        (Some(t), rest)
    }
}

/// Skipping takes nothing but characters off the front, and what it stops at
/// is neither whitespace nor a comment head.
pub proof fn lemma_skip_props(s: Seq<char>, in_comment: bool)
    ensures
        spec_skip(s, in_comment).len() <= s.len(),
        spec_skip(s, in_comment).len() > 0 ==> !is_whitespace_char(spec_skip(s, in_comment)[0])
            && spec_skip(s, in_comment)[0] != '#',
    decreases s.len(),
{
    if s.len() > 0 && (s[0] == '\n' || s[0] == '#' || in_comment || is_whitespace_char(s[0])) {
        lemma_skip_props(s.drop_first(), spec_skip_state(s, in_comment));
    }
}

/// The comment state after looking at the first character of `s`.
pub open spec fn spec_skip_state(s: Seq<char>, in_comment: bool) -> bool {
    if s.len() == 0 {
        in_comment
    } else if s[0] == '\n' {
        false
    } else if s[0] == '#' {
        true
    } else {
        in_comment
    }
}

/// A scan never reads past the end of the input.
pub proof fn lemma_scan_bounds(s: Seq<char>)
    ensures
        0 <= scan_len(s) <= s.len(),
    decreases s.len(),
{
    if !(s.len() == 0 || is_separator_char(s[0])) {
        lemma_scan_bounds(s.drop_first());
    }
}

/// Producing a token consumes at least one character.
pub proof fn lemma_next_token_shrinks(s: Seq<char>)
    requires
        s.len() > 0,
        !is_whitespace_char(s[0]),
    ensures
        spec_next_token(s).1.len() < s.len(),
{
    let c = s[0];
    let rest = s.drop_first();
    if c == ':' || c == '(' || c == ')' || c == ';' {
    } else if c == '-' {
        if rest.len() > 0 && rest[0] == '>' {
        } else {
            lemma_scan_bounds(rest);
        }
    } else {
        lemma_scan_bounds(s);
        lemma_scan_bounds(s.drop_first());
        assert(!is_separator_char(s[0]));
        assert(scan_len(s) >= 1);
    }
}

/// The whole token sequence of `s`: the chained steps of `spec_next`, ending
/// when skipping exhausts the input.
pub open spec fn spec_tokens(s: Seq<char>) -> Seq<Result<TokenModel, ErrorModel>>
    decreases s.len(),
    via spec_tokens_decreases
{
    let (o, rest) = spec_next(s);
    match o {
        None => Seq::empty(),
        Some(t) => seq![t].add(spec_tokens(rest)),
    }
}

#[via_fn]
proof fn spec_tokens_decreases(s: Seq<char>) {
    lemma_skip_props(s, false);
    let r = spec_skip(s, false);
    if r.len() > 0 {
        lemma_next_token_shrinks(r);
    }
}

/// Character-stream to token-stream transducer: the source characters plus a
/// cursor standing for the one-character lookahead.
pub struct Lexer {
    src: Vec<char>,
    pos: usize,
}

impl Lexer {
    /// The cursor never passes the end of the source.
    pub closed spec fn wf(&self) -> bool {
        self.pos <= self.src@.len()
    }

    /// The input not yet consumed.
    pub closed spec fn remaining(&self) -> Seq<char> {
        self.src@.skip(self.pos as int)
    }

    /// A lexer over the whole of `src`.
    pub fn new(src: Vec<char>) -> (r: Lexer)
        ensures
            r.wf(),
            r.remaining() == src@,
    {
        let r = Lexer { src, pos: 0 };
        proof {
            assert(r.remaining() =~= r.src@);
        }
        r
    }

    /// Whether the input is exhausted.
    fn is_done(&self) -> (r: bool)
        requires
            self.wf(),
        ensures
            r == (self.remaining().len() == 0),
    {
        self.pos == self.src.len()
    }

    /// The lookahead character.
    fn peek(&self) -> (r: Option<char>)
        requires
            self.wf(),
        ensures
            r == (if self.remaining().len() == 0 {
                Option::<char>::None
            } else {
                Option::Some(self.remaining()[0])
            }),
    {
        if self.pos == self.src.len() {
            None
        } else {
            Some(self.src[self.pos])
        }
    }

    /// Takes one character off the front.
    fn consume(&mut self)
        requires
            old(self).wf(),
            old(self).remaining().len() > 0,
        ensures
            final(self).wf(),
            final(self).remaining() == old(self).remaining().drop_first(),
    {
        let n = self.src.len();
        proof {
            assert(old(self).remaining().len() == n - self.pos);
        }
        self.pos = self.pos + 1;
        proof {
            assert(self.remaining() =~= old(self).remaining().drop_first());
        }
    }

    /// Consumes whitespace and line comments, as `spec_skip` gives it.
    fn skip(&mut self)
        requires
            old(self).wf(),
        ensures
            final(self).wf(),
            final(self).remaining() == spec_skip(old(self).remaining(), false),
    {
        let ghost pre = self.remaining();
        let mut in_comment = false;
        loop
            invariant
                self.wf(),
                spec_skip(pre, false) == spec_skip(self.remaining(), in_comment),
            ensures
                self.wf(),
                self.remaining() == spec_skip(pre, false),
            decreases self.remaining().len(),
        {
            match self.peek() {
                None => {
                    break ;
                },
                Some(c) => {
                    if c == '\n' {
                        in_comment = false;
                    } else if c == '#' {
                        in_comment = true;
                    } else if in_comment {
                    } else if is_whitespace(c) {
                    } else {
                        break ;
                    }
                    self.consume();
                },
            }
        }
    }

    /// Scans a lexeme (optionally already begun with `start`) up to the next
    /// separator and classifies it, as `classify` gives it.
    fn read_identifier(&mut self, start: Option<char>) -> (r: Result<Token, Error>)
        requires
            old(self).wf(),
        ensures
            final(self).wf(),
            final(self).remaining() == old(self).remaining().skip(
                scan_len(old(self).remaining()),
            ),
            lex_result_view(r) == classify(
                (match start {
                    Option::Some(c) => seq![c],
                    Option::None => Seq::<char>::empty(),
                }).add(old(self).remaining().take(scan_len(old(self).remaining()))),
            ),
    {
        let ghost pre = self.remaining();
        let ghost prefix: Seq<char> = match start {
            Option::Some(c) => seq![c],
            Option::None => Seq::<char>::empty(),
        };
        let mut buf: Vec<char> = Vec::new();
        if let Some(c) = start {
            buf.push(c);
        }
        proof {
            assert(buf@ =~= prefix);
            lemma_scan_bounds(pre);
        }
        loop
            invariant
                self.wf(),
                self.remaining().len() <= pre.len(),
                self.remaining() == pre.skip(pre.len() - self.remaining().len()),
                buf@ =~= prefix.add(pre.take(pre.len() - self.remaining().len())),
                scan_len(pre) == (pre.len() - self.remaining().len()) + scan_len(
                    self.remaining(),
                ),
            ensures
                self.wf(),
                self.remaining() == pre.skip(scan_len(pre)),
                buf@ == prefix.add(pre.take(scan_len(pre))),
            decreases self.remaining().len(),
        {
            proof {
                lemma_scan_bounds(self.remaining());
            }
            match self.peek() {
                None => {
                    break ;
                },
                Some(c) => {
                    if is_separator(c) {
                        break ;
                    }
                    let ghost rem = self.remaining();
                    let ghost k = pre.len() - rem.len();
                    buf.push(c);
                    self.consume();
                    proof {
                        assert(self.remaining() =~= rem.drop_first());
                        assert(self.remaining() =~= pre.skip(k + 1));
                        assert(pre[k] == c);
                        assert(pre.take(k + 1) =~= pre.take(k).push(c));
                        assert(buf@ =~= prefix.add(pre.take(k + 1)));
                    }
                },
            }
        }
        let text = chars_to_string(&buf);
        if buf.len() > 0 && (is_ascii_digit(buf[0]) || buf[0] == '-') {
            if is_valid_float(&buf) {
                Ok(Token::Number(text))
            } else {
                Err(Error::InvalidNumber(text))
            }
        } else {
            Ok(Token::Identifier(text))
        }
    }

    /// One token taken off the front of a non-exhausted, already-skipped
    /// input, as `spec_next_token` gives it; `UnexpectedEOF` on an exhausted
    /// one.
    fn next_token(&mut self) -> (r: Result<Token, Error>)
        requires
            old(self).wf(),
        ensures
            final(self).wf(),
            final(self).remaining() == spec_next_token(old(self).remaining()).1,
            lex_result_view(r) == spec_next_token(old(self).remaining()).0,
    {
        let ghost pre = self.remaining();
        match self.peek() {
            None => Err(Error::UnexpectedEOF),
            Some(c) => {
                if c == ':' {
                    self.consume();
                    Ok(Token::Colon)
                } else if c == '(' {
                    self.consume();
                    Ok(Token::LParen)
                } else if c == ')' {
                    self.consume();
                    Ok(Token::RParen)
                } else if c == ';' {
                    self.consume();
                    Ok(Token::Semi)
                } else if c == '-' {
                    self.consume();
                    let arrow = match self.peek() {
                        Some(d) => d == '>',
                        None => false,
                    };
                    if arrow {
                        self.consume();
                        Ok(Token::ThinArrow)
                    } else {
                        self.read_identifier(Some('-'))
                    }
                } else {
                    let r = self.read_identifier(None);
                    proof {
                        assert(Seq::<char>::empty().add(pre.take(scan_len(pre))) =~= pre.take(
                            scan_len(pre),
                        ));
                    }
                    r
                }
            },
        }
    }

    /// The next element of the token sequence: `None` once skipping exhausts
    /// the input, otherwise one token or error, as `spec_next` gives it.
    pub fn next(&mut self) -> (r: Option<Result<Token, Error>>)
        requires
            old(self).wf(),
        ensures
            final(self).wf(),
            final(self).remaining() == spec_next(old(self).remaining()).1,
            (match (r, spec_next(old(self).remaining()).0) {
                (Option::None, Option::None) => true,
                (Option::Some(er), Option::Some(sr)) => lex_result_view(er) == sr,
                _ => false,
            }),
    {
        self.skip();
        if self.is_done() {
            None
        } else {
            Some(self.next_token())
        }
    }
}

/// Builds the string holding exactly the given characters.
fn chars_to_string(v: &Vec<char>) -> (r: String)
    ensures
        r@ == v@,
{
    let mut s = String::new();
    let mut i: usize = 0;
    while i < v.len()
        invariant
            i <= v@.len(),
            s@ =~= v@.take(i as int),
        decreases v@.len() - i,
    {
        push_char(&mut s, v[i]);
        i = i + 1;
        proof {
            assert(s@ =~= v@.take(i as int));
        }
    }
    proof {
        assert(v@.take(v@.len() as int) =~= v@);
    }
    s
}

} // verus!
