//! The parser: a token-stream to AST-node-stream transducer.
//!
//! The grammar is recursive descent with one token of lookahead. A top-level
//! expression begins with an identifier; a single following colon commits to
//! a function definition, two colons name the (unspecified) declaration form
//! and are a hard syntax error, and anything else — a closing parenthesis or
//! the end of the tokens included — commits to application parsing. The
//! functions `spec_parse_*` below give each production as a function of the
//! remaining tokens alone, returning the node or error together with the
//! tokens left; `Parser::next` is proved to follow them exactly, one element
//! per top-level statement.

use vstd::prelude::*;

use crate::ast::ASTNode;
use crate::ast::NodeModel;
use crate::function::DescriptorModel;
use crate::function::FunctionDescriptor;
use crate::function::PatternElement;
use crate::token::Identifier;
use crate::token::Token;
use crate::token::TokenModel;

verus! {

/// A syntactic error, terminal for the statement it arises in.
///
/// `UnexpectedEnd`: the tokens ran out in the middle of a construct.
/// `UnmatchedParen`: a production expecting `)` found something else or
/// nothing. `UnexpectedToken`: a token in a position no grammar alternative
/// accepts, carried for diagnostics.
#[derive(Debug, Clone, PartialEq)]
pub enum Error {
    UnexpectedEnd,
    UnmatchedParen,
    UnexpectedToken(Token),
}

/// The mathematical model of a syntactic error.
pub enum ErrorModel {
    UnexpectedEnd,
    UnmatchedParen,
    UnexpectedToken(TokenModel),
}

impl View for Error {
    type V = ErrorModel;

    open spec fn view(&self) -> ErrorModel {
        match self {
            Error::UnexpectedEnd => ErrorModel::UnexpectedEnd,
            Error::UnmatchedParen => ErrorModel::UnmatchedParen,
            Error::UnexpectedToken(t) => ErrorModel::UnexpectedToken(t@),
        }
    }
}

/// The model of one parser result.
pub open spec fn parse_result_view(r: Result<ASTNode, Error>) -> Result<NodeModel, ErrorModel> {
    match r {
        Ok(n) => Ok(n@),
        Err(e) => Err(e@),
    }
}

/// The models of a sequence of tokens.
pub open spec fn token_views(ts: Seq<Token>) -> Seq<TokenModel> {
    Seq::new(ts.len(), |i: int| ts[i]@)
}

/// An atom taken off the front: a name, a number, or the `;` that stands for
/// the `Empty` terminator.
pub open spec fn spec_parse_atom(ts: Seq<TokenModel>) -> (Result<NodeModel, ErrorModel>, Seq<
    TokenModel,
>) {
    if ts.len() == 0 {
        (Err(ErrorModel::UnexpectedEnd), ts)
    } else {
        let rest = ts.drop_first();
        match ts[0] {
            TokenModel::Identifier(name) => (Ok(NodeModel::Atom(name)), rest),
            TokenModel::Number(text) => (Ok(NodeModel::Number(text)), rest),
            TokenModel::Semi => (Ok(NodeModel::Empty), rest),
            t => (Err(ErrorModel::UnexpectedToken(t)), rest),
        }
    }
}

/// A sub-level expression: a parenthesised full expression, an atom, or the
/// `Empty` sentinel at a closing parenthesis (left unconsumed) or at the end
/// of the tokens. After `(`, the inner expression must be followed by `)`;
/// anything else there, or exhaustion, is `UnmatchedParen`.
pub open spec fn spec_parse_sublevel(ts: Seq<TokenModel>) -> (Result<NodeModel, ErrorModel>, Seq<
    TokenModel,
>)
    decreases ts.len(), 1int,
{
    if ts.len() == 0 {
        (Ok(NodeModel::Empty), ts)
    } else if ts[0] is LParen {
        let rest0 = ts.drop_first();
        if rest0.len() == 0 {
            (Err(ErrorModel::UnmatchedParen), rest0)
        } else {
            let (inner, rest1) = spec_parse_toplevel(rest0);
            match inner {
                Err(e) => (Err(e), rest1),
                Ok(node) => {
                    if rest1.len() == 0 {
                        (Err(ErrorModel::UnmatchedParen), rest1)
                    } else if rest1[0] is RParen {
                        (Ok(node), rest1.drop_first())
                    } else {
                        (Err(ErrorModel::UnmatchedParen), rest1.drop_first())
                    }
                },
            }
        }
    } else if ts[0] is RParen {
        (Ok(NodeModel::Empty), ts)
    } else {
        spec_parse_atom(ts)
    }
}

/// Application parsing: sub-level expressions folded left-associatively onto
/// `acc` until one comes back `Empty`. The guard on the recursion is
/// justified by `lemma_sublevel_len`: a non-empty sub-expression always
/// consumes input, so the unguarded branch is never taken.
pub open spec fn spec_parse_call(ts: Seq<TokenModel>, acc: NodeModel) -> (Result<
    NodeModel,
    ErrorModel,
>, Seq<TokenModel>)
    decreases ts.len(), 2int,
{
    let (sub, rest) = spec_parse_sublevel(ts);
    match sub {
        Err(e) => (Err(e), rest),
        Ok(node) => {
            if node is Empty {
                (Ok(acc), rest)
            } else if rest.len() < ts.len() {
                spec_parse_call(
                    rest,
                    NodeModel::Call { function: Box::new(acc), arg: Box::new(node) },
                )
            } else {
                (Ok(acc), rest)
            }
        },
    }
}

/// The parameter list of a function definition: identifiers up to the
/// arrow. Any other token, or exhaustion, ends it with an error.
pub open spec fn spec_parse_params(ts: Seq<TokenModel>) -> (Result<Seq<Seq<char>>, ErrorModel>, Seq<
    TokenModel,
>)
    decreases ts.len(), 0int,
{
    if ts.len() == 0 {
        (Err(ErrorModel::UnexpectedEnd), ts)
    } else {
        let rest = ts.drop_first();
        match ts[0] {
            TokenModel::Identifier(name) => {
                let (pr, rest2) = spec_parse_params(rest);
                match pr {
                    Ok(params) => (Ok(seq![name].add(params)), rest2),
                    Err(e) => (Err(e), rest2),
                }
            },
            TokenModel::ThinArrow => (Ok(Seq::empty()), rest),
            t => (Err(ErrorModel::UnexpectedToken(t)), rest),
        }
    }
}

/// A function definition after its introducing `name :`: the parameter list,
/// then one full expression as the body. The guard on the body is justified
/// by `lemma_params_len`: an accepted parameter list consumes its arrow.
pub open spec fn spec_parse_fundef(name: Seq<char>, ts: Seq<TokenModel>) -> (Result<
    NodeModel,
    ErrorModel,
>, Seq<TokenModel>)
    decreases ts.len(), 1int,
{
    let (pr, rest) = spec_parse_params(ts);
    match pr {
        Err(e) => (Err(e), rest),
        Ok(params) => {
            if rest.len() < ts.len() {
                let (br, rest2) = spec_parse_toplevel(rest);
                match br {
                    Err(e) => (Err(e), rest2),
                    Ok(body) => (
                        Ok(
                            NodeModel::Define {
                                function: DescriptorModel { name, params },
                                body: Box::new(body),
                            },
                        ),
                        rest2,
                    ),
                }
            } else {
                (Err(ErrorModel::UnexpectedEnd), rest)
            }
        },
    }
}

/// One full top-level expression taken off the front of the tokens.
pub open spec fn spec_parse_toplevel(ts: Seq<TokenModel>) -> (Result<NodeModel, ErrorModel>, Seq<
    TokenModel,
>)
    decreases ts.len(), 3int,
{
    if ts.len() == 0 {
        (Err(ErrorModel::UnexpectedEnd), ts)
    } else {
        let rest = ts.drop_first();
        match ts[0] {
            TokenModel::Identifier(name) => {
                if rest.len() > 0 && rest[0] is Colon {
                    let rest2 = rest.drop_first();
                    if rest2.len() == 0 {
                        (Err(ErrorModel::UnexpectedEnd), rest2)
                    } else if rest2[0] is Colon {
                        (
                            Err(ErrorModel::UnexpectedToken(TokenModel::Colon)),
                            rest2.drop_first(),
                        )
                    } else {
                        spec_parse_fundef(name, rest2)
                    }
                } else {
                    spec_parse_call(rest, NodeModel::Atom(name))
                }
            },
            t => (Err(ErrorModel::UnexpectedToken(t)), rest),
        }
    }
}

/// One step of the node sequence: `None` when no tokens remain before a new
/// statement (the normal end), otherwise one node or error.
pub open spec fn spec_parse_next(ts: Seq<TokenModel>) -> (Option<Result<NodeModel, ErrorModel>>, Seq<
    TokenModel,
>) {
    if ts.len() == 0 {
        (None, ts)
    } else {
        let (r, rest) = spec_parse_toplevel(ts);
        (Some(r), rest)
    }
}

/// An atom leaves fewer tokens than it found.
pub proof fn lemma_atom_len(ts: Seq<TokenModel>)
    ensures
        spec_parse_atom(ts).1.len() <= ts.len(),
        ts.len() > 0 ==> spec_parse_atom(ts).1.len() < ts.len(),
{
}

/// A parameter list leaves no more tokens than it found, and an accepted one
/// consumes at least its arrow.
pub proof fn lemma_params_len(ts: Seq<TokenModel>)
    ensures
        spec_parse_params(ts).1.len() <= ts.len(),
        spec_parse_params(ts).0 is Ok ==> spec_parse_params(ts).1.len() < ts.len(),
    decreases ts.len(), 0int,
{
    if ts.len() > 0 {
        match ts[0] {
            TokenModel::Identifier(name) => {
                lemma_params_len(ts.drop_first());
            },
            _ => {},
        }
    }
}

/// A sub-level expression leaves no more tokens than it found, and one that
/// yields a node other than `Empty` consumes at least one.
pub proof fn lemma_sublevel_len(ts: Seq<TokenModel>)
    ensures
        spec_parse_sublevel(ts).1.len() <= ts.len(),
        (match spec_parse_sublevel(ts).0 {
            Ok(node) => !(node is Empty) ==> spec_parse_sublevel(ts).1.len() < ts.len(),
            Err(_) => true,
        }),
    decreases ts.len(), 1int,
{
    if ts.len() > 0 && ts[0] is LParen {
        let rest0 = ts.drop_first();
        if rest0.len() > 0 {
            lemma_toplevel_len(rest0);
        }
    } else if ts.len() > 0 && !(ts[0] is RParen) {
        lemma_atom_len(ts);
    }
}

/// Application parsing leaves no more tokens than it found.
pub proof fn lemma_call_len(ts: Seq<TokenModel>, acc: NodeModel)
    ensures
        spec_parse_call(ts, acc).1.len() <= ts.len(),
    decreases ts.len(), 2int,
{
    lemma_sublevel_len(ts);
    let (sub, rest) = spec_parse_sublevel(ts);
    match sub {
        Ok(node) => {
            if !(node is Empty) && rest.len() < ts.len() {
                lemma_call_len(
                    rest,
                    NodeModel::Call { function: Box::new(acc), arg: Box::new(node) },
                );
            }
        },
        Err(_) => {},
    }
}

/// A function definition leaves no more tokens than it found.
pub proof fn lemma_fundef_len(name: Seq<char>, ts: Seq<TokenModel>)
    ensures
        spec_parse_fundef(name, ts).1.len() <= ts.len(),
    decreases ts.len(), 1int,
{
    lemma_params_len(ts);
    let (pr, rest) = spec_parse_params(ts);
    if pr is Ok && rest.len() < ts.len() {
        lemma_toplevel_len(rest);
    }
}

/// A top-level expression consumes at least its head token.
pub proof fn lemma_toplevel_len(ts: Seq<TokenModel>)
    ensures
        spec_parse_toplevel(ts).1.len() <= ts.len(),
        ts.len() > 0 ==> spec_parse_toplevel(ts).1.len() < ts.len(),
    decreases ts.len(), 3int,
{
    if ts.len() > 0 {
        match ts[0] {
            TokenModel::Identifier(name) => {
                let rest = ts.drop_first();
                if rest.len() > 0 && rest[0] is Colon {
                    let rest2 = rest.drop_first();
                    if rest2.len() > 0 && !(rest2[0] is Colon) {
                        lemma_fundef_len(name, rest2);
                    }
                } else {
                    lemma_call_len(rest, NodeModel::Atom(name));
                }
            },
            _ => {},
        }
    }
}

/// Token-stream to AST-node-stream transducer: the tokens plus a cursor
/// standing for the one-token lookahead.
pub struct Parser {
    toks: Vec<Token>,
    pos: usize,
}

impl Parser {
    /// The cursor never passes the end of the tokens.
    pub closed spec fn wf(&self) -> bool {
        self.pos <= self.toks@.len()
    }

    /// The models of the tokens not yet consumed.
    pub closed spec fn remaining(&self) -> Seq<TokenModel> {
        token_views(self.toks@).skip(self.pos as int)
    }

    /// A parser over the whole of `toks`.
    pub fn new(toks: Vec<Token>) -> (r: Parser)
        ensures
            r.wf(),
            r.remaining() == token_views(toks@),
    {
        let r = Parser { toks, pos: 0 };
        proof {
            assert(r.remaining() =~= token_views(r.toks@));
        }
        r
    }

    /// Whether the tokens are exhausted.
    fn is_done(&self) -> (r: bool)
        requires
            self.wf(),
        ensures
            r == (self.remaining().len() == 0),
    {
        self.pos == self.toks.len()
    }

    /// Takes one token off the front.
    fn advance(&mut self)
        requires
            old(self).wf(),
            old(self).remaining().len() > 0,
        ensures
            final(self).wf(),
            final(self).remaining() == old(self).remaining().drop_first(),
            final(self).toks == old(self).toks,
    {
        let n = self.toks.len();
        proof {
            assert(old(self).remaining().len() == n - self.pos);
        }
        self.pos = self.pos + 1;
        proof {
            assert(self.remaining() =~= old(self).remaining().drop_first());
        }
    }

    /// The model of the lookahead token.
    proof fn lemma_head(&self)
        requires
            self.wf(),
            self.remaining().len() > 0,
        ensures
            self.remaining()[0] == self.toks@[self.pos as int]@,
            (self.pos as int) < self.toks@.len(),
    {
    }

    /// Parses an atom, as `spec_parse_atom` gives it.
    fn parse_atom(&mut self) -> (r: Result<ASTNode, Error>)
        requires
            old(self).wf(),
        ensures
            final(self).wf(),
            final(self).remaining() == spec_parse_atom(old(self).remaining()).1,
            parse_result_view(r) == spec_parse_atom(old(self).remaining()).0,
    {
        if self.is_done() {
            return Err(Error::UnexpectedEnd);
        }
        proof {
            self.lemma_head();
        }
        match &self.toks[self.pos] {
            Token::Identifier(name) => {
                let n = name.clone();
                self.advance();
                Ok(ASTNode::atom(n))
            },
            Token::Number(text) => {
                let t = text.clone();
                self.advance();
                Ok(ASTNode::number(t))
            },
            Token::Semi => {
                self.advance();
                Ok(ASTNode::empty())
            },
            _ => {
                let t = self.toks[self.pos].duplicate();
                self.advance();
                Err(Error::UnexpectedToken(t))
            },
        }
    }

    /// Parses a sub-level expression, as `spec_parse_sublevel` gives it.
    fn parse_sublevel_expression(&mut self) -> (r: Result<ASTNode, Error>)
        requires
            old(self).wf(),
        ensures
            final(self).wf(),
            final(self).remaining() == spec_parse_sublevel(old(self).remaining()).1,
            parse_result_view(r) == spec_parse_sublevel(old(self).remaining()).0,
        decreases old(self).remaining().len(), 1int,
    {
        if self.is_done() {
            return Ok(ASTNode::empty());
        }
        proof {
            self.lemma_head();
        }
        if matches!(&self.toks[self.pos], Token::LParen) {
            self.advance();
            if self.is_done() {
                return Err(Error::UnmatchedParen);
            }
            let node = match self.parse_toplevel_expression() {
                Err(e) => {
                    return Err(e);
                },
                Ok(n) => n,
            };
            if self.is_done() {
                return Err(Error::UnmatchedParen);
            }
            proof {
                self.lemma_head();
            }
            if matches!(&self.toks[self.pos], Token::RParen) {
                self.advance();
                Ok(node)
            } else {
                self.advance();
                Err(Error::UnmatchedParen)
            }
        } else if matches!(&self.toks[self.pos], Token::RParen) {
            Ok(ASTNode::empty())
        } else {
            self.parse_atom()
        }
    }

    /// Parses an application chain rooted at the atom `name`, as
    /// `spec_parse_call` gives it.
    fn parse_call(&mut self, name: Identifier) -> (r: Result<ASTNode, Error>)
        requires
            old(self).wf(),
        ensures
            final(self).wf(),
            final(self).remaining() == spec_parse_call(
                old(self).remaining(),
                NodeModel::Atom(name@),
            ).1,
            parse_result_view(r) == spec_parse_call(old(self).remaining(), NodeModel::Atom(name@)).0,
        decreases old(self).remaining().len(), 2int,
    {
        let ghost pre = self.remaining();
        let ghost acc0 = NodeModel::Atom(name@);
        let mut node = ASTNode::atom(name);
        loop
            invariant
                self.wf(),
                pre == old(self).remaining(),
                acc0 == NodeModel::Atom(name@),
                self.remaining().len() <= pre.len(),
                spec_parse_call(pre, acc0) == spec_parse_call(self.remaining(), node@),
            decreases self.remaining().len(), 2int,
        {
            let ghost cur = self.remaining();
            proof {
                lemma_sublevel_len(cur);
            }
            let sub = match self.parse_sublevel_expression() {
                Err(e) => {
                    return Err(e);
                },
                Ok(n) => n,
            };
            if sub.is_empty() {
                return Ok(node);
            }
            node = ASTNode::call(node, sub);
        }
    }

    /// Parses a function definition introduced by `name :`, as
    /// `spec_parse_fundef` gives it: the parameter identifiers up to the
    /// arrow, then the body.
    fn parse_function_definition(&mut self, name: Identifier) -> (r: Result<ASTNode, Error>)
        requires
            old(self).wf(),
        ensures
            final(self).wf(),
            final(self).remaining() == spec_parse_fundef(name@, old(self).remaining()).1,
            parse_result_view(r) == spec_parse_fundef(name@, old(self).remaining()).0,
        decreases old(self).remaining().len(), 1int,
    {
        let ghost pre = self.remaining();
        let mut function = FunctionDescriptor::new(name);
        proof {
            let (pr0, rest0) = spec_parse_params(pre);
            match pr0 {
                Ok(params0) => {
                    assert(Seq::<Seq<char>>::empty().add(params0) =~= params0);
                },
                Err(_) => {},
            }
        }
        loop
            invariant_except_break
                ({
                    let (pr, rest) = spec_parse_params(self.remaining());
                    spec_parse_params(pre) == ((match pr {
                        Ok(params) => Result::<Seq<Seq<char>>, ErrorModel>::Ok(
                            function@.params.add(params),
                        ),
                        Err(e) => Result::<Seq<Seq<char>>, ErrorModel>::Err(e),
                    }), rest)
                }),
            invariant
                self.wf(),
                pre == old(self).remaining(),
                self.remaining().len() <= pre.len(),
                function@.name == name@,
            ensures
                self.wf(),
                self.remaining().len() < pre.len(),
                spec_parse_params(pre) == (Result::<Seq<Seq<char>>, ErrorModel>::Ok(
                    function@.params,
                ), self.remaining()),
            decreases self.remaining().len(),
        {
            let ghost cur = self.remaining();
            if self.is_done() {
                return Err(Error::UnexpectedEnd);
            }
            proof {
                self.lemma_head();
            }
            match &self.toks[self.pos] {
                Token::Identifier(param) => {
                    let p = param.clone();
                    self.advance();
                    let ghost before = function@.params;
                    function.add_arg(PatternElement::ident(p));
                    proof {
                        let (pr2, rest2) = spec_parse_params(self.remaining());
                        match pr2 {
                            Ok(params2) => {
                                assert(before.add(seq![p@].add(params2)) =~= before.push(
                                    p@,
                                ).add(params2));
                            },
                            Err(_) => {},
                        }
                    }
                },
                Token::ThinArrow => {
                    self.advance();
                    proof {
                        lemma_params_len(pre);
                        assert(function@.params.add(Seq::<Seq<char>>::empty())
                            =~= function@.params);
                    }
                    break ;
                },
                _ => {
                    let t = self.toks[self.pos].duplicate();
                    self.advance();
                    return Err(Error::UnexpectedToken(t));
                },
            }
        }
        proof {
            lemma_params_len(pre);
        }
        let body = match self.parse_toplevel_expression() {
            Err(e) => {
                return Err(e);
            },
            Ok(b) => b,
        };
        Ok(ASTNode::define_function(function, body))
    }

    /// Parses one full top-level expression, as `spec_parse_toplevel` gives
    /// it.
    fn parse_toplevel_expression(&mut self) -> (r: Result<ASTNode, Error>)
        requires
            old(self).wf(),
        ensures
            final(self).wf(),
            final(self).remaining() == spec_parse_toplevel(old(self).remaining()).1,
            parse_result_view(r) == spec_parse_toplevel(old(self).remaining()).0,
        decreases old(self).remaining().len(), 3int,
    {
        if self.is_done() {
            return Err(Error::UnexpectedEnd);
        }
        proof {
            self.lemma_head();
        }
        let name = match &self.toks[self.pos] {
            Token::Identifier(n) => Some(n.clone()),
            _ => None,
        };
        match name {
            Some(nm) => {
                self.advance();
                let colon = if self.is_done() {
                    false
                } else {
                    proof {
                        self.lemma_head();
                    }
                    matches!(&self.toks[self.pos], Token::Colon)
                };
                if colon {
                    self.advance();
                    if self.is_done() {
                        return Err(Error::UnexpectedEnd);
                    }
                    proof {
                        self.lemma_head();
                    }
                    if matches!(&self.toks[self.pos], Token::Colon) {
                        self.advance();
                        return Err(Error::UnexpectedToken(Token::Colon));
                    }
                    self.parse_function_definition(nm)
                } else {
                    self.parse_call(nm)
                }
            },
            None => {
                let t = self.toks[self.pos].duplicate();
                self.advance();
                Err(Error::UnexpectedToken(t))
            },
        }
    }

    /// The next element of the node sequence: `None` once no tokens remain
    /// before a new statement, otherwise one node or error, as
    /// `spec_parse_next` gives it. A statement that fails leaves the cursor
    /// where the error arose; later statements are fresh attempts from
    /// there.
    pub fn next(&mut self) -> (r: Option<Result<ASTNode, Error>>)
        requires
            old(self).wf(),
        ensures
            final(self).wf(),
            final(self).remaining() == spec_parse_next(old(self).remaining()).1,
            (match (r, spec_parse_next(old(self).remaining()).0) {
                (Option::None, Option::None) => true,
                (Option::Some(er), Option::Some(sr)) => parse_result_view(er) == sr,
                _ => false,
            }),
    {
        if self.is_done() {
            None
        } else {
            Some(self.parse_toplevel_expression())
        }
    }
}

} // verus!
