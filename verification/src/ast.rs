//! The tree representation of parsed programs.

use vstd::prelude::*;

use crate::function::DescriptorModel;
use crate::function::FunctionDescriptor;
use crate::token::Identifier;

verus! {

/// One node of the abstract syntax tree.
///
/// `Empty` is a sentinel meaning "no further element here"; the parser uses
/// it to end an argument list, and it never stands inside a finished tree.
/// Each composite node owns its children outright; a multi-argument
/// application is a left-nested chain of single-argument `Call`s. A numeric
/// literal keeps its source text, as in a `Number` token.
#[derive(Debug, PartialEq)]
pub enum ASTNode {
    Empty,
    Number(String),
    Atom(Identifier),
    Call { function: Box<ASTNode>, arg: Box<ASTNode> },
    Define { function: FunctionDescriptor, body: Box<ASTNode> },
}

/// The mathematical model of a node: the same tree over sequences of
/// characters.
pub enum NodeModel {
    Empty,
    Number(Seq<char>),
    Atom(Seq<char>),
    Call { function: Box<NodeModel>, arg: Box<NodeModel> },
    Define { function: DescriptorModel, body: Box<NodeModel> },
}

/// The model of a node, by structural recursion.
pub open spec fn model_of(n: ASTNode) -> NodeModel
    decreases n,
{
    match n {
        ASTNode::Empty => NodeModel::Empty,
        ASTNode::Number(text) => NodeModel::Number(text@),
        ASTNode::Atom(name) => NodeModel::Atom(name@),
        ASTNode::Call { function, arg } => NodeModel::Call {
            function: Box::new(model_of(*function)),
            arg: Box::new(model_of(*arg)),
        },
        ASTNode::Define { function, body } => NodeModel::Define {
            function: function@,
            body: Box::new(model_of(*body)),
        },
    }
}

impl View for ASTNode {
    type V = NodeModel;

    open spec fn view(&self) -> NodeModel {
        model_of(*self)
    }
}

impl ASTNode {
    /// The sentinel node.
    pub fn empty() -> (r: Self)
        ensures
            r@ == NodeModel::Empty,
    {
        Self::Empty
    }

    /// A bare name reference.
    pub fn atom(name: Identifier) -> (r: Self)
        ensures
            r@ == NodeModel::Atom(name@),
    {
        Self::Atom(name)
    }

    /// A numeric literal, carried as its source text.
    pub fn number(text: String) -> (r: Self)
        ensures
            r@ == NodeModel::Number(text@),
    {
        Self::Number(text)
    }

    /// A single-argument application of `function` to `arg`.
    pub fn call(function: ASTNode, arg: ASTNode) -> (r: Self)
        ensures
            r@ == (NodeModel::Call { function: Box::new(function@), arg: Box::new(arg@) }),
    {
        Self::Call { function: Box::new(function), arg: Box::new(arg) }
    }

    /// A named function definition whose body is an expression tree.
    pub fn define_function(function: FunctionDescriptor, body: ASTNode) -> (r: Self)
        ensures
            r@ == (NodeModel::Define { function: function@, body: Box::new(body@) }),
    {
        Self::Define { function, body: Box::new(body) }
    }

    /// Whether this node is the `Empty` sentinel.
    pub fn is_empty(&self) -> (r: bool)
        ensures
            r == (self@ == NodeModel::Empty),
    {
        match self {
            ASTNode::Empty => true,
            _ => false,
        }
    }
}

} // verus!
