//! The function-signature model: a name and an ordered pattern of formal
//! parameters.

use vstd::prelude::*;

use crate::token::Identifier;

verus! {

/// One element of a pattern; today only a bound parameter name.
#[derive(Debug, Clone, PartialEq)]
pub enum PatternElement {
    Identifier(Identifier),
}

impl View for PatternElement {
    type V = Seq<char>;

    open spec fn view(&self) -> Seq<char> {
        match self {
            PatternElement::Identifier(name) => name@,
        }
    }
}

impl PatternElement {
    pub fn ident(name: Identifier) -> (r: Self)
        ensures
            r@ == name@,
    {
        Self::Identifier(name)
    }
}

/// The ordered formal parameters of a function definition; order is
/// positional and significant, and duplicate names are not rejected here.
#[derive(Debug, Clone, PartialEq)]
pub struct Pattern {
    pub elements: Vec<PatternElement>,
}

impl View for Pattern {
    type V = Seq<Seq<char>>;

    open spec fn view(&self) -> Seq<Seq<char>> {
        Seq::new(self.elements@.len(), |i: int| self.elements@[i]@)
    }
}

impl Pattern {
    pub fn new() -> (r: Self)
        ensures
            r@ == Seq::<Seq<char>>::empty(),
    {
        let r = Self { elements: Vec::new() };
        proof {
            assert(r@ =~= Seq::<Seq<char>>::empty());
        }
        r
    }

    pub fn add(&mut self, arg: PatternElement)
        ensures
            final(self)@ == old(self)@.push(arg@),
    {
        let ghost before = self@;
        let ghost argv = arg@;
        self.elements.push(arg);
        proof {
            assert(self@ =~= before.push(argv));
        }
    }
}

/// The mathematical model of a function descriptor: its name and its
/// parameter names, in order.
pub struct DescriptorModel {
    pub name: Seq<char>,
    pub params: Seq<Seq<char>>,
}

/// A function's name together with its formal parameter pattern.
#[derive(Debug, Clone, PartialEq)]
pub struct FunctionDescriptor {
    pub name: Identifier,
    pub arguments: Pattern,
}

impl View for FunctionDescriptor {
    type V = DescriptorModel;

    open spec fn view(&self) -> DescriptorModel {
        DescriptorModel { name: self.name@, params: self.arguments@ }
    }
}

impl FunctionDescriptor {
    /// A descriptor for `name` with no parameters yet.
    pub fn new(name: Identifier) -> (r: Self)
        ensures
            r@.name == name@,
            r@.params == Seq::<Seq<char>>::empty(),
    {
        Self { name, arguments: Pattern::new() }
    }

    /// Appends one formal parameter; earlier parameters keep their places.
    pub fn add_arg(&mut self, arg: PatternElement)
        ensures
            final(self)@.name == old(self)@.name,
            final(self)@.params == old(self)@.params.push(arg@),
    {
        self.arguments.add(arg)
    }
}

} // verus!
