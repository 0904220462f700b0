//! The ways in which parsing fails.

use crate::tree::Rule;
use vstd::prelude::*;

verus! {

/// The grammar could not match a rule against the text.
#[derive(Clone, Copy, Debug, PartialEq, Eq, Structural)]
pub struct SyntaxError {
    /// The rule that did not match.
    pub rule: Rule,
    /// The index of the character at which matching stopped.
    pub position: usize,
}

/// A parse tree does not have the shape that the builder relies on.
#[derive(Clone, Copy, Debug, PartialEq, Eq, Structural)]
pub enum StructuralError {
    /// A node of this rule must hold a nested value and holds none.
    EmptyField(Rule),
    /// A node of this rule holds children that the rule does not allow.
    InvalidNesting(Rule),
    /// A node of this rule stands where an address list was expected.
    Unexpected(Rule),
}

#[derive(Clone, Copy, Debug, PartialEq, Eq, Structural)]
pub enum Error {
    /// The text does not match the grammar.
    SyntaxError(SyntaxError),
    /// The parse tree is not one that the builder can walk.
    StructuralError(StructuralError),
    /// There is nothing to parse: the text is absent, empty or blank.
    Empty,
}

} // verus!
