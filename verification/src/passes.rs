//! Passes over a parsed program, for users of the library to write.

use crate::ast::Ast;
use vstd::prelude::*;

verus! {

/// What a pass is for.
#[derive(Debug, Clone, Copy, PartialEq, Eq, Structural)]
pub enum AstPassKind {
    Validation,
    Optimization,
}

/// A pass takes a program and gives it back, changed or not, or refuses it.
/// The library asks nothing of a pass and promises nothing of it.
pub trait AstPass: Sized {
    type Error;

    /// What the pass is for.
    const KIND: AstPassKind;

    fn run(self, ast: Ast) -> Result<Ast, Self::Error>;
}

} // verus!
