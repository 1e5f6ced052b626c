//! Errors of the interpreter core.

use crate::ast::Ident;
use vstd::prelude::*;

verus! {

/// What can go wrong when a program binds a name.
#[derive(Clone, Debug, PartialEq, Eq)]
pub enum Error {
    /// The identifier already has a binding in the scope that was asked to bind it.
    AssignedVariableExists(Ident),
}

} // verus!
