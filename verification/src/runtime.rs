//! Values that a running program handles.

use vstd::prelude::*;

verus! {

/// A function that the interpreter provides.
#[derive(Clone, Copy, Debug, PartialEq, Eq)]
pub enum Builtin {
    Print,
    Println,
    Len,
}

/// A runtime value.
#[derive(Clone, Debug, PartialEq, Eq)]
pub enum Value {
    Bool(bool),
    Int(i64),
    Str(String),
    Builtin(Builtin),
}

} // verus!
