//! Syntax-level names.

use vstd::prelude::*;

verus! {

/// The name of a variable as written in a program.
#[derive(Clone, Debug, PartialEq, Eq, Hash)]
pub struct Ident {
    name: String,
}

impl View for Ident {
    type V = Seq<char>;

    closed spec fn view(&self) -> Seq<char> {
        self.name@
    }
}

impl Ident {
    /// Makes the identifier spelled `name`.
    pub fn new(name: &str) -> (id: Ident)
        ensures
            id@ == name@,
    {
        Ident { name: name.to_owned() }
    }

    /// The spelling of the identifier.
    pub fn as_str(&self) -> (s: &str)
        ensures
            s@ == self@,
    {
        self.name.as_str()
    }

    /// Gives up the identifier for its spelling.
    pub fn into_string(self) -> (s: String)
        ensures
            s@ == self@,
    {
        self.name
    }
}

} // verus!
