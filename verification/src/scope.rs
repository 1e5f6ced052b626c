//! The scope chain: name resolution, shadowing and single assignment per scope.

use crate::ast::Ident;
use crate::builtins::{attach_builtins, builtin_bindings, root_chain};
use crate::error::Error;
use crate::resolution::{declare, nested, resolve, Bindings};
use crate::runtime::Value;
use vstd::hash_map::StringHashMap;
use vstd::prelude::*;

verus! {

/// One lexical scope: its own bindings and a link to the scope around it.
pub struct Scope<'a> {
    parent: Option<&'a Scope<'a>>,
    local: StringHashMap<Value>,
}

impl<'a> View for Scope<'a> {
    type V = Seq<Bindings>;

    /// The bindings of this scope, then those of each enclosing scope, outwards.
    closed spec fn view(&self) -> Seq<Bindings> {
        self.chain()
    }
}

impl<'a> Scope<'a> {
    spec fn chain(&self) -> Seq<Bindings>
        decreases self,
    {
        match self.parent {
            Some(outer) => seq![self.local@] + outer.chain(),
            None => seq![self.local@],
        }
    }

    /// A chain always holds the scope itself.
    pub proof fn lemma_chain_nonempty(&self)
        ensures
            self@.len() > 0,
    {
    }

    /// The outermost scope: no scope around it, and every built-in bound.
    pub fn root() -> (scope: Scope<'a>)
        ensures
            scope@ == root_chain(),
    {
        let mut scope = Scope::default();
        attach_builtins(&mut scope);
        assert(builtin_bindings().union_prefer_right(Bindings::empty()) =~= builtin_bindings());
        scope
    }

    /// Looks `key` up in this scope, then in each enclosing scope in turn, and
    /// gives the first binding found; `None` where no scope binds it.
    pub fn get(&self, key: &str) -> (found: Option<&Value>)
        ensures
            match found {
                Some(value) => resolve(self@, key@) == Some(*value),
                None => resolve(self@, key@) is None,
            },
        decreases self,
    {
        match self.local.get(key) {
            Some(value) => Some(value),
            None => match self.parent {
                Some(outer) => {
                    assert(self@.drop_first() == outer@);
                    outer.get(key)
                },
                None => {
                    assert(resolve(self@.drop_first(), key@) is None);
                    None
                },
            },
        }
    }

    /// Binds `key` to `value` in this scope. A name that this scope already
    /// binds itself is refused and the scope stays as it was; a name bound only
    /// in an enclosing scope is shadowed. Enclosing scopes are never touched.
    pub fn set(&mut self, key: Ident, value: Value) -> (outcome: Result<(), Error>)
        ensures
            old(self)@[0].contains_key(key@) ==> outcome == Err::<(), Error>(
                Error::AssignedVariableExists(key),
            ) && final(self)@ == old(self)@,
            !old(self)@[0].contains_key(key@) ==> outcome is Ok && final(self)@ == declare(
                old(self)@,
                key@,
                value,
            ),
    {
        if self.local.contains_key(key.as_str()) {
            Err(Error::AssignedVariableExists(key))
        } else {
            self.local.insert(key.into_string(), value);
            Ok(())
        }
    }

    /// A fresh scope nested in this one, with no bindings of its own.
    pub fn child(&'a self) -> (inner: Scope<'a>)
        ensures
            inner@ == nested(self@),
    {
        Scope { parent: Some(self), local: StringHashMap::new() }
    }
}

impl<'a> Default for Scope<'a> {
    /// A scope with no bindings and no scope around it.
    fn default() -> (scope: Scope<'a>)
        ensures
            scope@ == seq![Bindings::empty()],
    {
        Scope { parent: None, local: StringHashMap::new() }
    }
}

} // verus!
