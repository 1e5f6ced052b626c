//! The bindings that every program starts with.

use crate::ast::Ident;
use crate::resolution::{resolve, Bindings};
use crate::runtime::{Builtin, Value};
use crate::scope::Scope;
use vstd::prelude::*;

verus! {

/// The built-in bindings, by spelling.
pub open spec fn builtin_bindings() -> Bindings {
    map![
        "print"@ => Value::Builtin(Builtin::Print),
        "println"@ => Value::Builtin(Builtin::Println),
        "len"@ => Value::Builtin(Builtin::Len),
    ]
}

/// The chain of the root scope: the built-ins and nothing around them.
pub open spec fn root_chain() -> Seq<Bindings> {
    seq![builtin_bindings()]
}

/// Binds every built-in in `scope` itself, except those whose name `scope`
/// already binds itself: a binding that is there stays as it is.
pub fn attach_builtins(scope: &mut Scope<'_>)
    ensures
        final(scope)@ == old(scope)@.update(
            0,
            builtin_bindings().union_prefer_right(old(scope)@[0]),
        ),
{
    proof {
        scope.lemma_chain_nonempty();
        lemma_builtin_names_differ();
    }
    let _ = scope.set(Ident::new("print"), Value::Builtin(Builtin::Print));
    let _ = scope.set(Ident::new("println"), Value::Builtin(Builtin::Println));
    let _ = scope.set(Ident::new("len"), Value::Builtin(Builtin::Len));
    assert(scope@[0] =~= builtin_bindings().union_prefer_right(old(scope)@[0]));
}

/// No two built-ins share a name.
pub proof fn lemma_builtin_names_differ()
    ensures
        "print"@ != "println"@,
        "print"@ != "len"@,
        "println"@ != "len"@,
{
    reveal_strlit("print");
    reveal_strlit("println");
    reveal_strlit("len");
    assert("print"@.len() == 5);
    assert("println"@.len() == 7);
    assert("len"@.len() == 3);
}

/// The root scope resolves every built-in name to its built-in.
pub proof fn lemma_root_resolves_builtins(name: Seq<char>)
    requires
        builtin_bindings().contains_key(name),
    ensures
        resolve(root_chain(), name) == Some(builtin_bindings()[name]),
{
}

} // verus!
