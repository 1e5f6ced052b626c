//! The model of a scope chain and what holds of name resolution in it.
//!
//! A chain is a sequence of binding maps, innermost scope first. The
//! executable [`crate::scope::Scope`] is specified against the functions here.

use crate::runtime::Value;
use vstd::prelude::*;

verus! {

/// The bindings that one scope owns, from an identifier's spelling to its value.
pub type Bindings = Map<Seq<char>, Value>;

/// The value that `key` resolves to in `chain`: the binding of the first scope,
/// counted from the innermost, that has one.
pub open spec fn resolve(chain: Seq<Bindings>, key: Seq<char>) -> Option<Value>
    decreases chain.len(),
{
    if chain.len() == 0 {
        None
    } else if chain[0].contains_key(key) {
        Some(chain[0][key])
    } else {
        resolve(chain.drop_first(), key)
    }
}

/// The chain after its innermost scope has bound `key` to `value`.
pub open spec fn declare(chain: Seq<Bindings>, key: Seq<char>, value: Value) -> Seq<Bindings>
    recommends
        chain.len() > 0,
{
    chain.update(0, chain[0].insert(key, value))
}

/// The chain of a fresh scope nested in the scope whose chain is `chain`.
pub open spec fn nested(chain: Seq<Bindings>) -> Seq<Bindings> {
    seq![Map::empty()] + chain
}

/// Whether the scope at `depth` is the innermost one of `chain` that binds `key`.
pub open spec fn first_binding_at(chain: Seq<Bindings>, key: Seq<char>, depth: int) -> bool {
    &&& 0 <= depth < chain.len()
    &&& chain[depth].contains_key(key)
    &&& forall|i: int| 0 <= i < depth ==> !(#[trigger] chain[i]).contains_key(key)
}

/// Lookup goes from the innermost scope outwards and stops at the first scope
/// that binds the name.
pub proof fn lemma_first_binding_wins(chain: Seq<Bindings>, key: Seq<char>, depth: int)
    requires
        first_binding_at(chain, key, depth),
    ensures
        resolve(chain, key) == Some(chain[depth][key]),
    decreases depth,
{
    if depth > 0 {
        let rest = chain.drop_first();
        assert forall|i: int| 0 <= i < depth - 1 implies !(#[trigger] rest[i]).contains_key(key) by {
            assert(rest[i] == chain[i + 1]);
        }
        lemma_first_binding_wins(rest, key, depth - 1);
    }
}

/// A name resolves to nothing exactly when no scope of the chain binds it.
pub proof fn lemma_unbound_is_absent(chain: Seq<Bindings>, key: Seq<char>)
    ensures
        resolve(chain, key) is None <==> forall|i: int|
            0 <= i < chain.len() ==> !(#[trigger] chain[i]).contains_key(key),
    decreases chain.len(),
{
    if chain.len() > 0 {
        let rest = chain.drop_first();
        lemma_unbound_is_absent(rest, key);
        if !chain[0].contains_key(key) {
            if resolve(rest, key) is None {
                assert forall|i: int| 0 <= i < chain.len() implies !(#[trigger] chain[i]).contains_key(
                    key,
                ) by {
                    if i > 0 {
                        assert(chain[i] == rest[i - 1]);
                    }
                }
            } else {
                let j = choose|j: int| 0 <= j < rest.len() && (#[trigger] rest[j]).contains_key(key);
                assert(chain[j + 1] == rest[j]);
            }
        }
    }
}

/// Once the innermost scope has bound a name to a value, the name resolves to
/// that value.
pub proof fn lemma_declared_resolves(chain: Seq<Bindings>, key: Seq<char>, value: Value)
    requires
        chain.len() > 0,
    ensures
        resolve(declare(chain, key, value), key) == Some(value),
{
}

/// Binding one name changes what no other name resolves to.
pub proof fn lemma_declare_keeps_others(
    chain: Seq<Bindings>,
    key: Seq<char>,
    value: Value,
    other: Seq<char>,
)
    requires
        chain.len() > 0,
        other != key,
    ensures
        resolve(declare(chain, key, value), other) == resolve(chain, other),
{
    assert(declare(chain, key, value).drop_first() == chain.drop_first());
}

/// Binding a name touches the innermost scope only: the enclosing scopes are
/// what they were.
pub proof fn lemma_declare_keeps_enclosing(chain: Seq<Bindings>, key: Seq<char>, value: Value)
    requires
        chain.len() > 0,
    ensures
        declare(chain, key, value).drop_first() == chain.drop_first(),
        declare(chain, key, value).len() == chain.len(),
{
}

/// A fresh nested scope binds nothing itself and resolves every name as the
/// scope around it does.
pub proof fn lemma_nested_inherits(chain: Seq<Bindings>, key: Seq<char>)
    ensures
        !nested(chain)[0].contains_key(key),
        nested(chain).drop_first() == chain,
        resolve(nested(chain), key) == resolve(chain, key),
{
    assert(nested(chain).drop_first() == chain);
}

/// Shadowing: where the enclosing scope resolves `key` to `outer_value`, a
/// nested scope first inherits that, then, having bound `key` to `inner_value`
/// itself, resolves it to `inner_value`, while the enclosing chain still
/// resolves it to `outer_value`.
pub proof fn lemma_shadowing(
    chain: Seq<Bindings>,
    key: Seq<char>,
    outer_value: Value,
    inner_value: Value,
)
    requires
        resolve(chain, key) == Some(outer_value),
    ensures
        resolve(nested(chain), key) == Some(outer_value),
        !nested(chain)[0].contains_key(key),
        resolve(declare(nested(chain), key, inner_value), key) == Some(inner_value),
        declare(nested(chain), key, inner_value).drop_first() == chain,
        resolve(declare(nested(chain), key, inner_value).drop_first(), key) == Some(outer_value),
{
    lemma_nested_inherits(chain, key);
    assert(declare(nested(chain), key, inner_value).drop_first() == chain);
}

} // verus!
