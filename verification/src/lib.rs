//! The variable-binding environment of the miniscript interpreter.
//!
//! A [`scope::Scope`] owns the bindings of one lexical region and refers to the
//! scope around it. Lookups walk outwards from the innermost scope; bindings
//! are only ever added to the innermost one. The mathematical model of such a
//! chain, and what holds of it, is in [`resolution`].

pub mod ast;
pub mod builtins;
pub mod error;
pub mod resolution;
pub mod runtime;
pub mod scope;
