//! The semantic verification and binding core of a language compiler: the
//! layer between parsing and code generation that binds syntax nodes to
//! symbols and checks language-level conformance rules.
//!
//! Four components make it up. The diagnostic ledger
//! ([`compilation_unit`]) accumulates each translation unit's errors and
//! warnings and tracks whether the unit is still usable. The attribute and
//! metadata evaluator ([`attributes`], [`metadata`]) turns raw modifier
//! and annotation syntax into resolved, typed values, reporting failures
//! into the ledger. The syntax-to-symbol binding store
//! ([`tree_semantics`]) maps syntax-node identities to optional resolved
//! symbols, one partition per unit. The interface-conformance verifier
//! ([`interface_implementations`]) checks that a type satisfies every
//! member an interface and its ancestors require, deferring rather than
//! misreporting while the type graph is still converging.
//!
//! Lexing, parsing, the symbol system's internals and code generation are
//! external collaborators: the library addresses their data through plain
//! handles and tables, and states what it computes from them.

use vstd::prelude::*;

pub mod attributes;
pub mod compilation_unit;
pub mod diagnostics;
pub mod interface_implementations;
pub mod location;
pub mod metadata;
pub mod symbols;
pub mod tree;
pub mod tree_semantics;

verus! {

/// One of the four member visibility levels of the language.
#[derive(Clone, Copy, PartialEq, Eq, Structural, Debug)]
pub enum Visibility {
    Public,
    Private,
    Protected,
    Internal,
}

} // verus!
