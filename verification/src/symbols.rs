use vstd::prelude::*;
use crate::Visibility;

verus! {

/// Handle of a semantic symbol.
///
/// The symbol/type system is an external collaborator of this library: it
/// owns the actual symbol data, and this library addresses a symbol by a
/// stable index into a [`SymbolHost`] table. Two handles denote the same
/// symbol exactly when they are equal.
#[derive(Clone, Copy, PartialEq, Eq, Structural, Hash, Debug)]
pub struct Symbol {
    /// Index of the symbol's record in the owning host.
    pub id: usize,
}

/// What this library reads of one symbol of the external symbol/type system.
///
/// Only the classification and lookup results the conformance verifier
/// consults are kept here; the full internal representation of types stays
/// with the external system.
#[derive(Clone, Debug)]
pub struct SymbolRecord {
    /// The symbol's parent scope, if any.
    pub parent: Option<Symbol>,
    /// Whether the symbol is a package scope.
    pub is_package: bool,
    /// Whether the symbol has been resolved; an unresolved symbol defers
    /// conformance checking.
    pub resolved: bool,
    /// The symbol's declared visibility.
    pub visibility: Visibility,
    /// Whether the symbol is a virtual property (a getter/setter pair).
    pub is_virtual_property: bool,
    /// Whether the symbol is a method.
    pub is_method: bool,
    /// Whether the symbol is an interface method an implementor may omit.
    pub is_optional_interface_method: bool,
    /// The getter of a virtual property, if defined.
    pub getter: Option<Symbol>,
    /// The setter of a virtual property, if defined.
    pub setter: Option<Symbol>,
    /// The symbol's signature.
    pub signature: Symbol,
    /// For an interface: all interfaces it transitively extends,
    /// ancestors first.
    pub ascending_types: Vec<Symbol>,
    /// The symbol's prototype: its named members, in declaration order.
    pub prototype: Vec<(String, Symbol)>,
}

/// The symbol table consulted during conformance verification: one record
/// per symbol handle.
#[derive(Clone, Debug)]
pub struct SymbolHost {
    /// The records, indexed by [`Symbol::id`].
    pub symbols: Vec<SymbolRecord>,
}

impl SymbolHost {
    /// Whether a handle points into this host.
    pub open spec fn valid(&self, s: Symbol) -> bool {
        s.id < self.symbols@.len()
    }

    /// The record of a symbol.
    pub open spec fn rec(&self, s: Symbol) -> SymbolRecord {
        self.symbols@[s.id as int]
    }

    /// Every handle a record mentions points back into the table, so that
    /// lookups through the table never dangle.
    pub open spec fn wf(&self) -> bool {
        forall|i: int| 0 <= i < self.symbols@.len() ==> {
            let r = #[trigger] self.symbols@[i];
            &&& (r.parent is Some ==> self.valid(r.parent->0))
            &&& (r.getter is Some ==> self.valid(r.getter->0))
            &&& (r.setter is Some ==> self.valid(r.setter->0))
            &&& self.valid(r.signature)
            &&& (forall|j: int|
                0 <= j < r.ascending_types@.len() ==> self.valid(
                    #[trigger] r.ascending_types@[j],
                ))
            &&& (forall|j: int|
                0 <= j < r.prototype@.len() ==> self.valid(#[trigger] r.prototype@[j].1))
        }
    }
}

} // verus!
