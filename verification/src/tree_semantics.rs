use vstd::prelude::*;
use vstd::hash_map::HashMapWithView;
use crate::symbols::Symbol;
use crate::tree::{
    BlockNode, DirectiveNode, ExpressionNode, FunctionCommonNode, ProgramNode,
    SimpleVariableDefinitionNode,
};

verus! {

broadcast use vstd::std_specs::hash::group_hash_axioms;

/// The symbol a binding entry reports: a node that is unbound and a node
/// explicitly bound to no symbol both report nothing.
pub open spec fn flatten_binding(b: Option<Option<Symbol>>) -> Option<Symbol> {
    match b {
        Some(Some(s)) => Some(s),
        _ => None,
    }
}

/// The bindings of one translation unit: one partition per syntax-node
/// family, keyed by node handle.
struct TreeSemantics1 {
    expressions: HashMapWithView<u64, Option<Symbol>>,
    directives: HashMapWithView<u64, Option<Symbol>>,
    simple_variable_definitions: HashMapWithView<u64, Option<Symbol>>,
    blocks: HashMapWithView<u64, Option<Symbol>>,
    programs: HashMapWithView<u64, Option<Symbol>>,
    function_commons: HashMapWithView<u64, Option<Symbol>>,
}

impl TreeSemantics1 {
    /// A unit partition with no bindings.
    fn new() -> (r: Self)
        ensures
            r.expressions@ == Map::<u64, Option<Symbol>>::empty(),
            r.directives@ == Map::<u64, Option<Symbol>>::empty(),
            r.simple_variable_definitions@ == Map::<u64, Option<Symbol>>::empty(),
            r.blocks@ == Map::<u64, Option<Symbol>>::empty(),
            r.programs@ == Map::<u64, Option<Symbol>>::empty(),
            r.function_commons@ == Map::<u64, Option<Symbol>>::empty(),
    {
        TreeSemantics1 {
            expressions: HashMapWithView::new(),
            directives: HashMapWithView::new(),
            simple_variable_definitions: HashMapWithView::new(),
            blocks: HashMapWithView::new(),
            programs: HashMapWithView::new(),
            function_commons: HashMapWithView::new(),
        }
    }
}

/// Structure that assigns semantic symbols to syntactic nodes.
///
/// Bindings are grouped by translation unit, so that discarding a unit can
/// drop its whole partition at once; within a unit each syntax-node family
/// has its own independent namespace. One verification pass owns the store
/// at a time and mutates it through `&mut self`.
///
/// One spec view per family names what each partition holds; the mutators
/// of every family state, over these views, that the five other families'
/// partitions are left exactly as they were.
pub struct TreeSemantics {
    units: HashMapWithView<u64, TreeSemantics1>,
}

impl TreeSemantics {
    /// The stored binding entry of the expressions partition
    /// of a unit at a node handle, or `None` when there is none.
    pub closed spec fn expression_binding(&self, unit: u64, id: u64) -> Option<Option<Symbol>> {
        if self.units@.contains_key(unit) && self.units@[unit].expressions@.contains_key(id) {
            Some(self.units@[unit].expressions@[id])
        } else {
            None
        }
    }

    /// The stored binding entry of the directives partition
    /// of a unit at a node handle, or `None` when there is none.
    pub closed spec fn directive_binding(&self, unit: u64, id: u64) -> Option<Option<Symbol>> {
        if self.units@.contains_key(unit) && self.units@[unit].directives@.contains_key(id) {
            Some(self.units@[unit].directives@[id])
        } else {
            None
        }
    }

    /// The stored binding entry of the simple-variable-definitions partition
    /// of a unit at a node handle, or `None` when there is none.
    pub closed spec fn simple_variable_definition_binding(&self, unit: u64, id: u64) -> Option<Option<Symbol>> {
        if self.units@.contains_key(unit) && self.units@[unit].simple_variable_definitions@.contains_key(id) {
            Some(self.units@[unit].simple_variable_definitions@[id])
        } else {
            None
        }
    }

    /// The stored binding entry of the blocks partition
    /// of a unit at a node handle, or `None` when there is none.
    pub closed spec fn block_binding(&self, unit: u64, id: u64) -> Option<Option<Symbol>> {
        if self.units@.contains_key(unit) && self.units@[unit].blocks@.contains_key(id) {
            Some(self.units@[unit].blocks@[id])
        } else {
            None
        }
    }

    /// The stored binding entry of the programs partition
    /// of a unit at a node handle, or `None` when there is none.
    pub closed spec fn program_binding(&self, unit: u64, id: u64) -> Option<Option<Symbol>> {
        if self.units@.contains_key(unit) && self.units@[unit].programs@.contains_key(id) {
            Some(self.units@[unit].programs@[id])
        } else {
            None
        }
    }

    /// The stored binding entry of the function-commons partition
    /// of a unit at a node handle, or `None` when there is none.
    pub closed spec fn function_common_binding(&self, unit: u64, id: u64) -> Option<Option<Symbol>> {
        if self.units@.contains_key(unit) && self.units@[unit].function_commons@.contains_key(id) {
            Some(self.units@[unit].function_commons@[id])
        } else {
            None
        }
    }

    /// An empty binding store.
    pub fn new() -> (r: Self)
        ensures
            forall|u: u64, i: u64| #[trigger] r.expression_binding(u, i) is None,
            forall|u: u64, i: u64| #[trigger] r.directive_binding(u, i) is None,
            forall|u: u64, i: u64| #[trigger] r.simple_variable_definition_binding(u, i) is None,
            forall|u: u64, i: u64| #[trigger] r.block_binding(u, i) is None,
            forall|u: u64, i: u64| #[trigger] r.program_binding(u, i) is None,
            forall|u: u64, i: u64| #[trigger] r.function_common_binding(u, i) is None,
    {
        TreeSemantics { units: HashMapWithView::new() }
    }
}

/// Uniform access to the binding store, one instantiation per syntax-node
/// family.
///
/// Binding a node to `None` is a legal, explicit state recording that the
/// node was checked and has no meaningful symbol; a lookup reports it the
/// same way as an unbound node, so `get` collapses both to nothing.
///
/// The contracts here speak of nodes of one family; each implementation
/// additionally promises that `set` and `delete` leave the partitions of
/// the five other families untouched, stated over the per-family views of
/// [`TreeSemantics`].
pub trait TreeSemanticsAccessor<T> {
    /// The stored binding entry of a node, or `None` when the node has
    /// none.
    spec fn binding(&self, node: T) -> Option<Option<Symbol>>;

    /// The symbol the node resolves to, if one is bound.
    fn get(&self, node: &T) -> (r: Option<Symbol>)
        ensures
            r == flatten_binding(self.binding(*node)),
    ;

    /// Binds the node to an optional symbol, replacing any earlier
    /// binding; every other node of this family, in every unit, keeps its
    /// binding.
    fn set(&mut self, node: &T, symbol: Option<Symbol>)
        ensures
            final(self).binding(*node) == Some(symbol),
            forall|other: T| other != *node ==> #[trigger] final(self).binding(other) == old(
                self,
            ).binding(other),
    ;

    /// Unbinds the node, reporting whether an entry was present; every
    /// other node of this family, in every unit, keeps its binding.
    fn delete(&mut self, node: &T) -> (r: bool)
        ensures
            r == (old(self).binding(*node) is Some),
            final(self).binding(*node) is None,
            forall|other: T| other != *node ==> #[trigger] final(self).binding(other) == old(
                self,
            ).binding(other),
    ;

    /// Whether the node resolves to a symbol.
    fn has(&self, node: &T) -> (r: bool)
        ensures
            r == (flatten_binding(self.binding(*node)) is Some),
    {
        self.get(node).is_some()
    }
}

impl TreeSemanticsAccessor<ExpressionNode> for TreeSemantics {
    open spec fn binding(&self, node: ExpressionNode) -> Option<Option<Symbol>> {
        self.expression_binding(node.compilation_unit, node.id)
    }

    fn get(&self, node: &ExpressionNode) -> (r: Option<Symbol>) {
        match self.units.get(&node.compilation_unit) {
            Some(m1) => match m1.expressions.get(&node.id) {
                Some(entry) => *entry,
                None => None,
            },
            None => None,
        }
    }

    fn set(&mut self, node: &ExpressionNode, symbol: Option<Symbol>)
        ensures
            forall|u: u64, i: u64|
                #[trigger] final(self).directive_binding(u, i) == old(self).directive_binding(u, i),
            forall|u: u64, i: u64|
                #[trigger] final(self).simple_variable_definition_binding(u, i) == old(self).simple_variable_definition_binding(u, i),
            forall|u: u64, i: u64|
                #[trigger] final(self).block_binding(u, i) == old(self).block_binding(u, i),
            forall|u: u64, i: u64|
                #[trigger] final(self).program_binding(u, i) == old(self).program_binding(u, i),
            forall|u: u64, i: u64|
                #[trigger] final(self).function_common_binding(u, i) == old(self).function_common_binding(u, i),
    {
        let mut m1 = match self.units.remove(&node.compilation_unit) {
            Some(m) => m,
            None => TreeSemantics1::new(),
        };
        m1.expressions.insert(node.id, symbol);
        self.units.insert(node.compilation_unit, m1);
        proof {
            assert forall|other: ExpressionNode| other != *node implies #[trigger] self.binding(other)
                == old(self).binding(other) by {
                if other.compilation_unit == node.compilation_unit {
                    assert(other.id != node.id);
                }
            }
            assert forall|u: u64, i: u64|
                #[trigger] self.directive_binding(u, i) == old(self).directive_binding(u, i) by {}
            assert forall|u: u64, i: u64|
                #[trigger] self.simple_variable_definition_binding(u, i) == old(self).simple_variable_definition_binding(u, i) by {}
            assert forall|u: u64, i: u64|
                #[trigger] self.block_binding(u, i) == old(self).block_binding(u, i) by {}
            assert forall|u: u64, i: u64|
                #[trigger] self.program_binding(u, i) == old(self).program_binding(u, i) by {}
            assert forall|u: u64, i: u64|
                #[trigger] self.function_common_binding(u, i) == old(self).function_common_binding(u, i) by {}
        }
    }

    fn delete(&mut self, node: &ExpressionNode) -> (r: bool)
        ensures
            forall|u: u64, i: u64|
                #[trigger] final(self).directive_binding(u, i) == old(self).directive_binding(u, i),
            forall|u: u64, i: u64|
                #[trigger] final(self).simple_variable_definition_binding(u, i) == old(self).simple_variable_definition_binding(u, i),
            forall|u: u64, i: u64|
                #[trigger] final(self).block_binding(u, i) == old(self).block_binding(u, i),
            forall|u: u64, i: u64|
                #[trigger] final(self).program_binding(u, i) == old(self).program_binding(u, i),
            forall|u: u64, i: u64|
                #[trigger] final(self).function_common_binding(u, i) == old(self).function_common_binding(u, i),
    {
        match self.units.remove(&node.compilation_unit) {
            Some(m) => {
                let mut m1 = m;
                let out = m1.expressions.remove(&node.id);
                self.units.insert(node.compilation_unit, m1);
                proof {
                    assert forall|other: ExpressionNode| other != *node implies #[trigger] self.binding(other)
                        == old(self).binding(other) by {
                        if other.compilation_unit == node.compilation_unit {
                            assert(other.id != node.id);
                        }
                    }
            assert forall|u: u64, i: u64|
                #[trigger] self.directive_binding(u, i) == old(self).directive_binding(u, i) by {}
            assert forall|u: u64, i: u64|
                #[trigger] self.simple_variable_definition_binding(u, i) == old(self).simple_variable_definition_binding(u, i) by {}
            assert forall|u: u64, i: u64|
                #[trigger] self.block_binding(u, i) == old(self).block_binding(u, i) by {}
            assert forall|u: u64, i: u64|
                #[trigger] self.program_binding(u, i) == old(self).program_binding(u, i) by {}
            assert forall|u: u64, i: u64|
                #[trigger] self.function_common_binding(u, i) == old(self).function_common_binding(u, i) by {}
                }
                out.is_some()
            },
            None => false,
        }
    }
}

impl TreeSemanticsAccessor<DirectiveNode> for TreeSemantics {
    open spec fn binding(&self, node: DirectiveNode) -> Option<Option<Symbol>> {
        self.directive_binding(node.compilation_unit, node.id)
    }

    fn get(&self, node: &DirectiveNode) -> (r: Option<Symbol>) {
        match self.units.get(&node.compilation_unit) {
            Some(m1) => match m1.directives.get(&node.id) {
                Some(entry) => *entry,
                None => None,
            },
            None => None,
        }
    }

    fn set(&mut self, node: &DirectiveNode, symbol: Option<Symbol>)
        ensures
            forall|u: u64, i: u64|
                #[trigger] final(self).expression_binding(u, i) == old(self).expression_binding(u, i),
            forall|u: u64, i: u64|
                #[trigger] final(self).simple_variable_definition_binding(u, i) == old(self).simple_variable_definition_binding(u, i),
            forall|u: u64, i: u64|
                #[trigger] final(self).block_binding(u, i) == old(self).block_binding(u, i),
            forall|u: u64, i: u64|
                #[trigger] final(self).program_binding(u, i) == old(self).program_binding(u, i),
            forall|u: u64, i: u64|
                #[trigger] final(self).function_common_binding(u, i) == old(self).function_common_binding(u, i),
    {
        let mut m1 = match self.units.remove(&node.compilation_unit) {
            Some(m) => m,
            None => TreeSemantics1::new(),
        };
        m1.directives.insert(node.id, symbol);
        self.units.insert(node.compilation_unit, m1);
        proof {
            assert forall|other: DirectiveNode| other != *node implies #[trigger] self.binding(other)
                == old(self).binding(other) by {
                if other.compilation_unit == node.compilation_unit {
                    assert(other.id != node.id);
                }
            }
            assert forall|u: u64, i: u64|
                #[trigger] self.expression_binding(u, i) == old(self).expression_binding(u, i) by {}
            assert forall|u: u64, i: u64|
                #[trigger] self.simple_variable_definition_binding(u, i) == old(self).simple_variable_definition_binding(u, i) by {}
            assert forall|u: u64, i: u64|
                #[trigger] self.block_binding(u, i) == old(self).block_binding(u, i) by {}
            assert forall|u: u64, i: u64|
                #[trigger] self.program_binding(u, i) == old(self).program_binding(u, i) by {}
            assert forall|u: u64, i: u64|
                #[trigger] self.function_common_binding(u, i) == old(self).function_common_binding(u, i) by {}
        }
    }

    fn delete(&mut self, node: &DirectiveNode) -> (r: bool)
        ensures
            forall|u: u64, i: u64|
                #[trigger] final(self).expression_binding(u, i) == old(self).expression_binding(u, i),
            forall|u: u64, i: u64|
                #[trigger] final(self).simple_variable_definition_binding(u, i) == old(self).simple_variable_definition_binding(u, i),
            forall|u: u64, i: u64|
                #[trigger] final(self).block_binding(u, i) == old(self).block_binding(u, i),
            forall|u: u64, i: u64|
                #[trigger] final(self).program_binding(u, i) == old(self).program_binding(u, i),
            forall|u: u64, i: u64|
                #[trigger] final(self).function_common_binding(u, i) == old(self).function_common_binding(u, i),
    {
        match self.units.remove(&node.compilation_unit) {
            Some(m) => {
                let mut m1 = m;
                let out = m1.directives.remove(&node.id);
                self.units.insert(node.compilation_unit, m1);
                proof {
                    assert forall|other: DirectiveNode| other != *node implies #[trigger] self.binding(other)
                        == old(self).binding(other) by {
                        if other.compilation_unit == node.compilation_unit {
                            assert(other.id != node.id);
                        }
                    }
            assert forall|u: u64, i: u64|
                #[trigger] self.expression_binding(u, i) == old(self).expression_binding(u, i) by {}
            assert forall|u: u64, i: u64|
                #[trigger] self.simple_variable_definition_binding(u, i) == old(self).simple_variable_definition_binding(u, i) by {}
            assert forall|u: u64, i: u64|
                #[trigger] self.block_binding(u, i) == old(self).block_binding(u, i) by {}
            assert forall|u: u64, i: u64|
                #[trigger] self.program_binding(u, i) == old(self).program_binding(u, i) by {}
            assert forall|u: u64, i: u64|
                #[trigger] self.function_common_binding(u, i) == old(self).function_common_binding(u, i) by {}
                }
                out.is_some()
            },
            None => false,
        }
    }
}

impl TreeSemanticsAccessor<SimpleVariableDefinitionNode> for TreeSemantics {
    open spec fn binding(&self, node: SimpleVariableDefinitionNode) -> Option<Option<Symbol>> {
        self.simple_variable_definition_binding(node.compilation_unit, node.id)
    }

    fn get(&self, node: &SimpleVariableDefinitionNode) -> (r: Option<Symbol>) {
        match self.units.get(&node.compilation_unit) {
            Some(m1) => match m1.simple_variable_definitions.get(&node.id) {
                Some(entry) => *entry,
                None => None,
            },
            None => None,
        }
    }

    fn set(&mut self, node: &SimpleVariableDefinitionNode, symbol: Option<Symbol>)
        ensures
            forall|u: u64, i: u64|
                #[trigger] final(self).expression_binding(u, i) == old(self).expression_binding(u, i),
            forall|u: u64, i: u64|
                #[trigger] final(self).directive_binding(u, i) == old(self).directive_binding(u, i),
            forall|u: u64, i: u64|
                #[trigger] final(self).block_binding(u, i) == old(self).block_binding(u, i),
            forall|u: u64, i: u64|
                #[trigger] final(self).program_binding(u, i) == old(self).program_binding(u, i),
            forall|u: u64, i: u64|
                #[trigger] final(self).function_common_binding(u, i) == old(self).function_common_binding(u, i),
    {
        let mut m1 = match self.units.remove(&node.compilation_unit) {
            Some(m) => m,
            None => TreeSemantics1::new(),
        };
        m1.simple_variable_definitions.insert(node.id, symbol);
        self.units.insert(node.compilation_unit, m1);
        proof {
            assert forall|other: SimpleVariableDefinitionNode| other != *node implies #[trigger] self.binding(other)
                == old(self).binding(other) by {
                if other.compilation_unit == node.compilation_unit {
                    assert(other.id != node.id);
                }
            }
            assert forall|u: u64, i: u64|
                #[trigger] self.expression_binding(u, i) == old(self).expression_binding(u, i) by {}
            assert forall|u: u64, i: u64|
                #[trigger] self.directive_binding(u, i) == old(self).directive_binding(u, i) by {}
            assert forall|u: u64, i: u64|
                #[trigger] self.block_binding(u, i) == old(self).block_binding(u, i) by {}
            assert forall|u: u64, i: u64|
                #[trigger] self.program_binding(u, i) == old(self).program_binding(u, i) by {}
            assert forall|u: u64, i: u64|
                #[trigger] self.function_common_binding(u, i) == old(self).function_common_binding(u, i) by {}
        }
    }

    fn delete(&mut self, node: &SimpleVariableDefinitionNode) -> (r: bool)
        ensures
            forall|u: u64, i: u64|
                #[trigger] final(self).expression_binding(u, i) == old(self).expression_binding(u, i),
            forall|u: u64, i: u64|
                #[trigger] final(self).directive_binding(u, i) == old(self).directive_binding(u, i),
            forall|u: u64, i: u64|
                #[trigger] final(self).block_binding(u, i) == old(self).block_binding(u, i),
            forall|u: u64, i: u64|
                #[trigger] final(self).program_binding(u, i) == old(self).program_binding(u, i),
            forall|u: u64, i: u64|
                #[trigger] final(self).function_common_binding(u, i) == old(self).function_common_binding(u, i),
    {
        match self.units.remove(&node.compilation_unit) {
            Some(m) => {
                let mut m1 = m;
                let out = m1.simple_variable_definitions.remove(&node.id);
                self.units.insert(node.compilation_unit, m1);
                proof {
                    assert forall|other: SimpleVariableDefinitionNode| other != *node implies #[trigger] self.binding(other)
                        == old(self).binding(other) by {
                        if other.compilation_unit == node.compilation_unit {
                            assert(other.id != node.id);
                        }
                    }
            assert forall|u: u64, i: u64|
                #[trigger] self.expression_binding(u, i) == old(self).expression_binding(u, i) by {}
            assert forall|u: u64, i: u64|
                #[trigger] self.directive_binding(u, i) == old(self).directive_binding(u, i) by {}
            assert forall|u: u64, i: u64|
                #[trigger] self.block_binding(u, i) == old(self).block_binding(u, i) by {}
            assert forall|u: u64, i: u64|
                #[trigger] self.program_binding(u, i) == old(self).program_binding(u, i) by {}
            assert forall|u: u64, i: u64|
                #[trigger] self.function_common_binding(u, i) == old(self).function_common_binding(u, i) by {}
                }
                out.is_some()
            },
            None => false,
        }
    }
}

impl TreeSemanticsAccessor<BlockNode> for TreeSemantics {
    open spec fn binding(&self, node: BlockNode) -> Option<Option<Symbol>> {
        self.block_binding(node.compilation_unit, node.id)
    }

    fn get(&self, node: &BlockNode) -> (r: Option<Symbol>) {
        match self.units.get(&node.compilation_unit) {
            Some(m1) => match m1.blocks.get(&node.id) {
                Some(entry) => *entry,
                None => None,
            },
            None => None,
        }
    }

    fn set(&mut self, node: &BlockNode, symbol: Option<Symbol>)
        ensures
            forall|u: u64, i: u64|
                #[trigger] final(self).expression_binding(u, i) == old(self).expression_binding(u, i),
            forall|u: u64, i: u64|
                #[trigger] final(self).directive_binding(u, i) == old(self).directive_binding(u, i),
            forall|u: u64, i: u64|
                #[trigger] final(self).simple_variable_definition_binding(u, i) == old(self).simple_variable_definition_binding(u, i),
            forall|u: u64, i: u64|
                #[trigger] final(self).program_binding(u, i) == old(self).program_binding(u, i),
            forall|u: u64, i: u64|
                #[trigger] final(self).function_common_binding(u, i) == old(self).function_common_binding(u, i),
    {
        let mut m1 = match self.units.remove(&node.compilation_unit) {
            Some(m) => m,
            None => TreeSemantics1::new(),
        };
        m1.blocks.insert(node.id, symbol);
        self.units.insert(node.compilation_unit, m1);
        proof {
            assert forall|other: BlockNode| other != *node implies #[trigger] self.binding(other)
                == old(self).binding(other) by {
                if other.compilation_unit == node.compilation_unit {
                    assert(other.id != node.id);
                }
            }
            assert forall|u: u64, i: u64|
                #[trigger] self.expression_binding(u, i) == old(self).expression_binding(u, i) by {}
            assert forall|u: u64, i: u64|
                #[trigger] self.directive_binding(u, i) == old(self).directive_binding(u, i) by {}
            assert forall|u: u64, i: u64|
                #[trigger] self.simple_variable_definition_binding(u, i) == old(self).simple_variable_definition_binding(u, i) by {}
            assert forall|u: u64, i: u64|
                #[trigger] self.program_binding(u, i) == old(self).program_binding(u, i) by {}
            assert forall|u: u64, i: u64|
                #[trigger] self.function_common_binding(u, i) == old(self).function_common_binding(u, i) by {}
        }
    }

    fn delete(&mut self, node: &BlockNode) -> (r: bool)
        ensures
            forall|u: u64, i: u64|
                #[trigger] final(self).expression_binding(u, i) == old(self).expression_binding(u, i),
            forall|u: u64, i: u64|
                #[trigger] final(self).directive_binding(u, i) == old(self).directive_binding(u, i),
            forall|u: u64, i: u64|
                #[trigger] final(self).simple_variable_definition_binding(u, i) == old(self).simple_variable_definition_binding(u, i),
            forall|u: u64, i: u64|
                #[trigger] final(self).program_binding(u, i) == old(self).program_binding(u, i),
            forall|u: u64, i: u64|
                #[trigger] final(self).function_common_binding(u, i) == old(self).function_common_binding(u, i),
    {
        match self.units.remove(&node.compilation_unit) {
            Some(m) => {
                let mut m1 = m;
                let out = m1.blocks.remove(&node.id);
                self.units.insert(node.compilation_unit, m1);
                proof {
                    assert forall|other: BlockNode| other != *node implies #[trigger] self.binding(other)
                        == old(self).binding(other) by {
                        if other.compilation_unit == node.compilation_unit {
                            assert(other.id != node.id);
                        }
                    }
            assert forall|u: u64, i: u64|
                #[trigger] self.expression_binding(u, i) == old(self).expression_binding(u, i) by {}
            assert forall|u: u64, i: u64|
                #[trigger] self.directive_binding(u, i) == old(self).directive_binding(u, i) by {}
            assert forall|u: u64, i: u64|
                #[trigger] self.simple_variable_definition_binding(u, i) == old(self).simple_variable_definition_binding(u, i) by {}
            assert forall|u: u64, i: u64|
                #[trigger] self.program_binding(u, i) == old(self).program_binding(u, i) by {}
            assert forall|u: u64, i: u64|
                #[trigger] self.function_common_binding(u, i) == old(self).function_common_binding(u, i) by {}
                }
                out.is_some()
            },
            None => false,
        }
    }
}

impl TreeSemanticsAccessor<ProgramNode> for TreeSemantics {
    open spec fn binding(&self, node: ProgramNode) -> Option<Option<Symbol>> {
        self.program_binding(node.compilation_unit, node.id)
    }

    fn get(&self, node: &ProgramNode) -> (r: Option<Symbol>) {
        match self.units.get(&node.compilation_unit) {
            Some(m1) => match m1.programs.get(&node.id) {
                Some(entry) => *entry,
                None => None,
            },
            None => None,
        }
    }

    fn set(&mut self, node: &ProgramNode, symbol: Option<Symbol>)
        ensures
            forall|u: u64, i: u64|
                #[trigger] final(self).expression_binding(u, i) == old(self).expression_binding(u, i),
            forall|u: u64, i: u64|
                #[trigger] final(self).directive_binding(u, i) == old(self).directive_binding(u, i),
            forall|u: u64, i: u64|
                #[trigger] final(self).simple_variable_definition_binding(u, i) == old(self).simple_variable_definition_binding(u, i),
            forall|u: u64, i: u64|
                #[trigger] final(self).block_binding(u, i) == old(self).block_binding(u, i),
            forall|u: u64, i: u64|
                #[trigger] final(self).function_common_binding(u, i) == old(self).function_common_binding(u, i),
    {
        let mut m1 = match self.units.remove(&node.compilation_unit) {
            Some(m) => m,
            None => TreeSemantics1::new(),
        };
        m1.programs.insert(node.id, symbol);
        self.units.insert(node.compilation_unit, m1);
        proof {
            assert forall|other: ProgramNode| other != *node implies #[trigger] self.binding(other)
                == old(self).binding(other) by {
                if other.compilation_unit == node.compilation_unit {
                    assert(other.id != node.id);
                }
            }
            assert forall|u: u64, i: u64|
                #[trigger] self.expression_binding(u, i) == old(self).expression_binding(u, i) by {}
            assert forall|u: u64, i: u64|
                #[trigger] self.directive_binding(u, i) == old(self).directive_binding(u, i) by {}
            assert forall|u: u64, i: u64|
                #[trigger] self.simple_variable_definition_binding(u, i) == old(self).simple_variable_definition_binding(u, i) by {}
            assert forall|u: u64, i: u64|
                #[trigger] self.block_binding(u, i) == old(self).block_binding(u, i) by {}
            assert forall|u: u64, i: u64|
                #[trigger] self.function_common_binding(u, i) == old(self).function_common_binding(u, i) by {}
        }
    }

    fn delete(&mut self, node: &ProgramNode) -> (r: bool)
        ensures
            forall|u: u64, i: u64|
                #[trigger] final(self).expression_binding(u, i) == old(self).expression_binding(u, i),
            forall|u: u64, i: u64|
                #[trigger] final(self).directive_binding(u, i) == old(self).directive_binding(u, i),
            forall|u: u64, i: u64|
                #[trigger] final(self).simple_variable_definition_binding(u, i) == old(self).simple_variable_definition_binding(u, i),
            forall|u: u64, i: u64|
                #[trigger] final(self).block_binding(u, i) == old(self).block_binding(u, i),
            forall|u: u64, i: u64|
                #[trigger] final(self).function_common_binding(u, i) == old(self).function_common_binding(u, i),
    {
        match self.units.remove(&node.compilation_unit) {
            Some(m) => {
                let mut m1 = m;
                let out = m1.programs.remove(&node.id);
                self.units.insert(node.compilation_unit, m1);
                proof {
                    assert forall|other: ProgramNode| other != *node implies #[trigger] self.binding(other)
                        == old(self).binding(other) by {
                        if other.compilation_unit == node.compilation_unit {
                            assert(other.id != node.id);
                        }
                    }
            assert forall|u: u64, i: u64|
                #[trigger] self.expression_binding(u, i) == old(self).expression_binding(u, i) by {}
            assert forall|u: u64, i: u64|
                #[trigger] self.directive_binding(u, i) == old(self).directive_binding(u, i) by {}
            assert forall|u: u64, i: u64|
                #[trigger] self.simple_variable_definition_binding(u, i) == old(self).simple_variable_definition_binding(u, i) by {}
            assert forall|u: u64, i: u64|
                #[trigger] self.block_binding(u, i) == old(self).block_binding(u, i) by {}
            assert forall|u: u64, i: u64|
                #[trigger] self.function_common_binding(u, i) == old(self).function_common_binding(u, i) by {}
                }
                out.is_some()
            },
            None => false,
        }
    }
}

impl TreeSemanticsAccessor<FunctionCommonNode> for TreeSemantics {
    open spec fn binding(&self, node: FunctionCommonNode) -> Option<Option<Symbol>> {
        self.function_common_binding(node.compilation_unit, node.id)
    }

    fn get(&self, node: &FunctionCommonNode) -> (r: Option<Symbol>) {
        match self.units.get(&node.compilation_unit) {
            Some(m1) => match m1.function_commons.get(&node.id) {
                Some(entry) => *entry,
                None => None,
            },
            None => None,
        }
    }

    fn set(&mut self, node: &FunctionCommonNode, symbol: Option<Symbol>)
        ensures
            forall|u: u64, i: u64|
                #[trigger] final(self).expression_binding(u, i) == old(self).expression_binding(u, i),
            forall|u: u64, i: u64|
                #[trigger] final(self).directive_binding(u, i) == old(self).directive_binding(u, i),
            forall|u: u64, i: u64|
                #[trigger] final(self).simple_variable_definition_binding(u, i) == old(self).simple_variable_definition_binding(u, i),
            forall|u: u64, i: u64|
                #[trigger] final(self).block_binding(u, i) == old(self).block_binding(u, i),
            forall|u: u64, i: u64|
                #[trigger] final(self).program_binding(u, i) == old(self).program_binding(u, i),
    {
        let mut m1 = match self.units.remove(&node.compilation_unit) {
            Some(m) => m,
            None => TreeSemantics1::new(),
        };
        m1.function_commons.insert(node.id, symbol);
        self.units.insert(node.compilation_unit, m1);
        proof {
            assert forall|other: FunctionCommonNode| other != *node implies #[trigger] self.binding(other)
                == old(self).binding(other) by {
                if other.compilation_unit == node.compilation_unit {
                    assert(other.id != node.id);
                }
            }
            assert forall|u: u64, i: u64|
                #[trigger] self.expression_binding(u, i) == old(self).expression_binding(u, i) by {}
            assert forall|u: u64, i: u64|
                #[trigger] self.directive_binding(u, i) == old(self).directive_binding(u, i) by {}
            assert forall|u: u64, i: u64|
                #[trigger] self.simple_variable_definition_binding(u, i) == old(self).simple_variable_definition_binding(u, i) by {}
            assert forall|u: u64, i: u64|
                #[trigger] self.block_binding(u, i) == old(self).block_binding(u, i) by {}
            assert forall|u: u64, i: u64|
                #[trigger] self.program_binding(u, i) == old(self).program_binding(u, i) by {}
        }
    }

    fn delete(&mut self, node: &FunctionCommonNode) -> (r: bool)
        ensures
            forall|u: u64, i: u64|
                #[trigger] final(self).expression_binding(u, i) == old(self).expression_binding(u, i),
            forall|u: u64, i: u64|
                #[trigger] final(self).directive_binding(u, i) == old(self).directive_binding(u, i),
            forall|u: u64, i: u64|
                #[trigger] final(self).simple_variable_definition_binding(u, i) == old(self).simple_variable_definition_binding(u, i),
            forall|u: u64, i: u64|
                #[trigger] final(self).block_binding(u, i) == old(self).block_binding(u, i),
            forall|u: u64, i: u64|
                #[trigger] final(self).program_binding(u, i) == old(self).program_binding(u, i),
    {
        match self.units.remove(&node.compilation_unit) {
            Some(m) => {
                let mut m1 = m;
                let out = m1.function_commons.remove(&node.id);
                self.units.insert(node.compilation_unit, m1);
                proof {
                    assert forall|other: FunctionCommonNode| other != *node implies #[trigger] self.binding(other)
                        == old(self).binding(other) by {
                        if other.compilation_unit == node.compilation_unit {
                            assert(other.id != node.id);
                        }
                    }
            assert forall|u: u64, i: u64|
                #[trigger] self.expression_binding(u, i) == old(self).expression_binding(u, i) by {}
            assert forall|u: u64, i: u64|
                #[trigger] self.directive_binding(u, i) == old(self).directive_binding(u, i) by {}
            assert forall|u: u64, i: u64|
                #[trigger] self.simple_variable_definition_binding(u, i) == old(self).simple_variable_definition_binding(u, i) by {}
            assert forall|u: u64, i: u64|
                #[trigger] self.block_binding(u, i) == old(self).block_binding(u, i) by {}
            assert forall|u: u64, i: u64|
                #[trigger] self.program_binding(u, i) == old(self).program_binding(u, i) by {}
                }
                out.is_some()
            },
            None => false,
        }
    }
}

} // verus!
