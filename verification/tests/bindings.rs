use jet_semantics::symbols::Symbol;
use jet_semantics::tree::{BlockNode, DirectiveNode, ExpressionNode};
use jet_semantics::tree_semantics::{TreeSemantics, TreeSemanticsAccessor};

fn expr(unit: u64, id: u64) -> ExpressionNode {
    ExpressionNode { compilation_unit: unit, id }
}

#[test]
fn set_then_get_returns_the_symbol() {
    let mut ts = TreeSemantics::new();
    let node = expr(0, 1);
    ts.set(&node, Some(Symbol { id: 42 }));
    assert_eq!(ts.get(&node), Some(Symbol { id: 42 }));
    assert!(ts.has(&node));
}

#[test]
fn delete_then_get_returns_nothing() {
    let mut ts = TreeSemantics::new();
    let node = expr(0, 1);
    ts.set(&node, Some(Symbol { id: 42 }));
    assert!(ts.delete(&node));
    assert_eq!(ts.get(&node), None);
    assert!(!ts.has(&node));
    // a second delete finds nothing to remove
    assert!(!ts.delete(&node));
}

#[test]
fn identical_content_binds_independently() {
    // two distinct node instances: same unit, different identities
    let mut ts = TreeSemantics::new();
    let first = expr(0, 1);
    let second = expr(0, 2);
    ts.set(&first, Some(Symbol { id: 7 }));
    ts.set(&second, Some(Symbol { id: 8 }));
    assert_eq!(ts.get(&first), Some(Symbol { id: 7 }));
    assert_eq!(ts.get(&second), Some(Symbol { id: 8 }));
    assert!(ts.delete(&first));
    assert_eq!(ts.get(&first), None);
    assert_eq!(ts.get(&second), Some(Symbol { id: 8 }));
}

#[test]
fn rebinding_replaces_the_symbol() {
    let mut ts = TreeSemantics::new();
    let node = expr(3, 5);
    ts.set(&node, Some(Symbol { id: 1 }));
    ts.set(&node, Some(Symbol { id: 2 }));
    assert_eq!(ts.get(&node), Some(Symbol { id: 2 }));
}

#[test]
fn binding_to_no_symbol_is_explicit_but_reads_as_none() {
    let mut ts = TreeSemantics::new();
    let node = expr(0, 9);
    ts.set(&node, None);
    assert_eq!(ts.get(&node), None);
    assert!(!ts.has(&node));
    // the entry exists: deleting it reports a removal
    assert!(ts.delete(&node));
    assert!(!ts.delete(&node));
}

#[test]
fn units_partition_bindings() {
    let mut ts = TreeSemantics::new();
    ts.set(&expr(0, 1), Some(Symbol { id: 1 }));
    ts.set(&expr(1, 1), Some(Symbol { id: 2 }));
    assert_eq!(ts.get(&expr(0, 1)), Some(Symbol { id: 1 }));
    assert_eq!(ts.get(&expr(1, 1)), Some(Symbol { id: 2 }));
}

#[test]
fn node_families_are_independent() {
    let mut ts = TreeSemantics::new();
    let d = DirectiveNode { compilation_unit: 0, id: 1 };
    let b = BlockNode { compilation_unit: 0, id: 1 };
    ts.set(&d, Some(Symbol { id: 10 }));
    ts.set(&b, Some(Symbol { id: 11 }));
    assert_eq!(ts.get(&d), Some(Symbol { id: 10 }));
    assert_eq!(ts.get(&b), Some(Symbol { id: 11 }));
    assert!(ts.delete(&d));
    assert_eq!(ts.get(&b), Some(Symbol { id: 11 }));
}

#[test]
fn lookup_in_an_unknown_unit_finds_nothing() {
    let ts = TreeSemantics::new();
    assert_eq!(ts.get(&expr(9, 9)), None);
    let mut ts = ts;
    assert!(!ts.delete(&expr(9, 9)));
}
