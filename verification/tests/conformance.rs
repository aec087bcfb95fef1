use jet_semantics::interface_implementations::{
    InterfaceImplementationLog, InterfaceImplementations,
};
use jet_semantics::symbols::{Symbol, SymbolHost, SymbolRecord};
use jet_semantics::Visibility;

fn sym(id: usize) -> Symbol {
    Symbol { id }
}

fn rec() -> SymbolRecord {
    SymbolRecord {
        parent: None,
        is_package: false,
        resolved: true,
        visibility: Visibility::Public,
        is_virtual_property: false,
        is_method: true,
        is_optional_interface_method: false,
        getter: None,
        setter: None,
        signature: Symbol { id: 0 },
        ascending_types: vec![],
        prototype: vec![],
    }
}

/// A host whose symbol 0 is a plain resolved signature, symbol 1 a package
/// scope, and symbol 2 an implementor living directly in that package.
fn base_host() -> SymbolHost {
    let signature = rec();
    let mut package = rec();
    package.is_package = true;
    let mut implementor = rec();
    implementor.parent = Some(sym(1));
    SymbolHost { symbols: vec![signature, package, implementor] }
}

#[test]
fn empty_interface_yields_no_findings() {
    let mut host = base_host();
    host.symbols.push(rec()); // 3: interface with no members, no ancestors
    let mut v = InterfaceImplementations(&host);
    let log = v.verify(&sym(2), &sym(3)).expect("check should not defer");
    assert!(log.is_empty());
}

#[test]
fn unimplemented_method_is_reported_once() {
    let mut host = base_host();
    let m = rec(); // 3: required method "m"
    host.symbols.push(m);
    let mut interface = rec();
    interface.prototype = vec![("m".to_string(), sym(3))];
    host.symbols.push(interface); // 4
    let mut v = InterfaceImplementations(&host);
    let log = v.verify(&sym(2), &sym(4)).expect("check should not defer");
    assert_eq!(log.len(), 1);
    assert!(matches!(&log[0], InterfaceImplementationLog::UnimplementedMethod { name } if name == "m"));
}

#[test]
fn optional_method_may_be_omitted() {
    let mut host = base_host();
    let mut m = rec();
    m.is_optional_interface_method = true;
    host.symbols.push(m); // 3
    let mut interface = rec();
    interface.prototype = vec![("m".to_string(), sym(3))];
    host.symbols.push(interface); // 4
    let mut v = InterfaceImplementations(&host);
    let log = v.verify(&sym(2), &sym(4)).expect("check should not defer");
    assert!(log.is_empty());
}

#[test]
fn wrong_method_signature_carries_the_expected_signature() {
    let mut host = base_host();
    let m = rec(); // 3: required method "m", signature 0
    host.symbols.push(m);
    let mut interface = rec();
    interface.prototype = vec![("m".to_string(), sym(3))];
    host.symbols.push(interface); // 4
    host.symbols.push(rec()); // 5: a different resolved signature
    let mut implementor_m = rec(); // 6: implementor's "m" with signature 5
    implementor_m.signature = sym(5);
    host.symbols.push(implementor_m);
    host.symbols[2].prototype = vec![("m".to_string(), sym(6))];
    let mut v = InterfaceImplementations(&host);
    let log = v.verify(&sym(2), &sym(4)).expect("check should not defer");
    assert_eq!(log.len(), 1);
    match &log[0] {
        InterfaceImplementationLog::WrongMethodSignature { name, expected_signature } => {
            assert_eq!(name, "m");
            assert_eq!(expected_signature.id, 0);
        }
        _ => panic!("expected a wrong-method-signature finding"),
    }
}

#[test]
fn unresolved_ancestor_defers_the_whole_check() {
    let mut host = base_host();
    let mut ancestor = rec();
    ancestor.resolved = false;
    host.symbols.push(ancestor); // 3: unresolved ancestor interface
    let mut m = rec();
    m.is_optional_interface_method = true;
    host.symbols.push(m); // 4
    let mut interface = rec();
    interface.ascending_types = vec![sym(3)];
    interface.prototype = vec![("m".to_string(), sym(4))];
    host.symbols.push(interface); // 5
    let mut v = InterfaceImplementations(&host);
    assert!(v.verify(&sym(2), &sym(5)).is_err());
}

#[test]
fn unresolved_signature_defers_rather_than_reporting() {
    let mut host = base_host();
    let mut unresolved_sig = rec();
    unresolved_sig.resolved = false;
    host.symbols.push(unresolved_sig); // 3
    let mut m = rec(); // 4: required method with unresolved signature
    m.signature = sym(3);
    host.symbols.push(m);
    let mut interface = rec();
    interface.prototype = vec![("m".to_string(), sym(4))];
    host.symbols.push(interface); // 5
    let implementor_m = rec(); // 6
    host.symbols.push(implementor_m);
    host.symbols[2].prototype = vec![("m".to_string(), sym(6))];
    let mut v = InterfaceImplementations(&host);
    assert!(v.verify(&sym(2), &sym(5)).is_err());
}

#[test]
fn visibility_and_shape_findings_can_co_occur() {
    // implementor outside a package scope must use internal visibility;
    // its member is public and not a method, and its signature differs
    let mut host = base_host();
    host.symbols[1].is_package = false; // parent scope is not a package
    let m = rec(); // 3: required method "m", signature 0
    host.symbols.push(m);
    let mut interface = rec();
    interface.prototype = vec![("m".to_string(), sym(3))];
    host.symbols.push(interface); // 4
    host.symbols.push(rec()); // 5: another resolved signature
    let mut implementor_m = rec(); // 6: public, not a method, wrong signature
    implementor_m.visibility = Visibility::Public;
    implementor_m.is_method = false;
    implementor_m.signature = sym(5);
    host.symbols.push(implementor_m);
    host.symbols[2].prototype = vec![("m".to_string(), sym(6))];
    let mut v = InterfaceImplementations(&host);
    let log = v.verify(&sym(2), &sym(4)).expect("check should not defer");
    assert_eq!(log.len(), 3);
    assert!(matches!(&log[0], InterfaceImplementationLog::WrongVisibility { name, expected_visibility }
        if name == "m" && matches!(expected_visibility, Visibility::Internal)));
    assert!(matches!(&log[1], InterfaceImplementationLog::PropertyMustBeMethod { name } if name == "m"));
    assert!(matches!(&log[2], InterfaceImplementationLog::WrongMethodSignature { .. }));
}

#[test]
fn virtual_property_requires_getter_and_setter() {
    let mut host = base_host();
    let getter = rec(); // 3: required getter
    host.symbols.push(getter);
    let mut setter = rec(); // 4: optional setter
    setter.is_optional_interface_method = true;
    host.symbols.push(setter);
    let mut prop = rec(); // 5: virtual property with both accessors
    prop.is_virtual_property = true;
    prop.getter = Some(sym(3));
    prop.setter = Some(sym(4));
    host.symbols.push(prop);
    let mut interface = rec();
    interface.prototype = vec![("p".to_string(), sym(5))];
    host.symbols.push(interface); // 6
    let mut v = InterfaceImplementations(&host);
    let log = v.verify(&sym(2), &sym(6)).expect("check should not defer");
    // only the required getter is missing; the optional setter is not
    assert_eq!(log.len(), 1);
    assert!(matches!(&log[0], InterfaceImplementationLog::UnimplementedGetter { name } if name == "p"));
}

#[test]
fn plain_member_where_virtual_property_required() {
    let mut host = base_host();
    let mut prop = rec(); // 3: virtual property, no accessors required
    prop.is_virtual_property = true;
    host.symbols.push(prop);
    let mut interface = rec();
    interface.prototype = vec![("p".to_string(), sym(3))];
    host.symbols.push(interface); // 4
    let implementor_p = rec(); // 5: a plain method, not a virtual property
    host.symbols.push(implementor_p);
    host.symbols[2].prototype = vec![("p".to_string(), sym(5))];
    let mut v = InterfaceImplementations(&host);
    let log = v.verify(&sym(2), &sym(4)).expect("check should not defer");
    assert_eq!(log.len(), 1);
    assert!(matches!(&log[0], InterfaceImplementationLog::PropertyMustBeVirtualProperty { name } if name == "p"));
}

#[test]
fn ancestor_findings_surface_before_the_interface_itself() {
    let mut host = base_host();
    let a = rec(); // 3: method "a" required by the ancestor
    host.symbols.push(a);
    let mut ancestor = rec();
    ancestor.prototype = vec![("a".to_string(), sym(3))];
    host.symbols.push(ancestor); // 4
    let b = rec(); // 5: method "b" required by the interface
    host.symbols.push(b);
    let mut interface = rec();
    interface.ascending_types = vec![sym(4)];
    interface.prototype = vec![("b".to_string(), sym(5))];
    host.symbols.push(interface); // 6
    let mut v = InterfaceImplementations(&host);
    let log = v.verify(&sym(2), &sym(6)).expect("check should not defer");
    assert_eq!(log.len(), 2);
    assert!(matches!(&log[0], InterfaceImplementationLog::UnimplementedMethod { name } if name == "a"));
    assert!(matches!(&log[1], InterfaceImplementationLog::UnimplementedMethod { name } if name == "b"));
}
