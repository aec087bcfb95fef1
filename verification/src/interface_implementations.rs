use vstd::prelude::*;
use crate::symbols::{Symbol, SymbolHost};
use crate::Visibility;

verus! {

/// Outcome signal meaning "not enough of the type graph is resolved yet;
/// retry the whole conformance check after a later resolution pass".
///
/// This is deliberately type-distinct from both a findings list and an
/// ordinary error: treating it as a failure would report false negatives
/// while the type graph is still converging, and treating it as success
/// would silently approve nonconforming code.
#[derive(Clone, Copy, PartialEq, Eq, Structural, Debug)]
pub struct DeferVerificationError;

/// One conformance violation found while checking an implementor type
/// against an interface it claims to implement.
#[derive(Clone, Debug)]
pub enum InterfaceImplementationLog {
    UnimplementedMethod { name: String },
    UnimplementedGetter { name: String },
    UnimplementedSetter { name: String },
    PropertyMustBeMethod { name: String },
    PropertyMustBeVirtualProperty { name: String },
    WrongMethodSignature { name: String, expected_signature: Symbol },
    WrongGetterSignature { name: String, expected_signature: Symbol },
    WrongSetterSignature { name: String, expected_signature: Symbol },
    WrongVisibility { name: String, expected_visibility: Visibility },
}

/// The mathematical value of an [`InterfaceImplementationLog`], with the
/// member name as a character sequence.
pub ghost enum LogVw {
    UnimplementedMethod { name: Seq<char> },
    UnimplementedGetter { name: Seq<char> },
    UnimplementedSetter { name: Seq<char> },
    PropertyMustBeMethod { name: Seq<char> },
    PropertyMustBeVirtualProperty { name: Seq<char> },
    WrongMethodSignature { name: Seq<char>, expected_signature: Symbol },
    WrongGetterSignature { name: Seq<char>, expected_signature: Symbol },
    WrongSetterSignature { name: Seq<char>, expected_signature: Symbol },
    WrongVisibility { name: Seq<char>, expected_visibility: Visibility },
}

impl View for InterfaceImplementationLog {
    type V = LogVw;

    open spec fn view(&self) -> LogVw {
        match self {
            InterfaceImplementationLog::UnimplementedMethod { name } => LogVw::UnimplementedMethod { name: name@ },
            InterfaceImplementationLog::UnimplementedGetter { name } => LogVw::UnimplementedGetter { name: name@ },
            InterfaceImplementationLog::UnimplementedSetter { name } => LogVw::UnimplementedSetter { name: name@ },
            InterfaceImplementationLog::PropertyMustBeMethod { name } => LogVw::PropertyMustBeMethod { name: name@ },
            InterfaceImplementationLog::PropertyMustBeVirtualProperty { name } => LogVw::PropertyMustBeVirtualProperty { name: name@ },
            InterfaceImplementationLog::WrongMethodSignature { name, expected_signature } => LogVw::WrongMethodSignature { name: name@, expected_signature: *expected_signature },
            InterfaceImplementationLog::WrongGetterSignature { name, expected_signature } => LogVw::WrongGetterSignature { name: name@, expected_signature: *expected_signature },
            InterfaceImplementationLog::WrongSetterSignature { name, expected_signature } => LogVw::WrongSetterSignature { name: name@, expected_signature: *expected_signature },
            InterfaceImplementationLog::WrongVisibility { name, expected_visibility } => LogVw::WrongVisibility { name: name@, expected_visibility: *expected_visibility },
        }
    }
}

impl DeepView for InterfaceImplementationLog {
    type V = LogVw;

    open spec fn deep_view(&self) -> LogVw {
        self.view()
    }
}

/// First member of `proto` whose name is `name`, scanning in declaration
/// order.
pub open spec fn proto_lookup(proto: Seq<(String, Symbol)>, name: Seq<char>) -> Option<Symbol>
    decreases proto.len(),
{
    if proto.len() == 0 {
        None
    } else if proto[0].0@ == name {
        Some(proto[0].1)
    } else {
        proto_lookup(proto.skip(1), name)
    }
}

/// The visibility an implemented interface member must have: `Public` when
/// the implementor lives directly in a package scope, `Internal` otherwise.
pub open spec fn spec_expected_visibility(host: SymbolHost, implementor: Symbol) -> Visibility {
    if host.rec(host.rec(implementor).parent->0).is_package {
        Visibility::Public
    } else {
        Visibility::Internal
    }
}

/// Whether comparing one accessor pair would consult an unresolved
/// signature: only when both sides define the accessor.
pub open spec fn accessor_defers(
    host: SymbolHost,
    item_acc: Option<Symbol>,
    impl_acc: Option<Symbol>,
) -> bool {
    &&& item_acc is Some
    &&& impl_acc is Some
    &&& {
        ||| !host.rec(host.rec(item_acc->0).signature).resolved
        ||| !host.rec(host.rec(impl_acc->0).signature).resolved
    }
}

/// Findings for one accessor of a virtual property implemented as a
/// virtual property, when nothing defers.
pub open spec fn accessor_findings(
    host: SymbolHost,
    item_acc: Option<Symbol>,
    impl_acc: Option<Symbol>,
    name: Seq<char>,
    getter: bool,
) -> Seq<LogVw> {
    match impl_acc {
        None => absent_accessor_findings(host, item_acc, name, getter),
        Some(ia) => match item_acc {
            None => Seq::empty(),
            Some(ta) => {
                let expected = host.rec(ta).signature;
                let actual = host.rec(ia).signature;
                if expected != actual {
                    seq![
                        if getter {
                            LogVw::WrongGetterSignature { name, expected_signature: expected }
                        } else {
                            LogVw::WrongSetterSignature { name, expected_signature: expected }
                        },
                    ]
                } else {
                    Seq::empty()
                }
            },
        },
    }
}

/// Findings for an accessor the implementor does not provide: required
/// unless the interface leaves the accessor out or marks it optional.
pub open spec fn absent_accessor_findings(
    host: SymbolHost,
    item_acc: Option<Symbol>,
    name: Seq<char>,
    getter: bool,
) -> Seq<LogVw> {
    if item_acc is Some && !host.rec(item_acc->0).is_optional_interface_method {
        seq![
            if getter {
                LogVw::UnimplementedGetter { name }
            } else {
                LogVw::UnimplementedSetter { name }
            },
        ]
    } else {
        Seq::empty()
    }
}

/// Whether checking one interface member against the implementor would
/// consult an unresolved signature.
pub open spec fn member_defers(
    host: SymbolHost,
    implementor: Symbol,
    name: Seq<char>,
    item: Symbol,
) -> bool {
    match proto_lookup(host.rec(implementor).prototype@, name) {
        None => false,
        Some(ii) => {
            if host.rec(item).is_virtual_property {
                &&& host.rec(ii).is_virtual_property
                &&& {
                    ||| accessor_defers(host, host.rec(item).getter, host.rec(ii).getter)
                    ||| accessor_defers(host, host.rec(item).setter, host.rec(ii).setter)
                }
            } else {
                ||| !host.rec(host.rec(item).signature).resolved
                ||| !host.rec(host.rec(ii).signature).resolved
            }
        },
    }
}

/// Findings for one interface member, when nothing defers: a visibility
/// finding, shape findings and signature findings are independent and can
/// co-occur, in that order.
pub open spec fn member_findings(
    host: SymbolHost,
    implementor: Symbol,
    name: Seq<char>,
    item: Symbol,
    expected_visibility: Visibility,
) -> Seq<LogVw> {
    match proto_lookup(host.rec(implementor).prototype@, name) {
        None => {
            if host.rec(item).is_virtual_property {
                absent_accessor_findings(host, host.rec(item).getter, name, true)
                    + absent_accessor_findings(host, host.rec(item).setter, name, false)
            } else if !host.rec(item).is_optional_interface_method {
                seq![LogVw::UnimplementedMethod { name }]
            } else {
                Seq::empty()
            }
        },
        Some(ii) => {
            let vis_part: Seq<LogVw> = if host.rec(ii).visibility != expected_visibility {
                seq![LogVw::WrongVisibility { name, expected_visibility }]
            } else {
                Seq::empty()
            };
            vis_part + if host.rec(item).is_virtual_property {
                if !host.rec(ii).is_virtual_property {
                    seq![LogVw::PropertyMustBeVirtualProperty { name }]
                } else {
                    accessor_findings(host, host.rec(item).getter, host.rec(ii).getter, name, true)
                        + accessor_findings(host, host.rec(item).setter, host.rec(ii).setter, name, false)
                }
            } else {
                let shape_part: Seq<LogVw> = if !host.rec(ii).is_method {
                    seq![LogVw::PropertyMustBeMethod { name }]
                } else {
                    Seq::empty()
                };
                let expected = host.rec(item).signature;
                let actual = host.rec(ii).signature;
                shape_part + if expected != actual {
                    seq![LogVw::WrongMethodSignature { name, expected_signature: expected }]
                } else {
                    Seq::empty()
                }
            }
        },
    }
}

/// Whether checking any member of `proto` would defer.
pub open spec fn members_defer(
    host: SymbolHost,
    implementor: Symbol,
    proto: Seq<(String, Symbol)>,
) -> bool
    decreases proto.len(),
{
    proto.len() > 0 && {
        ||| member_defers(host, implementor, proto[0].0@, proto[0].1)
        ||| members_defer(host, implementor, proto.skip(1))
    }
}

/// Findings of all members of `proto`, in declaration order.
pub open spec fn members_findings(
    host: SymbolHost,
    implementor: Symbol,
    proto: Seq<(String, Symbol)>,
    expected_visibility: Visibility,
) -> Seq<LogVw>
    decreases proto.len(),
{
    if proto.len() == 0 {
        Seq::empty()
    } else {
        member_findings(host, implementor, proto[0].0@, proto[0].1, expected_visibility)
            + members_findings(host, implementor, proto.skip(1), expected_visibility)
    }
}

/// Whether checking the interfaces of `chain` would defer: an unresolved
/// interface symbol defers the whole check, and so does any member check
/// that consults an unresolved signature.
pub open spec fn chain_defers(host: SymbolHost, implementor: Symbol, chain: Seq<Symbol>) -> bool
    decreases chain.len(),
{
    chain.len() > 0 && {
        ||| !host.rec(chain[0]).resolved
        ||| members_defer(host, implementor, host.rec(chain[0]).prototype@)
        ||| chain_defers(host, implementor, chain.skip(1))
    }
}

/// Findings of all interfaces of `chain`, ancestors surfacing first.
pub open spec fn chain_findings(
    host: SymbolHost,
    implementor: Symbol,
    chain: Seq<Symbol>,
    expected_visibility: Visibility,
) -> Seq<LogVw>
    decreases chain.len(),
{
    if chain.len() == 0 {
        Seq::empty()
    } else {
        members_findings(host, implementor, host.rec(chain[0]).prototype@, expected_visibility)
            + chain_findings(host, implementor, chain.skip(1), expected_visibility)
    }
}

/// The interfaces a conformance check walks: the claimed interface's
/// transitive ancestors first, the interface itself last.
pub open spec fn conformance_chain(host: SymbolHost, interface: Symbol) -> Seq<Symbol> {
    host.rec(interface).ascending_types@ + seq![interface]
}

/// Whether the whole conformance check of `implementor` against
/// `interface` defers.
pub open spec fn spec_verify_defers(
    host: SymbolHost,
    implementor: Symbol,
    interface: Symbol,
) -> bool {
    chain_defers(host, implementor, conformance_chain(host, interface))
}

/// The findings of the whole conformance check of `implementor` against
/// `interface`, when it does not defer.
pub open spec fn spec_verify_findings(
    host: SymbolHost,
    implementor: Symbol,
    interface: Symbol,
) -> Seq<LogVw> {
    chain_findings(
        host,
        implementor,
        conformance_chain(host, interface),
        spec_expected_visibility(host, implementor),
    )
}

/// The interface-conformance verifier, a single-shot query over the given
/// symbol table.
pub struct InterfaceImplementations<'a>(pub &'a SymbolHost);

/// An implementor of a resolved interface that declares no members and
/// extends no interfaces conforms: the check never defers and yields no
/// findings.
pub proof fn lemma_conformance_empty_interface(
    host: SymbolHost,
    implementor: Symbol,
    interface: Symbol,
)
    requires
        host.rec(interface).resolved,
        host.rec(interface).ascending_types@.len() == 0,
        host.rec(interface).prototype@.len() == 0,
    ensures
        !spec_verify_defers(host, implementor, interface),
        spec_verify_findings(host, implementor, interface) == Seq::<LogVw>::empty(),
{
    let chain = conformance_chain(host, interface);
    assert(chain =~= seq![interface]);
    assert(chain.skip(1) =~= Seq::<Symbol>::empty());
    assert(!chain_defers(host, implementor, Seq::<Symbol>::empty()));
    assert(chain_findings(host, implementor, Seq::<Symbol>::empty(), spec_expected_visibility(host, implementor))
        =~= Seq::<LogVw>::empty());
    assert(spec_verify_findings(host, implementor, interface) =~= Seq::<LogVw>::empty());
}

/// When an interface without ancestors requires a single plain,
/// non-optional method and the implementor has no member of that name, the
/// check yields exactly one unimplemented-method finding for it.
pub proof fn lemma_conformance_unimplemented_method(
    host: SymbolHost,
    implementor: Symbol,
    interface: Symbol,
)
    requires
        host.rec(interface).resolved,
        host.rec(interface).ascending_types@.len() == 0,
        host.rec(interface).prototype@.len() == 1,
        !host.rec(host.rec(interface).prototype@[0].1).is_virtual_property,
        !host.rec(host.rec(interface).prototype@[0].1).is_optional_interface_method,
        proto_lookup(host.rec(implementor).prototype@, host.rec(interface).prototype@[0].0@)
            is None,
    ensures
        !spec_verify_defers(host, implementor, interface),
        spec_verify_findings(host, implementor, interface) == seq![
            LogVw::UnimplementedMethod { name: host.rec(interface).prototype@[0].0@ },
        ],
{
    let chain = conformance_chain(host, interface);
    let ev = spec_expected_visibility(host, implementor);
    let proto = host.rec(interface).prototype@;
    assert(chain =~= seq![interface]);
    assert(chain.skip(1) =~= Seq::<Symbol>::empty());
    assert(proto.skip(1) =~= Seq::<(String, Symbol)>::empty());
    assert(!members_defer(host, implementor, Seq::<(String, Symbol)>::empty()));
    assert(members_findings(host, implementor, Seq::<(String, Symbol)>::empty(), ev)
        =~= Seq::<LogVw>::empty());
    assert(!chain_defers(host, implementor, Seq::<Symbol>::empty()));
    assert(chain_findings(host, implementor, Seq::<Symbol>::empty(), ev) =~= Seq::<LogVw>::empty());
    assert(spec_verify_findings(host, implementor, interface) =~= seq![
        LogVw::UnimplementedMethod { name: proto[0].0@ },
    ]);
}

/// As above, but the required method is marked optional on the interface:
/// the check yields no findings at all.
pub proof fn lemma_conformance_optional_method(
    host: SymbolHost,
    implementor: Symbol,
    interface: Symbol,
)
    requires
        host.rec(interface).resolved,
        host.rec(interface).ascending_types@.len() == 0,
        host.rec(interface).prototype@.len() == 1,
        !host.rec(host.rec(interface).prototype@[0].1).is_virtual_property,
        host.rec(host.rec(interface).prototype@[0].1).is_optional_interface_method,
        proto_lookup(host.rec(implementor).prototype@, host.rec(interface).prototype@[0].0@)
            is None,
    ensures
        !spec_verify_defers(host, implementor, interface),
        spec_verify_findings(host, implementor, interface) == Seq::<LogVw>::empty(),
{
    let chain = conformance_chain(host, interface);
    let ev = spec_expected_visibility(host, implementor);
    let proto = host.rec(interface).prototype@;
    assert(chain =~= seq![interface]);
    assert(chain.skip(1) =~= Seq::<Symbol>::empty());
    assert(proto.skip(1) =~= Seq::<(String, Symbol)>::empty());
    assert(!members_defer(host, implementor, Seq::<(String, Symbol)>::empty()));
    assert(members_findings(host, implementor, Seq::<(String, Symbol)>::empty(), ev)
        =~= Seq::<LogVw>::empty());
    assert(!chain_defers(host, implementor, Seq::<Symbol>::empty()));
    assert(chain_findings(host, implementor, Seq::<Symbol>::empty(), ev) =~= Seq::<LogVw>::empty());
    assert(spec_verify_findings(host, implementor, interface) =~= Seq::<LogVw>::empty());
}

/// When the implementor defines the required method as a method of the
/// expected visibility but with a different, resolved signature, the check
/// yields exactly one wrong-method-signature finding carrying the
/// interface's expected signature.
pub proof fn lemma_conformance_wrong_method_signature(
    host: SymbolHost,
    implementor: Symbol,
    interface: Symbol,
)
    requires
        host.rec(interface).resolved,
        host.rec(interface).ascending_types@.len() == 0,
        host.rec(interface).prototype@.len() == 1,
        !host.rec(host.rec(interface).prototype@[0].1).is_virtual_property,
        proto_lookup(host.rec(implementor).prototype@, host.rec(interface).prototype@[0].0@)
            is Some,
        ({
            let ii = proto_lookup(
                host.rec(implementor).prototype@,
                host.rec(interface).prototype@[0].0@,
            )->0;
            let item = host.rec(interface).prototype@[0].1;
            &&& host.rec(ii).visibility == spec_expected_visibility(host, implementor)
            &&& host.rec(ii).is_method
            &&& host.rec(host.rec(item).signature).resolved
            &&& host.rec(host.rec(ii).signature).resolved
            &&& host.rec(item).signature != host.rec(ii).signature
        }),
    ensures
        !spec_verify_defers(host, implementor, interface),
        spec_verify_findings(host, implementor, interface) == seq![
            LogVw::WrongMethodSignature {
                name: host.rec(interface).prototype@[0].0@,
                expected_signature: host.rec(host.rec(interface).prototype@[0].1).signature,
            },
        ],
{
    let chain = conformance_chain(host, interface);
    let ev = spec_expected_visibility(host, implementor);
    let proto = host.rec(interface).prototype@;
    assert(chain =~= seq![interface]);
    assert(chain.skip(1) =~= Seq::<Symbol>::empty());
    assert(proto.skip(1) =~= Seq::<(String, Symbol)>::empty());
    assert(!members_defer(host, implementor, Seq::<(String, Symbol)>::empty()));
    assert(members_findings(host, implementor, Seq::<(String, Symbol)>::empty(), ev)
        =~= Seq::<LogVw>::empty());
    assert(!chain_defers(host, implementor, Seq::<Symbol>::empty()));
    assert(chain_findings(host, implementor, Seq::<Symbol>::empty(), ev) =~= Seq::<LogVw>::empty());
    assert(spec_verify_findings(host, implementor, interface) =~= seq![
        LogVw::WrongMethodSignature {
            name: proto[0].0@,
            expected_signature: host.rec(proto[0].1).signature,
        },
    ]);
}

/// When any interface of the ascending chain (or the claimed interface
/// itself) is unresolved, the whole check defers; it never returns a
/// findings list.
pub proof fn lemma_conformance_unresolved_defers(
    host: SymbolHost,
    implementor: Symbol,
    interface: Symbol,
    k: int,
)
    requires
        0 <= k < conformance_chain(host, interface).len(),
        !host.rec(conformance_chain(host, interface)[k]).resolved,
    ensures
        spec_verify_defers(host, implementor, interface),
{
    lemma_chain_defers_at(host, implementor, conformance_chain(host, interface), k);
}

/// A symbol found by `proto_lookup` is one of the prototype's members.
proof fn lemma_proto_lookup_valid(host: SymbolHost, proto: Seq<(String, Symbol)>, name: Seq<char>)
    requires
        forall|j: int| 0 <= j < proto.len() ==> host.valid(#[trigger] proto[j].1),
    ensures
        proto_lookup(proto, name) is Some ==> host.valid(proto_lookup(proto, name)->0),
    decreases proto.len(),
{
    if proto.len() > 0 && proto[0].0@ != name {
        lemma_proto_lookup_valid(host, proto.skip(1), name);
    }
}

/// One deferring member defers the whole prototype.
proof fn lemma_members_defer_at(
    host: SymbolHost,
    implementor: Symbol,
    proto: Seq<(String, Symbol)>,
    j: int,
)
    requires
        0 <= j < proto.len(),
        member_defers(host, implementor, proto[j].0@, proto[j].1),
    ensures
        members_defer(host, implementor, proto),
    decreases j,
{
    if j > 0 {
        lemma_members_defer_at(host, implementor, proto.skip(1), j - 1);
    }
}

/// One deferring interface defers the whole chain.
proof fn lemma_chain_defers_at(host: SymbolHost, implementor: Symbol, chain: Seq<Symbol>, k: int)
    requires
        0 <= k < chain.len(),
        !host.rec(chain[k]).resolved || members_defer(
            host,
            implementor,
            host.rec(chain[k]).prototype@,
        ),
    ensures
        chain_defers(host, implementor, chain),
    decreases k,
{
    if k > 0 {
        lemma_chain_defers_at(host, implementor, chain.skip(1), k - 1);
    }
}

/// Appending one member extends the prototype findings by that member's
/// findings, and defers exactly when either part defers.
proof fn lemma_members_push(
    host: SymbolHost,
    implementor: Symbol,
    proto: Seq<(String, Symbol)>,
    x: (String, Symbol),
    expected_visibility: Visibility,
)
    ensures
        members_findings(host, implementor, proto.push(x), expected_visibility)
            == members_findings(host, implementor, proto, expected_visibility) + member_findings(
            host,
            implementor,
            x.0@,
            x.1,
            expected_visibility,
        ),
        members_defer(host, implementor, proto.push(x)) == (members_defer(
            host,
            implementor,
            proto,
        ) || member_defers(host, implementor, x.0@, x.1)),
    decreases proto.len(),
{
    if proto.len() == 0 {
        assert(proto.push(x).skip(1) =~= Seq::<(String, Symbol)>::empty());
        assert(proto.push(x)[0] == x);
        assert(members_findings(host, implementor, Seq::<(String, Symbol)>::empty(), expected_visibility)
            =~= Seq::<LogVw>::empty());
        assert(!members_defer(host, implementor, Seq::<(String, Symbol)>::empty()));
        assert(members_findings(host, implementor, proto.push(x), expected_visibility)
            =~= members_findings(host, implementor, proto, expected_visibility) + member_findings(
            host,
            implementor,
            x.0@,
            x.1,
            expected_visibility,
        ));
    } else {
        assert(proto.push(x).skip(1) =~= proto.skip(1).push(x));
        assert(proto.push(x)[0] == proto[0]);
        lemma_members_push(host, implementor, proto.skip(1), x, expected_visibility);
        assert(members_findings(host, implementor, proto.push(x), expected_visibility)
            =~= members_findings(host, implementor, proto, expected_visibility) + member_findings(
            host,
            implementor,
            x.0@,
            x.1,
            expected_visibility,
        ));
    }
}

/// Appending one interface extends the chain findings by that interface's
/// member findings, and defers exactly when either part defers.
proof fn lemma_chain_push(
    host: SymbolHost,
    implementor: Symbol,
    chain: Seq<Symbol>,
    x: Symbol,
    expected_visibility: Visibility,
)
    ensures
        chain_findings(host, implementor, chain.push(x), expected_visibility) == chain_findings(
            host,
            implementor,
            chain,
            expected_visibility,
        ) + members_findings(host, implementor, host.rec(x).prototype@, expected_visibility),
        chain_defers(host, implementor, chain.push(x)) == (chain_defers(host, implementor, chain)
            || !host.rec(x).resolved || members_defer(host, implementor, host.rec(x).prototype@)),
    decreases chain.len(),
{
    if chain.len() == 0 {
        assert(chain.push(x).skip(1) =~= Seq::<Symbol>::empty());
        assert(chain.push(x)[0] == x);
        assert(chain_findings(host, implementor, Seq::<Symbol>::empty(), expected_visibility)
            =~= Seq::<LogVw>::empty());
        assert(!chain_defers(host, implementor, Seq::<Symbol>::empty()));
        assert(chain_findings(host, implementor, chain.push(x), expected_visibility)
            =~= chain_findings(host, implementor, chain, expected_visibility) + members_findings(
            host,
            implementor,
            host.rec(x).prototype@,
            expected_visibility,
        ));
    } else {
        assert(chain.push(x).skip(1) =~= chain.skip(1).push(x));
        assert(chain.push(x)[0] == chain[0]);
        lemma_chain_push(host, implementor, chain.skip(1), x, expected_visibility);
        assert(chain_findings(host, implementor, chain.push(x), expected_visibility)
            =~= chain_findings(host, implementor, chain, expected_visibility) + members_findings(
            host,
            implementor,
            host.rec(x).prototype@,
            expected_visibility,
        ));
    }
}

/// First member of `proto` named `name`, or `None`.
#[verifier::loop_isolation(false)]
fn proto_find(proto: &Vec<(String, Symbol)>, name: &String) -> (r: Option<Symbol>)
    ensures
        r == proto_lookup(proto@, name@),
{
    let n = proto.len();
    assert(proto@.skip(0) =~= proto@);
    for i in 0..n
        invariant
            n == proto@.len(),
            proto_lookup(proto@, name@) == proto_lookup(proto@.skip(i as int), name@),
    {
        assert(proto@.skip(i as int)[0] == proto@[i as int]);
        if proto[i].0 == *name {
            return Some(proto[i].1);
        }
        assert(proto@.skip(i as int).skip(1) =~= proto@.skip(i + 1));
    }
    assert(proto@.skip(n as int) =~= Seq::<(String, Symbol)>::empty());
    None
}

/// Checks one accessor of a virtual property implemented as a virtual
/// property, appending any finding to `log`.
fn check_accessor(
    host: &SymbolHost,
    item_acc: Option<Symbol>,
    impl_acc: Option<Symbol>,
    name: &String,
    getter: bool,
    log: &mut Vec<InterfaceImplementationLog>,
) -> (r: Result<(), DeferVerificationError>)
    requires
        host.wf(),
        item_acc is Some ==> host.valid(item_acc->0),
        impl_acc is Some ==> host.valid(impl_acc->0),
    ensures
        match r {
            Ok(_) => !accessor_defers(*host, item_acc, impl_acc) && final(log).deep_view() == old(
                log,
            ).deep_view() + accessor_findings(*host, item_acc, impl_acc, name@, getter),
            Err(_) => accessor_defers(*host, item_acc, impl_acc),
        },
{
    match impl_acc {
        None => {
            match item_acc {
                Some(ta) => {
                    if !host.symbols[ta.id].is_optional_interface_method {
                        let finding = if getter {
                            InterfaceImplementationLog::UnimplementedGetter { name: name.clone() }
                        } else {
                            InterfaceImplementationLog::UnimplementedSetter { name: name.clone() }
                        };
                        let ghost v = finding@;
                        log.push(finding);
                        assert(log.deep_view() =~= old(log).deep_view().push(v));
                        assert(log.deep_view() =~= old(log).deep_view() + accessor_findings(
                            *host,
                            item_acc,
                            impl_acc,
                            name@,
                            getter,
                        ));
                    } else {
                        assert(log.deep_view() =~= old(log).deep_view() + accessor_findings(
                            *host,
                            item_acc,
                            impl_acc,
                            name@,
                            getter,
                        ));
                    }
                },
                None => {
                    assert(log.deep_view() =~= old(log).deep_view() + accessor_findings(
                        *host,
                        item_acc,
                        impl_acc,
                        name@,
                        getter,
                    ));
                },
            }
            Ok(())
        },
        Some(ia) => {
            match item_acc {
                None => {
                    assert(log.deep_view() =~= old(log).deep_view() + accessor_findings(
                        *host,
                        item_acc,
                        impl_acc,
                        name@,
                        getter,
                    ));
                    Ok(())
                },
                Some(ta) => {
                    let expected = host.symbols[ta.id].signature;
                    let actual = host.symbols[ia.id].signature;
                    if !host.symbols[expected.id].resolved || !host.symbols[actual.id].resolved {
                        return Err(DeferVerificationError);
                    }
                    if expected.id != actual.id {
                        let finding = if getter {
                            InterfaceImplementationLog::WrongGetterSignature {
                                name: name.clone(),
                                expected_signature: expected,
                            }
                        } else {
                            InterfaceImplementationLog::WrongSetterSignature {
                                name: name.clone(),
                                expected_signature: expected,
                            }
                        };
                        let ghost v = finding@;
                        log.push(finding);
                        assert(log.deep_view() =~= old(log).deep_view().push(v));
                        assert(log.deep_view() =~= old(log).deep_view() + accessor_findings(
                            *host,
                            item_acc,
                            impl_acc,
                            name@,
                            getter,
                        ));
                    } else {
                        assert(log.deep_view() =~= old(log).deep_view() + accessor_findings(
                            *host,
                            item_acc,
                            impl_acc,
                            name@,
                            getter,
                        ));
                    }
                    Ok(())
                },
            }
        },
    }
}

/// Checks one member the interface declares against the implementor,
/// appending its findings to `log`.
fn check_member(
    host: &SymbolHost,
    implementor: Symbol,
    name: &String,
    item: Symbol,
    expected_visibility: Visibility,
    log: &mut Vec<InterfaceImplementationLog>,
) -> (r: Result<(), DeferVerificationError>)
    requires
        host.wf(),
        host.valid(implementor),
        host.valid(item),
    ensures
        match r {
            Ok(_) => !member_defers(*host, implementor, name@, item) && final(log).deep_view()
                == old(log).deep_view() + member_findings(
                *host,
                implementor,
                name@,
                item,
                expected_visibility,
            ),
            Err(_) => member_defers(*host, implementor, name@, item),
        },
{
    proof {
        lemma_proto_lookup_valid(*host, host.rec(implementor).prototype@, name@);
    }
    let implementor_item = proto_find(&host.symbols[implementor.id].prototype, name);

    match implementor_item {
        None => {
            if host.symbols[item.id].is_virtual_property {
                if let Some(g) = host.symbols[item.id].getter {
                    if !host.symbols[g.id].is_optional_interface_method {
                        let finding = InterfaceImplementationLog::UnimplementedGetter {
                            name: name.clone(),
                        };
                        let ghost v = finding@;
                        log.push(finding);
                        assert(log.deep_view() =~= old(log).deep_view().push(v));
                    }
                }
                let ghost after_getter = log.deep_view();
                assert(after_getter == old(log).deep_view() + absent_accessor_findings(
                    *host,
                    host.rec(item).getter,
                    name@,
                    true,
                )) by {
                    assert(after_getter =~= old(log).deep_view() + absent_accessor_findings(
                        *host,
                        host.rec(item).getter,
                        name@,
                        true,
                    ));
                }
                if let Some(s) = host.symbols[item.id].setter {
                    if !host.symbols[s.id].is_optional_interface_method {
                        let finding = InterfaceImplementationLog::UnimplementedSetter {
                            name: name.clone(),
                        };
                        let ghost v = finding@;
                        log.push(finding);
                        assert(log.deep_view() =~= after_getter.push(v));
                    }
                }
                assert(log.deep_view() =~= old(log).deep_view() + member_findings(
                    *host,
                    implementor,
                    name@,
                    item,
                    expected_visibility,
                ));
            } else if !host.symbols[item.id].is_optional_interface_method {
                let finding = InterfaceImplementationLog::UnimplementedMethod { name: name.clone() };
                let ghost v = finding@;
                log.push(finding);
                assert(log.deep_view() =~= old(log).deep_view().push(v));
                assert(log.deep_view() =~= old(log).deep_view() + member_findings(
                    *host,
                    implementor,
                    name@,
                    item,
                    expected_visibility,
                ));
            } else {
                assert(log.deep_view() =~= old(log).deep_view() + member_findings(
                    *host,
                    implementor,
                    name@,
                    item,
                    expected_visibility,
                ));
            }
            Ok(())
        },
        Some(ii) => {
            let ghost vis_part = if host.rec(ii).visibility != expected_visibility {
                seq![LogVw::WrongVisibility { name: name@, expected_visibility }]
            } else {
                Seq::<LogVw>::empty()
            };
            if host.symbols[ii.id].visibility != expected_visibility {
                let finding = InterfaceImplementationLog::WrongVisibility {
                    name: name.clone(),
                    expected_visibility,
                };
                let ghost v = finding@;
                log.push(finding);
                assert(log.deep_view() =~= old(log).deep_view().push(v));
            }
            assert(log.deep_view() == old(log).deep_view() + vis_part) by {
                assert(log.deep_view() =~= old(log).deep_view() + vis_part);
            }
            let ghost base = log.deep_view();

            if host.symbols[item.id].is_virtual_property {
                if !host.symbols[ii.id].is_virtual_property {
                    let finding = InterfaceImplementationLog::PropertyMustBeVirtualProperty {
                        name: name.clone(),
                    };
                    let ghost v = finding@;
                    log.push(finding);
                    assert(log.deep_view() =~= base.push(v));
                    assert(log.deep_view() =~= old(log).deep_view() + member_findings(
                        *host,
                        implementor,
                        name@,
                        item,
                        expected_visibility,
                    ));
                    Ok(())
                } else {
                    let r1 = check_accessor(
                        host,
                        host.symbols[item.id].getter,
                        host.symbols[ii.id].getter,
                        name,
                        true,
                        log,
                    );
                    if r1.is_err() {
                        return Err(DeferVerificationError);
                    }
                    let r2 = check_accessor(
                        host,
                        host.symbols[item.id].setter,
                        host.symbols[ii.id].setter,
                        name,
                        false,
                        log,
                    );
                    if r2.is_err() {
                        return Err(DeferVerificationError);
                    }
                    assert(log.deep_view() =~= old(log).deep_view() + member_findings(
                        *host,
                        implementor,
                        name@,
                        item,
                        expected_visibility,
                    ));
                    Ok(())
                }
            } else {
                let ghost shape_part = if !host.rec(ii).is_method {
                    seq![LogVw::PropertyMustBeMethod { name: name@ }]
                } else {
                    Seq::<LogVw>::empty()
                };
                if !host.symbols[ii.id].is_method {
                    let finding = InterfaceImplementationLog::PropertyMustBeMethod {
                        name: name.clone(),
                    };
                    let ghost v = finding@;
                    log.push(finding);
                    assert(log.deep_view() =~= base.push(v));
                }
                assert(log.deep_view() == base + shape_part) by {
                    assert(log.deep_view() =~= base + shape_part);
                }
                let expected = host.symbols[item.id].signature;
                let actual = host.symbols[ii.id].signature;
                if !host.symbols[expected.id].resolved || !host.symbols[actual.id].resolved {
                    return Err(DeferVerificationError);
                }
                if expected.id != actual.id {
                    let finding = InterfaceImplementationLog::WrongMethodSignature {
                        name: name.clone(),
                        expected_signature: expected,
                    };
                    let ghost v = finding@;
                    log.push(finding);
                    assert(log.deep_view() =~= (base + shape_part).push(v));
                }
                assert(log.deep_view() =~= old(log).deep_view() + member_findings(
                    *host,
                    implementor,
                    name@,
                    item,
                    expected_visibility,
                ));
                Ok(())
            }
        },
    }
}

impl<'a> InterfaceImplementations<'a> {
    /// Checks that `implementor` satisfies every member required by
    /// `interface` and by every interface it transitively extends.
    ///
    /// Returns the ordered findings (empty means full conformance), or the
    /// deferred outcome when the check would consult an unresolved symbol
    /// or signature; a deferred check must be re-run from scratch after a
    /// later resolution pass, and this query mutates nothing, so re-running
    /// it is always safe.
    #[verifier::loop_isolation(false)]
    #[verifier::rlimit(60)]
    pub fn verify(&mut self, implementor: &Symbol, interface: &Symbol) -> (r: Result<
        Vec<InterfaceImplementationLog>,
        DeferVerificationError,
    >)
        requires
            old(self).0.wf(),
            old(self).0.valid(*implementor),
            old(self).0.valid(*interface),
            old(self).0.rec(*implementor).parent is Some,
        ensures
            *final(self) == *old(self),
            match r {
                Ok(log) => !spec_verify_defers(*old(self).0, *implementor, *interface)
                    && log.deep_view() == spec_verify_findings(*old(self).0, *implementor, *interface),
                Err(_) => spec_verify_defers(*old(self).0, *implementor, *interface),
            },
    {
        let host = self.0;
        let parent = match host.symbols[implementor.id].parent {
            Some(p) => p,
            None => { return Err(DeferVerificationError); },
        };
        let at_package = host.symbols[parent.id].is_package;
        let expected_visibility = if at_package {
            Visibility::Public
        } else {
            Visibility::Internal
        };
        assert(expected_visibility == spec_expected_visibility(*host, *implementor));

        let asc = &host.symbols[interface.id].ascending_types;
        let mut interfaces: Vec<Symbol> = Vec::new();
        let n = asc.len();
        for i in 0..n
            invariant
                n == asc@.len(),
                interfaces@ =~= asc@.take(i as int),
        {
            interfaces.push(asc[i]);
            assert(interfaces@ =~= asc@.take(i + 1));
        }
        assert(interfaces@ =~= asc@);
        interfaces.push(*interface);
        assert(interfaces@ =~= conformance_chain(*host, *interface));
        let ghost chain = interfaces@;

        let mut log: Vec<InterfaceImplementationLog> = Vec::new();
        assert(log.deep_view() =~= chain_findings(
            *host,
            *implementor,
            chain.take(0),
            expected_visibility,
        ));

        let m = interfaces.len();
        for k in 0..m
            invariant
                m == chain.len(),
                interfaces@ == chain,
                chain == conformance_chain(*host, *interface),
                host == old(self).0,
                host.wf(),
                host.valid(*implementor),
                host.valid(*interface),
                expected_visibility == spec_expected_visibility(*host, *implementor),
                forall|t: int| 0 <= t < chain.len() ==> host.valid(#[trigger] chain[t]),
                log.deep_view() == chain_findings(
                    *host,
                    *implementor,
                    chain.take(k as int),
                    expected_visibility,
                ),
                !chain_defers(*host, *implementor, chain.take(k as int)),
        {
            let iface = interfaces[k];
            if !host.symbols[iface.id].resolved {
                proof {
                    lemma_chain_defers_at(*host, *implementor, chain, k as int);
                }
                return Err(DeferVerificationError);
            }
            let proto = &host.symbols[iface.id].prototype;
            let ghost pv = proto@;
            assert(log.deep_view() + members_findings(*host, *implementor, pv.take(0), expected_visibility)
                =~= log.deep_view());
            let ghost log0 = log.deep_view();
            let pn = proto.len();
            for j in 0..pn
                invariant
                    pn == pv.len(),
                    proto@ == pv,
                    host == old(self).0,
                    host.wf(),
                    host.valid(*implementor),
                    forall|t: int| 0 <= t < pv.len() ==> host.valid(#[trigger] pv[t].1),
                    log.deep_view() == log0 + members_findings(
                        *host,
                        *implementor,
                        pv.take(j as int),
                        expected_visibility,
                    ),
                    !members_defer(*host, *implementor, pv.take(j as int)),
            {
                let name = &proto[j].0;
                let item = proto[j].1;
                assert(host.valid(item));
                let res = check_member(host, *implementor, name, item, expected_visibility, &mut log);
                if res.is_err() {
                    proof {
                        lemma_members_defer_at(*host, *implementor, pv, j as int);
                        lemma_chain_defers_at(*host, *implementor, chain, k as int);
                    }
                    return Err(DeferVerificationError);
                }
                proof {
                    assert(pv.take(j + 1) =~= pv.take(j as int).push(pv[j as int]));
                    lemma_members_push(
                        *host,
                        *implementor,
                        pv.take(j as int),
                        pv[j as int],
                        expected_visibility,
                    );
                    assert(log.deep_view() =~= log0 + members_findings(
                        *host,
                        *implementor,
                        pv.take(j + 1),
                        expected_visibility,
                    ));
                }
            }
            proof {
                assert(pv.take(pv.len() as int) =~= pv);
                assert(chain.take(k + 1) =~= chain.take(k as int).push(chain[k as int]));
                lemma_chain_push(
                    *host,
                    *implementor,
                    chain.take(k as int),
                    chain[k as int],
                    expected_visibility,
                );
            }
        }
        proof {
            assert(chain.take(chain.len() as int) =~= chain);
        }
        Ok(log)
    }
}

} // verus!
