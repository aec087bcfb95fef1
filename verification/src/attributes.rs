use vstd::prelude::*;
use vstd::string::StrSliceExecFns;
use crate::location::Location;
use crate::Visibility;

verus! {

/// Raw metadata annotation exactly as parsed: a name and optional entries,
/// with every token's text and location kept verbatim.
///
/// Metadata nodes are shared between several owners in a compiler (a
/// declaration and its lookup tables), so each node carries a stable
/// identity handle; identity comparison goes by it, never by structure.
pub struct UnprocessedMetadata {
    /// Stable identity of this node.
    pub id: u64,
    pub location: Location,
    pub name: (String, Location),
    pub entries: Option<Vec<UnprocessedMetadataEntry>>,
}

/// One raw metadata entry: an optional key and a raw value.
pub struct UnprocessedMetadataEntry {
    pub location: Location,
    pub key: Option<(String, Location)>,
    pub value: UnprocessedMetadataValue,
}

/// One raw metadata value, unresolved: numeric text and file references
/// are kept verbatim.
pub enum UnprocessedMetadataValue {
    IdentifierString((String, Location)),
    String((String, Location)),
    /// Numeric literal. Possibly contains a minus sign "-" prefix.
    Number((String, Location)),
    Boolean((bool, Location)),
    File { location: Location, output: bool, file_path: (String, Location) },
    List((Vec<UnprocessedMetadataEntry>, Location)),
}

/// The mathematical value of an `UnprocessedMetadata`.
pub ghost struct UnprocessedMetadataVw {
    pub id: u64,
    pub location: Location,
    pub name: (Seq<char>, Location),
    pub entries: Option<Seq<UnprocessedMetadataEntryVw>>,
}

/// The mathematical value of an `UnprocessedMetadataEntry`.
pub ghost struct UnprocessedMetadataEntryVw {
    pub location: Location,
    pub key: Option<(Seq<char>, Location)>,
    pub value: UnprocessedMetadataValueVw,
}

/// The mathematical value of an `UnprocessedMetadataValue`.
pub ghost enum UnprocessedMetadataValueVw {
    IdentifierString((Seq<char>, Location)),
    String((Seq<char>, Location)),
    Number((Seq<char>, Location)),
    Boolean((bool, Location)),
    File { location: Location, output: bool, file_path: (Seq<char>, Location) },
    List((Seq<UnprocessedMetadataEntryVw>, Location)),
}

/// The mathematical values of a sequence of raw metadata entries.
pub open spec fn entries_vw(es: Seq<UnprocessedMetadataEntry>) -> Seq<UnprocessedMetadataEntryVw>
    decreases es,
{
    if es.len() == 0 {
        Seq::empty()
    } else {
        seq![es[0]@] + entries_vw(es.skip(1))
    }
}

impl View for UnprocessedMetadataValue {
    type V = UnprocessedMetadataValueVw;

    open spec fn view(&self) -> UnprocessedMetadataValueVw
        decreases self,
    {
        match self {
            UnprocessedMetadataValue::IdentifierString((s, l)) => UnprocessedMetadataValueVw::IdentifierString((s@, *l)),
            UnprocessedMetadataValue::String((s, l)) => UnprocessedMetadataValueVw::String((s@, *l)),
            UnprocessedMetadataValue::Number((s, l)) => UnprocessedMetadataValueVw::Number((s@, *l)),
            UnprocessedMetadataValue::Boolean((b, l)) => UnprocessedMetadataValueVw::Boolean((*b, *l)),
            UnprocessedMetadataValue::File { location, output, file_path } => UnprocessedMetadataValueVw::File {
                location: *location,
                output: *output,
                file_path: (file_path.0@, file_path.1),
            },
            UnprocessedMetadataValue::List((es, l)) => UnprocessedMetadataValueVw::List((entries_vw(es@), *l)),
        }
    }
}

impl View for UnprocessedMetadataEntry {
    type V = UnprocessedMetadataEntryVw;

    open spec fn view(&self) -> UnprocessedMetadataEntryVw
        decreases self,
    {
        UnprocessedMetadataEntryVw {
            location: self.location,
            key: match self.key {
                Some((k, l)) => Some((k@, l)),
                None => None,
            },
            value: self.value@,
        }
    }
}

impl View for UnprocessedMetadata {
    type V = UnprocessedMetadataVw;

    open spec fn view(&self) -> UnprocessedMetadataVw
        decreases self,
    {
        UnprocessedMetadataVw {
            id: self.id,
            location: self.location,
            name: (self.name.0@, self.name.1),
            entries: match self.entries {
                Some(es) => Some(entries_vw(es@)),
                None => None,
            },
        }
    }
}

/// `entries_vw` is the element-wise view of the sequence.
pub proof fn lemma_entries_vw(es: Seq<UnprocessedMetadataEntry>)
    ensures
        entries_vw(es).len() == es.len(),
        forall|i: int| 0 <= i < es.len() ==> #[trigger] entries_vw(es)[i] == es[i]@,
    decreases es.len(),
{
    if es.len() > 0 {
        lemma_entries_vw(es.skip(1));
        assert(entries_vw(es) == seq![es[0]@] + entries_vw(es.skip(1)));
        assert forall|i: int| 0 <= i < es.len() implies #[trigger] entries_vw(es)[i] == es[i]@ by {
            if i > 0 {
                assert(es.skip(1)[i - 1] == es[i]);
                assert(entries_vw(es)[i] == entries_vw(es.skip(1))[i - 1]);
            }
        }
    }
}

/// The source location a raw metadata value covers.
pub open spec fn spec_value_location(v: UnprocessedMetadataValueVw) -> Location {
    match v {
        UnprocessedMetadataValueVw::IdentifierString((_, l)) => l,
        UnprocessedMetadataValueVw::String((_, l)) => l,
        UnprocessedMetadataValueVw::Number((_, l)) => l,
        UnprocessedMetadataValueVw::Boolean((_, l)) => l,
        UnprocessedMetadataValueVw::File { location, .. } => location,
        UnprocessedMetadataValueVw::List((_, l)) => l,
    }
}

impl UnprocessedMetadataValue {
    /// The source location this raw value covers.
    pub fn location(&self) -> (r: Location)
        ensures
            r == spec_value_location(self@),
    {
        match self {
            Self::IdentifierString((_, l)) => *l,
            Self::String((_, l)) => *l,
            Self::Number((_, l)) => *l,
            Self::Boolean((_, l)) => *l,
            Self::File { location, .. } => *location,
            Self::List((_, l)) => *l,
        }
    }
}

/// Copies a sequence of raw metadata entries, keeping each entry's value.
#[verifier::loop_isolation(false)]
fn clone_unprocessed_entries(es: &Vec<UnprocessedMetadataEntry>) -> (r: Vec<
    UnprocessedMetadataEntry,
>)
    ensures
        entries_vw(r@) == entries_vw(es@),
    decreases es,
{
    let mut r: Vec<UnprocessedMetadataEntry> = Vec::new();
    let n = es.len();
    for i in 0..n
        invariant
            r@.len() == i,
            forall|t: int| 0 <= t < i ==> #[trigger] r@[t]@ == es@[t]@,
    {
        let c = es[i].clone();
        r.push(c);
    }
    proof {
        lemma_entries_vw(r@);
        lemma_entries_vw(es@);
        assert(entries_vw(r@) =~= entries_vw(es@));
    }
    r
}

impl Clone for UnprocessedMetadataValue {
    /// A copy of the raw value, equal to it in value.
    fn clone(&self) -> (res: Self)
        ensures
            res@ == self@,
        decreases self,
    {
        match self {
            Self::IdentifierString((s, l)) => Self::IdentifierString((s.clone(), *l)),
            Self::String((s, l)) => Self::String((s.clone(), *l)),
            Self::Number((s, l)) => Self::Number((s.clone(), *l)),
            Self::Boolean((b, l)) => Self::Boolean((*b, *l)),
            Self::File { location, output, file_path } => Self::File {
                location: *location,
                output: *output,
                file_path: (file_path.0.clone(), file_path.1),
            },
            Self::List((es, l)) => Self::List((clone_unprocessed_entries(es), *l)),
        }
    }
}

impl Clone for UnprocessedMetadataEntry {
    /// A copy of the raw entry, equal to it in value.
    fn clone(&self) -> (res: Self)
        ensures
            res@ == self@,
        decreases self,
    {
        UnprocessedMetadataEntry {
            location: self.location,
            key: match &self.key {
                Some((k, l)) => Some((k.clone(), *l)),
                None => None,
            },
            value: self.value.clone(),
        }
    }
}

impl Clone for UnprocessedMetadata {
    /// A copy of the raw metadata node, equal to it in value, identity
    /// handle included.
    fn clone(&self) -> (res: Self)
        ensures
            res@ == self@,
        decreases self,
    {
        UnprocessedMetadata {
            id: self.id,
            location: self.location,
            name: (self.name.0.clone(), self.name.1),
            entries: match &self.entries {
                Some(es) => Some(clone_unprocessed_entries(es)),
                None => None,
            },
        }
    }
}

/// One declaration modifier: a visibility level, one of the plain modifier
/// keywords, or a reference to unresolved metadata. Declarations keep
/// their attributes as an ordered sequence, so that source order and
/// duplicate locations stay available for diagnostics.
pub enum Attribute {
    Metadata(UnprocessedMetadata),
    Public(Location),
    Private(Location),
    Protected(Location),
    Internal(Location),
    Proxy(Location),
    Final(Location),
    Native(Location),
    Static(Location),
    Abstract(Location),
    Override(Location),
}

/// Whether an attribute is one of the four visibility attributes.
pub open spec fn is_visibility_attr(a: Attribute) -> bool {
    a is Public || a is Private || a is Protected || a is Internal
}

/// The visibility level a visibility attribute names.
pub open spec fn vis_of(a: Attribute) -> Visibility {
    match a {
        Attribute::Public(_) => Visibility::Public,
        Attribute::Private(_) => Visibility::Private,
        Attribute::Protected(_) => Visibility::Protected,
        _ => Visibility::Internal,
    }
}

/// The first visibility attribute of the list, in source order.
pub open spec fn first_visibility(list: Seq<Attribute>) -> Option<Visibility>
    decreases list.len(),
{
    if list.len() == 0 {
        None
    } else if is_visibility_attr(list[0]) {
        Some(vis_of(list[0]))
    } else {
        first_visibility(list.skip(1))
    }
}

/// The visibility a declaration with these attributes has: always public
/// inside an interface body; otherwise the first visibility attribute in
/// source order, or internal when none is written.
pub open spec fn spec_visibility(list: Seq<Attribute>, at_interface_block: bool) -> Visibility {
    if at_interface_block {
        Visibility::Public
    } else {
        match first_visibility(list) {
            Some(v) => v,
            None => Visibility::Internal,
        }
    }
}

/// Whether the list holds any visibility attribute.
pub open spec fn spec_has_visibility(list: Seq<Attribute>) -> bool {
    first_visibility(list) is Some
}

/// Whether appending `a` to a declaration whose attributes are `list`
/// would duplicate a visibility attribute.
pub open spec fn spec_is_duplicate_visibility(list: Seq<Attribute>, a: Attribute) -> bool {
    is_visibility_attr(a) && spec_has_visibility(list)
}

/// Whether an attribute is a metadata node with the given identity.
pub open spec fn is_metadata_with_id(a: Attribute, id: u64) -> bool {
    a is Metadata && a->Metadata_0.id == id
}

/// The list with its first metadata node of the given identity removed.
pub open spec fn spec_remove_metadata(list: Seq<Attribute>, id: u64) -> Seq<Attribute>
    decreases list.len(),
{
    if list.len() == 0 {
        Seq::empty()
    } else if is_metadata_with_id(list[0], id) {
        list.skip(1)
    } else {
        seq![list[0]] + spec_remove_metadata(list.skip(1), id)
    }
}

/// The mathematical values of the metadata nodes of the list, in order.
pub open spec fn spec_find_metadata(list: Seq<Attribute>) -> Seq<UnprocessedMetadataVw>
    decreases list.len(),
{
    if list.len() == 0 {
        Seq::empty()
    } else {
        (if list[0] is Metadata {
            seq![list[0]->Metadata_0@]
        } else {
            Seq::<UnprocessedMetadataVw>::empty()
        }) + spec_find_metadata(list.skip(1))
    }
}

/// The source location an attribute covers.
pub open spec fn spec_attribute_location(a: Attribute) -> Location {
    match a {
        Attribute::Metadata(m) => m.location,
        Attribute::Public(l) => l,
        Attribute::Private(l) => l,
        Attribute::Protected(l) => l,
        Attribute::Internal(l) => l,
        Attribute::Proxy(l) => l,
        Attribute::Final(l) => l,
        Attribute::Native(l) => l,
        Attribute::Static(l) => l,
        Attribute::Abstract(l) => l,
        Attribute::Override(l) => l,
    }
}

/// Location of the first `Public` attribute of the list, if any.
pub open spec fn spec_find_public(list: Seq<Attribute>) -> Option<Location>
    decreases list.len(),
{
    if list.len() == 0 {
        None
    } else if list[0] is Public {
        Some(list[0]->Public_0)
    } else {
        spec_find_public(list.skip(1))
    }
}

/// Location of the first `Private` attribute of the list, if any.
pub open spec fn spec_find_private(list: Seq<Attribute>) -> Option<Location>
    decreases list.len(),
{
    if list.len() == 0 {
        None
    } else if list[0] is Private {
        Some(list[0]->Private_0)
    } else {
        spec_find_private(list.skip(1))
    }
}

/// Location of the first `Protected` attribute of the list, if any.
pub open spec fn spec_find_protected(list: Seq<Attribute>) -> Option<Location>
    decreases list.len(),
{
    if list.len() == 0 {
        None
    } else if list[0] is Protected {
        Some(list[0]->Protected_0)
    } else {
        spec_find_protected(list.skip(1))
    }
}

/// Location of the first `Internal` attribute of the list, if any.
pub open spec fn spec_find_internal(list: Seq<Attribute>) -> Option<Location>
    decreases list.len(),
{
    if list.len() == 0 {
        None
    } else if list[0] is Internal {
        Some(list[0]->Internal_0)
    } else {
        spec_find_internal(list.skip(1))
    }
}

/// Location of the first `Proxy` attribute of the list, if any.
pub open spec fn spec_find_proxy(list: Seq<Attribute>) -> Option<Location>
    decreases list.len(),
{
    if list.len() == 0 {
        None
    } else if list[0] is Proxy {
        Some(list[0]->Proxy_0)
    } else {
        spec_find_proxy(list.skip(1))
    }
}

/// Location of the first `Final` attribute of the list, if any.
pub open spec fn spec_find_final(list: Seq<Attribute>) -> Option<Location>
    decreases list.len(),
{
    if list.len() == 0 {
        None
    } else if list[0] is Final {
        Some(list[0]->Final_0)
    } else {
        spec_find_final(list.skip(1))
    }
}

/// Location of the first `Native` attribute of the list, if any.
pub open spec fn spec_find_native(list: Seq<Attribute>) -> Option<Location>
    decreases list.len(),
{
    if list.len() == 0 {
        None
    } else if list[0] is Native {
        Some(list[0]->Native_0)
    } else {
        spec_find_native(list.skip(1))
    }
}

/// Location of the first `Static` attribute of the list, if any.
pub open spec fn spec_find_static(list: Seq<Attribute>) -> Option<Location>
    decreases list.len(),
{
    if list.len() == 0 {
        None
    } else if list[0] is Static {
        Some(list[0]->Static_0)
    } else {
        spec_find_static(list.skip(1))
    }
}

/// Location of the first `Abstract` attribute of the list, if any.
pub open spec fn spec_find_abstract(list: Seq<Attribute>) -> Option<Location>
    decreases list.len(),
{
    if list.len() == 0 {
        None
    } else if list[0] is Abstract {
        Some(list[0]->Abstract_0)
    } else {
        spec_find_abstract(list.skip(1))
    }
}

/// Location of the first `Override` attribute of the list, if any.
pub open spec fn spec_find_override(list: Seq<Attribute>) -> Option<Location>
    decreases list.len(),
{
    if list.len() == 0 {
        None
    } else if list[0] is Override {
        Some(list[0]->Override_0)
    } else {
        spec_find_override(list.skip(1))
    }
}


/// Whether `a` names the same attribute keyword as `b`, with metadata
/// never counting as present.
pub open spec fn spec_has(list: Seq<Attribute>, a: Attribute) -> bool {
    match a {
        Attribute::Metadata(_) => false,
        Attribute::Public(_) => spec_find_public(list) is Some,
        Attribute::Private(_) => spec_find_private(list) is Some,
        Attribute::Protected(_) => spec_find_protected(list) is Some,
        Attribute::Internal(_) => spec_find_internal(list) is Some,
        Attribute::Proxy(_) => spec_find_proxy(list) is Some,
        Attribute::Final(_) => spec_find_final(list) is Some,
        Attribute::Native(_) => spec_find_native(list) is Some,
        Attribute::Static(_) => spec_find_static(list) is Some,
        Attribute::Abstract(_) => spec_find_abstract(list) is Some,
        Attribute::Override(_) => spec_find_override(list) is Some,
    }
}

/// Whether two strings hold the same characters.
#[verifier::loop_isolation(false)]
fn str_eq(a: &str, b: &str) -> (r: bool)
    ensures
        r == (a@ == b@),
{
    let alen = a.unicode_len();
    let blen = b.unicode_len();
    if alen != blen {
        return false;
    }
    let mut i: usize = 0;
    while i < alen
        invariant
            i <= alen,
            forall|t: int| 0 <= t < i ==> a@[t] == b@[t],
        decreases alen - i,
    {
        if a.get_char(i) != b.get_char(i) {
            return false;
        }
        i += 1;
    }
    assert(a@ =~= b@);
    true
}

/// The attribute a bare identifier token of this name denotes, if any.
/// Resolution applies only when the token's span covers exactly the
/// identifier: a longer span means the parser attached a suffix.
pub open spec fn spec_from_identifier_name(name: Seq<char>, location: Location) -> Option<
    Attribute,
> {
    if name == "proxy"@ {
        Some(Attribute::Proxy(location))
    } else if name == "final"@ {
        Some(Attribute::Final(location))
    } else if name == "native"@ {
        Some(Attribute::Native(location))
    } else if name == "static"@ {
        Some(Attribute::Static(location))
    } else if name == "abstract"@ {
        Some(Attribute::Abstract(location))
    } else if name == "override"@ {
        Some(Attribute::Override(location))
    } else {
        None
    }
}

impl Attribute {
    /// The source location this attribute covers.
    pub fn location(&self) -> (r: Location)
        ensures
            r == spec_attribute_location(*self),
    {
        match self {
            Self::Metadata(m) => m.location,
            Self::Public(a) => *a,
            Self::Private(a) => *a,
            Self::Protected(a) => *a,
            Self::Internal(a) => *a,
            Self::Proxy(a) => *a,
            Self::Final(a) => *a,
            Self::Native(a) => *a,
            Self::Static(a) => *a,
            Self::Abstract(a) => *a,
            Self::Override(a) => *a,
        }
    }

    /// The visibility of a declaration with these attributes: public
    /// unconditionally inside an interface body, else the first visibility
    /// attribute in source order, defaulting to internal.
    #[verifier::loop_isolation(false)]
    pub fn visibility(list: &Vec<Attribute>, at_interface_block: bool) -> (r: Visibility)
        ensures
            r == spec_visibility(list@, at_interface_block),
    {
        if at_interface_block {
            return Visibility::Public;
        }
        let n = list.len();
        assert(list@.skip(0) =~= list@);
        for i in 0..n
            invariant
                first_visibility(list@) == first_visibility(list@.skip(i as int)),
        {
            assert(list@.skip(i as int)[0] == list@[i as int]);
            match &list[i] {
                Attribute::Public(_) => { return Visibility::Public; },
                Attribute::Private(_) => { return Visibility::Private; },
                Attribute::Protected(_) => { return Visibility::Protected; },
                Attribute::Internal(_) => { return Visibility::Internal; },
                _ => {},
            }
            assert(list@.skip(i as int).skip(1) =~= list@.skip(i + 1));
        }
        assert(list@.skip(n as int) =~= Seq::<Attribute>::empty());
        Visibility::Internal
    }

    /// Whether the list holds any visibility attribute.
    #[verifier::loop_isolation(false)]
    pub fn has_visibility(list: &Vec<Attribute>) -> (r: bool)
        ensures
            r == spec_has_visibility(list@),
    {
        let n = list.len();
        assert(list@.skip(0) =~= list@);
        for i in 0..n
            invariant
                first_visibility(list@) == first_visibility(list@.skip(i as int)),
        {
            assert(list@.skip(i as int)[0] == list@[i as int]);
            match &list[i] {
                Attribute::Public(_) | Attribute::Private(_) | Attribute::Protected(_)
                    | Attribute::Internal(_) => { return true; },
                _ => {},
            }
            assert(list@.skip(i as int).skip(1) =~= list@.skip(i + 1));
        }
        assert(list@.skip(n as int) =~= Seq::<Attribute>::empty());
        false
    }

    /// Removes the metadata node with the given identity from the list, if
    /// present; identity comparison goes by node handle, never by
    /// structure.
    #[verifier::loop_isolation(false)]
    pub fn remove_metadata(list: &mut Vec<Attribute>, metadata: &UnprocessedMetadata)
        ensures
            final(list)@ == spec_remove_metadata(old(list)@, metadata.id),
    {
        let n = list.len();
        assert(list@.skip(0) =~= list@);
        for i in 0..n
            invariant
                list@ == old(list)@,
                forall|t: int| 0 <= t < i ==> !is_metadata_with_id(#[trigger] list@[t], metadata.id),
        {
            let found = match &list[i] {
                Attribute::Metadata(m1) => m1.id == metadata.id,
                _ => false,
            };
            if found {
                list.remove(i);
                proof {
                    lemma_remove_metadata_at(old(list)@, metadata.id, i as int);
                    assert(final(list)@ =~= spec_remove_metadata(old(list)@, metadata.id));
                }
                return ;
            }
        }
        proof {
            lemma_remove_metadata_none(list@, metadata.id);
        }
    }

    /// The metadata nodes of the list, in order.
    #[verifier::loop_isolation(false)]
    pub fn find_metadata(list: &Vec<Attribute>) -> (r: Vec<UnprocessedMetadata>)
        ensures
            r@.len() == spec_find_metadata(list@).len(),
            forall|t: int| 0 <= t < r@.len() ==> #[trigger] r@[t]@ == spec_find_metadata(list@)[t],
    {
        let mut r: Vec<UnprocessedMetadata> = Vec::new();
        let n = list.len();
        assert(list@.take(0) =~= Seq::<Attribute>::empty());
        for i in 0..n
            invariant
                r@.len() == spec_find_metadata(list@.take(i as int)).len(),
                forall|t: int| 0 <= t < r@.len() ==> #[trigger] r@[t]@ == spec_find_metadata(
                    list@.take(i as int),
                )[t],
        {
            if let Attribute::Metadata(e) = &list[i] {
                let c = e.clone();
                r.push(c);
            }
            proof {
                assert(list@.take(i + 1) =~= list@.take(i as int).push(list@[i as int]));
                lemma_find_metadata_push(list@.take(i as int), list@[i as int]);
            }
        }
        assert(list@.take(n as int) =~= list@);
        r
    }

    /// Finds the first `Public` attribute of the list.
    #[verifier::loop_isolation(false)]
    pub fn find_public(list: &Vec<Attribute>) -> (r: Option<Location>)
        ensures
            r == spec_find_public(list@),
    {
        let n = list.len();
        assert(list@.skip(0) =~= list@);
        for i in 0..n
            invariant
                spec_find_public(list@) == spec_find_public(list@.skip(i as int)),
        {
            assert(list@.skip(i as int)[0] == list@[i as int]);
            if let Attribute::Public(l) = &list[i] {
                return Some(*l);
            }
            assert(list@.skip(i as int).skip(1) =~= list@.skip(i + 1));
        }
        assert(list@.skip(n as int) =~= Seq::<Attribute>::empty());
        None
    }

    /// Finds the first `Private` attribute of the list.
    #[verifier::loop_isolation(false)]
    pub fn find_private(list: &Vec<Attribute>) -> (r: Option<Location>)
        ensures
            r == spec_find_private(list@),
    {
        let n = list.len();
        assert(list@.skip(0) =~= list@);
        for i in 0..n
            invariant
                spec_find_private(list@) == spec_find_private(list@.skip(i as int)),
        {
            assert(list@.skip(i as int)[0] == list@[i as int]);
            if let Attribute::Private(l) = &list[i] {
                return Some(*l);
            }
            assert(list@.skip(i as int).skip(1) =~= list@.skip(i + 1));
        }
        assert(list@.skip(n as int) =~= Seq::<Attribute>::empty());
        None
    }

    /// Finds the first `Protected` attribute of the list.
    #[verifier::loop_isolation(false)]
    pub fn find_protected(list: &Vec<Attribute>) -> (r: Option<Location>)
        ensures
            r == spec_find_protected(list@),
    {
        let n = list.len();
        assert(list@.skip(0) =~= list@);
        for i in 0..n
            invariant
                spec_find_protected(list@) == spec_find_protected(list@.skip(i as int)),
        {
            assert(list@.skip(i as int)[0] == list@[i as int]);
            if let Attribute::Protected(l) = &list[i] {
                return Some(*l);
            }
            assert(list@.skip(i as int).skip(1) =~= list@.skip(i + 1));
        }
        assert(list@.skip(n as int) =~= Seq::<Attribute>::empty());
        None
    }

    /// Finds the first `Internal` attribute of the list.
    #[verifier::loop_isolation(false)]
    pub fn find_internal(list: &Vec<Attribute>) -> (r: Option<Location>)
        ensures
            r == spec_find_internal(list@),
    {
        let n = list.len();
        assert(list@.skip(0) =~= list@);
        for i in 0..n
            invariant
                spec_find_internal(list@) == spec_find_internal(list@.skip(i as int)),
        {
            assert(list@.skip(i as int)[0] == list@[i as int]);
            if let Attribute::Internal(l) = &list[i] {
                return Some(*l);
            }
            assert(list@.skip(i as int).skip(1) =~= list@.skip(i + 1));
        }
        assert(list@.skip(n as int) =~= Seq::<Attribute>::empty());
        None
    }

    /// Finds the first `Proxy` attribute of the list.
    #[verifier::loop_isolation(false)]
    pub fn find_proxy(list: &Vec<Attribute>) -> (r: Option<Location>)
        ensures
            r == spec_find_proxy(list@),
    {
        let n = list.len();
        assert(list@.skip(0) =~= list@);
        for i in 0..n
            invariant
                spec_find_proxy(list@) == spec_find_proxy(list@.skip(i as int)),
        {
            assert(list@.skip(i as int)[0] == list@[i as int]);
            if let Attribute::Proxy(l) = &list[i] {
                return Some(*l);
            }
            assert(list@.skip(i as int).skip(1) =~= list@.skip(i + 1));
        }
        assert(list@.skip(n as int) =~= Seq::<Attribute>::empty());
        None
    }

    /// Finds the first `Final` attribute of the list.
    #[verifier::loop_isolation(false)]
    pub fn find_final(list: &Vec<Attribute>) -> (r: Option<Location>)
        ensures
            r == spec_find_final(list@),
    {
        let n = list.len();
        assert(list@.skip(0) =~= list@);
        for i in 0..n
            invariant
                spec_find_final(list@) == spec_find_final(list@.skip(i as int)),
        {
            assert(list@.skip(i as int)[0] == list@[i as int]);
            if let Attribute::Final(l) = &list[i] {
                return Some(*l);
            }
            assert(list@.skip(i as int).skip(1) =~= list@.skip(i + 1));
        }
        assert(list@.skip(n as int) =~= Seq::<Attribute>::empty());
        None
    }

    /// Finds the first `Native` attribute of the list.
    #[verifier::loop_isolation(false)]
    pub fn find_native(list: &Vec<Attribute>) -> (r: Option<Location>)
        ensures
            r == spec_find_native(list@),
    {
        let n = list.len();
        assert(list@.skip(0) =~= list@);
        for i in 0..n
            invariant
                spec_find_native(list@) == spec_find_native(list@.skip(i as int)),
        {
            assert(list@.skip(i as int)[0] == list@[i as int]);
            if let Attribute::Native(l) = &list[i] {
                return Some(*l);
            }
            assert(list@.skip(i as int).skip(1) =~= list@.skip(i + 1));
        }
        assert(list@.skip(n as int) =~= Seq::<Attribute>::empty());
        None
    }

    /// Finds the first `Static` attribute of the list.
    #[verifier::loop_isolation(false)]
    pub fn find_static(list: &Vec<Attribute>) -> (r: Option<Location>)
        ensures
            r == spec_find_static(list@),
    {
        let n = list.len();
        assert(list@.skip(0) =~= list@);
        for i in 0..n
            invariant
                spec_find_static(list@) == spec_find_static(list@.skip(i as int)),
        {
            assert(list@.skip(i as int)[0] == list@[i as int]);
            if let Attribute::Static(l) = &list[i] {
                return Some(*l);
            }
            assert(list@.skip(i as int).skip(1) =~= list@.skip(i + 1));
        }
        assert(list@.skip(n as int) =~= Seq::<Attribute>::empty());
        None
    }

    /// Finds the first `Abstract` attribute of the list.
    #[verifier::loop_isolation(false)]
    pub fn find_abstract(list: &Vec<Attribute>) -> (r: Option<Location>)
        ensures
            r == spec_find_abstract(list@),
    {
        let n = list.len();
        assert(list@.skip(0) =~= list@);
        for i in 0..n
            invariant
                spec_find_abstract(list@) == spec_find_abstract(list@.skip(i as int)),
        {
            assert(list@.skip(i as int)[0] == list@[i as int]);
            if let Attribute::Abstract(l) = &list[i] {
                return Some(*l);
            }
            assert(list@.skip(i as int).skip(1) =~= list@.skip(i + 1));
        }
        assert(list@.skip(n as int) =~= Seq::<Attribute>::empty());
        None
    }

    /// Finds the first `Override` attribute of the list.
    #[verifier::loop_isolation(false)]
    pub fn find_override(list: &Vec<Attribute>) -> (r: Option<Location>)
        ensures
            r == spec_find_override(list@),
    {
        let n = list.len();
        assert(list@.skip(0) =~= list@);
        for i in 0..n
            invariant
                spec_find_override(list@) == spec_find_override(list@.skip(i as int)),
        {
            assert(list@.skip(i as int)[0] == list@[i as int]);
            if let Attribute::Override(l) = &list[i] {
                return Some(*l);
            }
            assert(list@.skip(i as int).skip(1) =~= list@.skip(i + 1));
        }
        assert(list@.skip(n as int) =~= Seq::<Attribute>::empty());
        None
    }


    /// Whether the list holds an attribute of the same keyword as the
    /// given one; metadata never counts.
    pub fn has(list: &Vec<Attribute>, attribute: &Attribute) -> (r: bool)
        ensures
            r == spec_has(list@, *attribute),
    {
        match attribute {
            Self::Public(_) => Self::find_public(list).is_some(),
            Self::Private(_) => Self::find_private(list).is_some(),
            Self::Protected(_) => Self::find_protected(list).is_some(),
            Self::Internal(_) => Self::find_internal(list).is_some(),
            Self::Proxy(_) => Self::find_proxy(list).is_some(),
            Self::Final(_) => Self::find_final(list).is_some(),
            Self::Native(_) => Self::find_native(list).is_some(),
            Self::Static(_) => Self::find_static(list).is_some(),
            Self::Abstract(_) => Self::find_abstract(list).is_some(),
            Self::Override(_) => Self::find_override(list).is_some(),
            _ => false,
        }
    }

    /// Whether appending `attribute` to the list would duplicate a
    /// visibility attribute: true when it is a visibility attribute and
    /// the list already holds any visibility attribute.
    pub fn is_duplicate_visibility(list: &Vec<Attribute>, attribute: &Attribute) -> (r: bool)
        ensures
            r == spec_is_duplicate_visibility(list@, *attribute),
    {
        match attribute {
            Self::Public(_) | Self::Private(_) | Self::Protected(_) | Self::Internal(_) => Self::has_visibility(
                list,
            ),
            _ => false,
        }
    }

    /// Whether this attribute is `Metadata`.
    pub fn is_metadata(&self) -> (r: bool)
        ensures
            r == (self is Metadata),
    {
        matches!(self, Self::Metadata(_))
    }

    /// Whether this attribute is `Public`.
    pub fn is_public(&self) -> (r: bool)
        ensures
            r == (self is Public),
    {
        matches!(self, Self::Public(_))
    }

    /// Whether this attribute is `Private`.
    pub fn is_private(&self) -> (r: bool)
        ensures
            r == (self is Private),
    {
        matches!(self, Self::Private(_))
    }

    /// Whether this attribute is `Protected`.
    pub fn is_protected(&self) -> (r: bool)
        ensures
            r == (self is Protected),
    {
        matches!(self, Self::Protected(_))
    }

    /// Whether this attribute is `Internal`.
    pub fn is_internal(&self) -> (r: bool)
        ensures
            r == (self is Internal),
    {
        matches!(self, Self::Internal(_))
    }

    /// Whether this attribute is `Proxy`.
    pub fn is_proxy(&self) -> (r: bool)
        ensures
            r == (self is Proxy),
    {
        matches!(self, Self::Proxy(_))
    }

    /// Whether this attribute is `Final`.
    pub fn is_final(&self) -> (r: bool)
        ensures
            r == (self is Final),
    {
        matches!(self, Self::Final(_))
    }

    /// Whether this attribute is `Native`.
    pub fn is_native(&self) -> (r: bool)
        ensures
            r == (self is Native),
    {
        matches!(self, Self::Native(_))
    }

    /// Whether this attribute is `Static`.
    pub fn is_static(&self) -> (r: bool)
        ensures
            r == (self is Static),
    {
        matches!(self, Self::Static(_))
    }

    /// Whether this attribute is `Abstract`.
    pub fn is_abstract(&self) -> (r: bool)
        ensures
            r == (self is Abstract),
    {
        matches!(self, Self::Abstract(_))
    }

    /// Whether this attribute is `Override`.
    pub fn is_override(&self) -> (r: bool)
        ensures
            r == (self is Override),
    {
        matches!(self, Self::Override(_))
    }


    /// Maps a bare identifier token to the attribute it denotes, provided
    /// the token's span covers exactly the identifier; returns `None`
    /// otherwise. Not a diagnostic-producing failure: the caller falls
    /// back to other interpretations.
    pub fn from_identifier_name(name: &str, location: &Location) -> (r: Option<Attribute>)
        requires
            location.wf(),
        ensures
            location.last_offset - location.first_offset != name@.len() ==> r is None,
            location.last_offset - location.first_offset == name@.len() ==> r
                == spec_from_identifier_name(name@, *location),
    {
        if location.character_count() != name.unicode_len() {
            return None;
        }
        if str_eq(name, "proxy") {
            Some(Attribute::Proxy(*location))
        } else if str_eq(name, "final") {
            Some(Attribute::Final(*location))
        } else if str_eq(name, "native") {
            Some(Attribute::Native(*location))
        } else if str_eq(name, "static") {
            Some(Attribute::Static(*location))
        } else if str_eq(name, "abstract") {
            Some(Attribute::Abstract(*location))
        } else if str_eq(name, "override") {
            Some(Attribute::Override(*location))
        } else {
            None
        }
    }
}

/// Removing a metadata node found at the first matching position takes
/// exactly that element out.
proof fn lemma_remove_metadata_at(list: Seq<Attribute>, id: u64, i: int)
    requires
        0 <= i < list.len(),
        is_metadata_with_id(list[i], id),
        forall|t: int| 0 <= t < i ==> !is_metadata_with_id(#[trigger] list[t], id),
    ensures
        spec_remove_metadata(list, id) == list.subrange(0, i) + list.skip(i + 1),
    decreases i,
{
    if i == 0 {
        assert(list.subrange(0, 0) + list.skip(1) =~= list.skip(1));
    } else {
        assert forall|t: int| 0 <= t < i - 1 implies !is_metadata_with_id(
            #[trigger] list.skip(1)[t],
            id,
        ) by {
            assert(list.skip(1)[t] == list[t + 1]);
        }
        assert(list.skip(1)[i - 1] == list[i]);
        lemma_remove_metadata_at(list.skip(1), id, i - 1);
        assert(list.skip(1).subrange(0, i - 1) =~= list.subrange(1, i));
        assert(list.skip(1).skip(i) =~= list.skip(i + 1));
        assert(seq![list[0]] + (list.subrange(1, i) + list.skip(i + 1)) =~= list.subrange(0, i)
            + list.skip(i + 1));
    }
}

/// Without a matching metadata node, removal leaves the list unchanged.
proof fn lemma_remove_metadata_none(list: Seq<Attribute>, id: u64)
    requires
        forall|t: int| 0 <= t < list.len() ==> !is_metadata_with_id(#[trigger] list[t], id),
    ensures
        spec_remove_metadata(list, id) == list,
    decreases list.len(),
{
    if list.len() == 0 {
        assert(spec_remove_metadata(list, id) =~= list);
    } else {
        assert forall|t: int| 0 <= t < list.skip(1).len() implies !is_metadata_with_id(
            #[trigger] list.skip(1)[t],
            id,
        ) by {
            assert(list.skip(1)[t] == list[t + 1]);
        }
        lemma_remove_metadata_none(list.skip(1), id);
        assert(seq![list[0]] + list.skip(1) =~= list);
    }
}

/// Appending one attribute extends the found metadata by its node, when
/// it is one.
proof fn lemma_find_metadata_push(list: Seq<Attribute>, x: Attribute)
    ensures
        spec_find_metadata(list.push(x)) == spec_find_metadata(list) + (if x is Metadata {
            seq![x->Metadata_0@]
        } else {
            Seq::<UnprocessedMetadataVw>::empty()
        }),
    decreases list.len(),
{
    if list.len() == 0 {
        assert(list.push(x).skip(1) =~= Seq::<Attribute>::empty());
        assert(list.push(x)[0] == x);
        assert(spec_find_metadata(Seq::<Attribute>::empty()) =~= Seq::<UnprocessedMetadataVw>::empty());
        assert(spec_find_metadata(list.push(x)) =~= spec_find_metadata(list) + (if x is Metadata {
            seq![x->Metadata_0@]
        } else {
            Seq::<UnprocessedMetadataVw>::empty()
        }));
    } else {
        assert(list.push(x).skip(1) =~= list.skip(1).push(x));
        assert(list.push(x)[0] == list[0]);
        lemma_find_metadata_push(list.skip(1), x);
        assert(spec_find_metadata(list.push(x)) =~= spec_find_metadata(list) + (if x is Metadata {
            seq![x->Metadata_0@]
        } else {
            Seq::<UnprocessedMetadataVw>::empty()
        }));
    }
}

/// Inside an interface body every member is public, whatever the
/// attribute list holds.
pub proof fn lemma_visibility_interface_block(list: Seq<Attribute>)
    ensures
        spec_visibility(list, true) == Visibility::Public,
{
}

/// With no visibility attribute in the list, visibility defaults to
/// internal.
pub proof fn lemma_visibility_default(list: Seq<Attribute>)
    requires
        forall|i: int| 0 <= i < list.len() ==> !is_visibility_attr(#[trigger] list[i]),
    ensures
        spec_visibility(list, false) == Visibility::Internal,
    decreases list.len(),
{
    if list.len() > 0 {
        assert forall|i: int| 0 <= i < list.skip(1).len() implies !is_visibility_attr(
            #[trigger] list.skip(1)[i],
        ) by {
            assert(list.skip(1)[i] == list[i + 1]);
        }
        lemma_visibility_default(list.skip(1));
    }
}

/// With exactly one visibility attribute in the list, visibility
/// resolution returns it, and any visibility attribute counts as a
/// duplicate against the list.
pub proof fn lemma_visibility_single(list: Seq<Attribute>, i: int, other: Attribute)
    requires
        0 <= i < list.len(),
        is_visibility_attr(list[i]),
        forall|j: int| 0 <= j < list.len() && j != i ==> !is_visibility_attr(#[trigger] list[j]),
        is_visibility_attr(other),
    ensures
        spec_visibility(list, false) == vis_of(list[i]),
        spec_is_duplicate_visibility(list, other),
    decreases i,
{
    if i == 0 {
    } else {
        assert forall|j: int| 0 <= j < list.skip(1).len() && j != i - 1 implies !is_visibility_attr(
            #[trigger] list.skip(1)[j],
        ) by {
            assert(list.skip(1)[j] == list[j + 1]);
        }
        assert(list.skip(1)[i - 1] == list[i]);
        lemma_visibility_single(list.skip(1), i - 1, other);
        assert(!is_visibility_attr(list[0]));
    }
}

} // verus!
