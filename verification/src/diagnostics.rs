use vstd::prelude::*;
use vstd::string::StrSliceExecFns;
use crate::location::Location;

verus! {

/// The kind tag of a diagnostic.
///
/// Each kind carries a stable numeric identifier used when rendering
/// diagnostics; `id` returns it.
#[derive(Eq, PartialEq, Structural, Clone, Copy, Debug, Hash)]
pub enum DiagnosticKind {
    UnexpectedOrInvalidToken,
    UnexpectedEnd,
    UnallowedNumericSuffix,
    UnallowedLineBreak,
    Expected,
    ExpectedIdentifier,
    ExpectedExpression,
    ExpectedXmlName,
    ExpectedXmlAttributeValue,
    IllegalNullishCoalescingLeftOperand,
    WrongParameterPosition,
    DuplicateRestParameter,
    NotAllowedHere,
    MalformedRestParameter,
    IllegalForInInitializer,
    MultipleForInBindings,
    UndefinedLabel,
    IllegalContinue,
    IllegalBreak,
    ExpressionMustNotFollowLineBreak,
    TokenMustNotFollowLineBreak,
    ExpectedStringLiteral,
    DuplicateAttribute,
    DuplicateVisibility,
    ExpectedDirectiveKeyword,
    UnallowedAttribute,
    MalformedEnumMember,
    FunctionMayNotBeGenerator,
    FunctionMayNotBeAsynchronous,
    FunctionMustNotContainBody,
    FunctionMustContainBody,
    FunctionMustNotContainAnnotations,
    NestedClassesNotAllowed,
    DirectiveNotAllowedInInterface,
    FailedParsingJetDocTag,
    UnrecognizedJetDocTag,
    UnrecognizedProxy,
    EnumMembersMustBeConst,
    ConstructorMustNotSpecifyResultType,
    IncompatibleTypes,
    ReferenceIsWriteOnly,
    ReferenceIsReadOnly,
    ReferenceIsNotDeletable,
    AmbiguousReference,
    AccessingPropertyOfVoidBase,
    AccessingPropertyOfNullableBase,
    InaccessibleProperty,
    ParameterizedTypeMustBeArgumented,
    UnrecognizedEmbedExpressionField,
    MustResolveToType,
    EmbedSourceOrTypeNotSpecified,
    EmbedUnsupportedType,
    FailedLoadingEmbeddedFile,
    FailedParsingNumericLiteral,
    StringLiteralMustBeASingleCharacter,
    EnumerationHasNoMember,
    UnrecognizedMetadataSyntax,
    FailedLoadingMetadataFile,
    IllegalThisReference,
    CannotUseTypeInRest,
    ArrayLiteralMustNotContainElision,
    ArrayLiteralMustNotContainRest,
    ArrayLiteralExceedingTupleElements,
    InitializerUnsupportedType,
    UndefinedProperty,
    IncompatibleFieldKey,
    MissingPropertyInLiteral,
}

impl DiagnosticKind {
    /// The stable numeric identifier of this kind.
    pub open spec fn spec_id(self) -> i32 {
        match self {
            DiagnosticKind::UnexpectedOrInvalidToken => 1024,
            DiagnosticKind::UnexpectedEnd => 1025,
            DiagnosticKind::UnallowedNumericSuffix => 1026,
            DiagnosticKind::UnallowedLineBreak => 1027,
            DiagnosticKind::Expected => 1028,
            DiagnosticKind::ExpectedIdentifier => 1029,
            DiagnosticKind::ExpectedExpression => 1030,
            DiagnosticKind::ExpectedXmlName => 1031,
            DiagnosticKind::ExpectedXmlAttributeValue => 1032,
            DiagnosticKind::IllegalNullishCoalescingLeftOperand => 1033,
            DiagnosticKind::WrongParameterPosition => 1034,
            DiagnosticKind::DuplicateRestParameter => 1035,
            DiagnosticKind::NotAllowedHere => 1036,
            DiagnosticKind::MalformedRestParameter => 1037,
            DiagnosticKind::IllegalForInInitializer => 1038,
            DiagnosticKind::MultipleForInBindings => 1039,
            DiagnosticKind::UndefinedLabel => 1040,
            DiagnosticKind::IllegalContinue => 1041,
            DiagnosticKind::IllegalBreak => 1042,
            DiagnosticKind::ExpressionMustNotFollowLineBreak => 1043,
            DiagnosticKind::TokenMustNotFollowLineBreak => 1044,
            DiagnosticKind::ExpectedStringLiteral => 1045,
            DiagnosticKind::DuplicateAttribute => 1046,
            DiagnosticKind::DuplicateVisibility => 1047,
            DiagnosticKind::ExpectedDirectiveKeyword => 1048,
            DiagnosticKind::UnallowedAttribute => 1049,
            DiagnosticKind::MalformedEnumMember => 1051,
            DiagnosticKind::FunctionMayNotBeGenerator => 1052,
            DiagnosticKind::FunctionMayNotBeAsynchronous => 1053,
            DiagnosticKind::FunctionMustNotContainBody => 1054,
            DiagnosticKind::FunctionMustContainBody => 1055,
            DiagnosticKind::FunctionMustNotContainAnnotations => 1056,
            DiagnosticKind::NestedClassesNotAllowed => 1057,
            DiagnosticKind::DirectiveNotAllowedInInterface => 1058,
            DiagnosticKind::FailedParsingJetDocTag => 1059,
            DiagnosticKind::UnrecognizedJetDocTag => 1060,
            DiagnosticKind::UnrecognizedProxy => 1061,
            DiagnosticKind::EnumMembersMustBeConst => 1062,
            DiagnosticKind::ConstructorMustNotSpecifyResultType => 1063,
            DiagnosticKind::IncompatibleTypes => 1064,
            DiagnosticKind::ReferenceIsWriteOnly => 1065,
            DiagnosticKind::ReferenceIsReadOnly => 1066,
            DiagnosticKind::ReferenceIsNotDeletable => 1067,
            DiagnosticKind::AmbiguousReference => 1068,
            DiagnosticKind::AccessingPropertyOfVoidBase => 1069,
            DiagnosticKind::AccessingPropertyOfNullableBase => 1070,
            DiagnosticKind::InaccessibleProperty => 1071,
            DiagnosticKind::ParameterizedTypeMustBeArgumented => 1072,
            DiagnosticKind::UnrecognizedEmbedExpressionField => 1073,
            DiagnosticKind::MustResolveToType => 1074,
            DiagnosticKind::EmbedSourceOrTypeNotSpecified => 1075,
            DiagnosticKind::EmbedUnsupportedType => 1076,
            DiagnosticKind::FailedLoadingEmbeddedFile => 1077,
            DiagnosticKind::FailedParsingNumericLiteral => 1078,
            DiagnosticKind::StringLiteralMustBeASingleCharacter => 1079,
            DiagnosticKind::EnumerationHasNoMember => 1080,
            DiagnosticKind::UnrecognizedMetadataSyntax => 1081,
            DiagnosticKind::FailedLoadingMetadataFile => 1082,
            DiagnosticKind::IllegalThisReference => 1083,
            DiagnosticKind::CannotUseTypeInRest => 1084,
            DiagnosticKind::ArrayLiteralMustNotContainElision => 1085,
            DiagnosticKind::ArrayLiteralMustNotContainRest => 1086,
            DiagnosticKind::ArrayLiteralExceedingTupleElements => 1087,
            DiagnosticKind::InitializerUnsupportedType => 1088,
            DiagnosticKind::UndefinedProperty => 1089,
            DiagnosticKind::IncompatibleFieldKey => 1090,
            DiagnosticKind::MissingPropertyInLiteral => 1091,
        }
    }

    /// Returns the stable numeric identifier of this kind.
    pub fn id(&self) -> (r: i32)
        ensures
            r == self.spec_id(),
    {
        match self {
            Self::UnexpectedOrInvalidToken => 1024,
            Self::UnexpectedEnd => 1025,
            Self::UnallowedNumericSuffix => 1026,
            Self::UnallowedLineBreak => 1027,
            Self::Expected => 1028,
            Self::ExpectedIdentifier => 1029,
            Self::ExpectedExpression => 1030,
            Self::ExpectedXmlName => 1031,
            Self::ExpectedXmlAttributeValue => 1032,
            Self::IllegalNullishCoalescingLeftOperand => 1033,
            Self::WrongParameterPosition => 1034,
            Self::DuplicateRestParameter => 1035,
            Self::NotAllowedHere => 1036,
            Self::MalformedRestParameter => 1037,
            Self::IllegalForInInitializer => 1038,
            Self::MultipleForInBindings => 1039,
            Self::UndefinedLabel => 1040,
            Self::IllegalContinue => 1041,
            Self::IllegalBreak => 1042,
            Self::ExpressionMustNotFollowLineBreak => 1043,
            Self::TokenMustNotFollowLineBreak => 1044,
            Self::ExpectedStringLiteral => 1045,
            Self::DuplicateAttribute => 1046,
            Self::DuplicateVisibility => 1047,
            Self::ExpectedDirectiveKeyword => 1048,
            Self::UnallowedAttribute => 1049,
            Self::MalformedEnumMember => 1051,
            Self::FunctionMayNotBeGenerator => 1052,
            Self::FunctionMayNotBeAsynchronous => 1053,
            Self::FunctionMustNotContainBody => 1054,
            Self::FunctionMustContainBody => 1055,
            Self::FunctionMustNotContainAnnotations => 1056,
            Self::NestedClassesNotAllowed => 1057,
            Self::DirectiveNotAllowedInInterface => 1058,
            Self::FailedParsingJetDocTag => 1059,
            Self::UnrecognizedJetDocTag => 1060,
            Self::UnrecognizedProxy => 1061,
            Self::EnumMembersMustBeConst => 1062,
            Self::ConstructorMustNotSpecifyResultType => 1063,
            Self::IncompatibleTypes => 1064,
            Self::ReferenceIsWriteOnly => 1065,
            Self::ReferenceIsReadOnly => 1066,
            Self::ReferenceIsNotDeletable => 1067,
            Self::AmbiguousReference => 1068,
            Self::AccessingPropertyOfVoidBase => 1069,
            Self::AccessingPropertyOfNullableBase => 1070,
            Self::InaccessibleProperty => 1071,
            Self::ParameterizedTypeMustBeArgumented => 1072,
            Self::UnrecognizedEmbedExpressionField => 1073,
            Self::MustResolveToType => 1074,
            Self::EmbedSourceOrTypeNotSpecified => 1075,
            Self::EmbedUnsupportedType => 1076,
            Self::FailedLoadingEmbeddedFile => 1077,
            Self::FailedParsingNumericLiteral => 1078,
            Self::StringLiteralMustBeASingleCharacter => 1079,
            Self::EnumerationHasNoMember => 1080,
            Self::UnrecognizedMetadataSyntax => 1081,
            Self::FailedLoadingMetadataFile => 1082,
            Self::IllegalThisReference => 1083,
            Self::CannotUseTypeInRest => 1084,
            Self::ArrayLiteralMustNotContainElision => 1085,
            Self::ArrayLiteralMustNotContainRest => 1086,
            Self::ArrayLiteralExceedingTupleElements => 1087,
            Self::InitializerUnsupportedType => 1088,
            Self::UndefinedProperty => 1089,
            Self::IncompatibleFieldKey => 1090,
            Self::MissingPropertyInLiteral => 1091,
        }
    }
}

/// One recorded error or warning of a translation unit.
#[derive(Debug)]
pub struct Diagnostic {
    /// Where in the source the diagnostic points.
    pub location: Location,
    /// What the diagnostic reports.
    pub kind: DiagnosticKind,
    /// Whether the diagnostic is a warning; anything else is an error.
    pub warning: bool,
    /// Arguments interpolated into the rendered message.
    pub arguments: Vec<String>,
}

/// The mathematical value of a `Diagnostic`, with its arguments as
/// character sequences.
pub ghost struct DiagnosticVw {
    pub location: Location,
    pub kind: DiagnosticKind,
    pub warning: bool,
    pub arguments: Seq<Seq<char>>,
}

impl View for Diagnostic {
    type V = DiagnosticVw;

    open spec fn view(&self) -> DiagnosticVw {
        DiagnosticVw {
            location: self.location,
            kind: self.kind,
            warning: self.warning,
            arguments: self.arguments.deep_view(),
        }
    }
}

impl DeepView for Diagnostic {
    type V = DiagnosticVw;

    open spec fn deep_view(&self) -> DiagnosticVw {
        self.view()
    }
}

/// Copies a vector of strings, keeping each string's characters.
pub(crate) fn clone_string_vec(v: &Vec<String>) -> (r: Vec<String>)
    ensures
        r.deep_view() == v.deep_view(),
{
    let mut r: Vec<String> = Vec::new();
    let n = v.len();
    for i in 0..n
        invariant
            n == v@.len(),
            r@.len() == i,
            forall|t: int| 0 <= t < i ==> #[trigger] r@[t]@ == v@[t]@,
    {
        let x = v[i].clone();
        r.push(x);
    }
    assert(r.deep_view() =~= v.deep_view());
    r
}

impl Clone for Diagnostic {
    /// A copy of the diagnostic, equal to it in value.
    fn clone(&self) -> (res: Self)
        ensures
            res@ == self@,
    {
        Diagnostic {
            location: self.location,
            kind: self.kind,
            warning: self.warning,
            arguments: clone_string_vec(&self.arguments),
        }
    }
}

impl Diagnostic {
    /// Whether this diagnostic is a warning rather than an error.
    pub fn is_warning(&self) -> (r: bool)
        ensures
            r == self.warning,
    {
        self.warning
    }
}

/// The kind whose stable identifier is `i`; identifiers and kinds
/// correspond one to one.
pub open spec fn kind_of_id(i: int) -> DiagnosticKind {
    if i == 1024 {
        DiagnosticKind::UnexpectedOrInvalidToken
    } else if i == 1025 {
        DiagnosticKind::UnexpectedEnd
    } else if i == 1026 {
        DiagnosticKind::UnallowedNumericSuffix
    } else if i == 1027 {
        DiagnosticKind::UnallowedLineBreak
    } else if i == 1028 {
        DiagnosticKind::Expected
    } else if i == 1029 {
        DiagnosticKind::ExpectedIdentifier
    } else if i == 1030 {
        DiagnosticKind::ExpectedExpression
    } else if i == 1031 {
        DiagnosticKind::ExpectedXmlName
    } else if i == 1032 {
        DiagnosticKind::ExpectedXmlAttributeValue
    } else if i == 1033 {
        DiagnosticKind::IllegalNullishCoalescingLeftOperand
    } else if i == 1034 {
        DiagnosticKind::WrongParameterPosition
    } else if i == 1035 {
        DiagnosticKind::DuplicateRestParameter
    } else if i == 1036 {
        DiagnosticKind::NotAllowedHere
    } else if i == 1037 {
        DiagnosticKind::MalformedRestParameter
    } else if i == 1038 {
        DiagnosticKind::IllegalForInInitializer
    } else if i == 1039 {
        DiagnosticKind::MultipleForInBindings
    } else if i == 1040 {
        DiagnosticKind::UndefinedLabel
    } else if i == 1041 {
        DiagnosticKind::IllegalContinue
    } else if i == 1042 {
        DiagnosticKind::IllegalBreak
    } else if i == 1043 {
        DiagnosticKind::ExpressionMustNotFollowLineBreak
    } else if i == 1044 {
        DiagnosticKind::TokenMustNotFollowLineBreak
    } else if i == 1045 {
        DiagnosticKind::ExpectedStringLiteral
    } else if i == 1046 {
        DiagnosticKind::DuplicateAttribute
    } else if i == 1047 {
        DiagnosticKind::DuplicateVisibility
    } else if i == 1048 {
        DiagnosticKind::ExpectedDirectiveKeyword
    } else if i == 1049 {
        DiagnosticKind::UnallowedAttribute
    } else if i == 1051 {
        DiagnosticKind::MalformedEnumMember
    } else if i == 1052 {
        DiagnosticKind::FunctionMayNotBeGenerator
    } else if i == 1053 {
        DiagnosticKind::FunctionMayNotBeAsynchronous
    } else if i == 1054 {
        DiagnosticKind::FunctionMustNotContainBody
    } else if i == 1055 {
        DiagnosticKind::FunctionMustContainBody
    } else if i == 1056 {
        DiagnosticKind::FunctionMustNotContainAnnotations
    } else if i == 1057 {
        DiagnosticKind::NestedClassesNotAllowed
    } else if i == 1058 {
        DiagnosticKind::DirectiveNotAllowedInInterface
    } else if i == 1059 {
        DiagnosticKind::FailedParsingJetDocTag
    } else if i == 1060 {
        DiagnosticKind::UnrecognizedJetDocTag
    } else if i == 1061 {
        DiagnosticKind::UnrecognizedProxy
    } else if i == 1062 {
        DiagnosticKind::EnumMembersMustBeConst
    } else if i == 1063 {
        DiagnosticKind::ConstructorMustNotSpecifyResultType
    } else if i == 1064 {
        DiagnosticKind::IncompatibleTypes
    } else if i == 1065 {
        DiagnosticKind::ReferenceIsWriteOnly
    } else if i == 1066 {
        DiagnosticKind::ReferenceIsReadOnly
    } else if i == 1067 {
        DiagnosticKind::ReferenceIsNotDeletable
    } else if i == 1068 {
        DiagnosticKind::AmbiguousReference
    } else if i == 1069 {
        DiagnosticKind::AccessingPropertyOfVoidBase
    } else if i == 1070 {
        DiagnosticKind::AccessingPropertyOfNullableBase
    } else if i == 1071 {
        DiagnosticKind::InaccessibleProperty
    } else if i == 1072 {
        DiagnosticKind::ParameterizedTypeMustBeArgumented
    } else if i == 1073 {
        DiagnosticKind::UnrecognizedEmbedExpressionField
    } else if i == 1074 {
        DiagnosticKind::MustResolveToType
    } else if i == 1075 {
        DiagnosticKind::EmbedSourceOrTypeNotSpecified
    } else if i == 1076 {
        DiagnosticKind::EmbedUnsupportedType
    } else if i == 1077 {
        DiagnosticKind::FailedLoadingEmbeddedFile
    } else if i == 1078 {
        DiagnosticKind::FailedParsingNumericLiteral
    } else if i == 1079 {
        DiagnosticKind::StringLiteralMustBeASingleCharacter
    } else if i == 1080 {
        DiagnosticKind::EnumerationHasNoMember
    } else if i == 1081 {
        DiagnosticKind::UnrecognizedMetadataSyntax
    } else if i == 1082 {
        DiagnosticKind::FailedLoadingMetadataFile
    } else if i == 1083 {
        DiagnosticKind::IllegalThisReference
    } else if i == 1084 {
        DiagnosticKind::CannotUseTypeInRest
    } else if i == 1085 {
        DiagnosticKind::ArrayLiteralMustNotContainElision
    } else if i == 1086 {
        DiagnosticKind::ArrayLiteralMustNotContainRest
    } else if i == 1087 {
        DiagnosticKind::ArrayLiteralExceedingTupleElements
    } else if i == 1088 {
        DiagnosticKind::InitializerUnsupportedType
    } else if i == 1089 {
        DiagnosticKind::UndefinedProperty
    } else if i == 1090 {
        DiagnosticKind::IncompatibleFieldKey
    } else if i == 1091 {
        DiagnosticKind::MissingPropertyInLiteral
    } else {
        DiagnosticKind::UnexpectedOrInvalidToken
    }
}

/// Every kind is recovered from its identifier, so identifiers are
/// distinct across kinds.
#[verifier::rlimit(100)]
pub proof fn lemma_kind_id_roundtrip(k: DiagnosticKind)
    ensures
        kind_of_id(k.spec_id() as int) == k,
{
    match k {
        DiagnosticKind::UnexpectedOrInvalidToken => {},
        DiagnosticKind::UnexpectedEnd => {},
        DiagnosticKind::UnallowedNumericSuffix => {},
        DiagnosticKind::UnallowedLineBreak => {},
        DiagnosticKind::Expected => {},
        DiagnosticKind::ExpectedIdentifier => {},
        DiagnosticKind::ExpectedExpression => {},
        DiagnosticKind::ExpectedXmlName => {},
        DiagnosticKind::ExpectedXmlAttributeValue => {},
        DiagnosticKind::IllegalNullishCoalescingLeftOperand => {},
        DiagnosticKind::WrongParameterPosition => {},
        DiagnosticKind::DuplicateRestParameter => {},
        DiagnosticKind::NotAllowedHere => {},
        DiagnosticKind::MalformedRestParameter => {},
        DiagnosticKind::IllegalForInInitializer => {},
        DiagnosticKind::MultipleForInBindings => {},
        DiagnosticKind::UndefinedLabel => {},
        DiagnosticKind::IllegalContinue => {},
        DiagnosticKind::IllegalBreak => {},
        DiagnosticKind::ExpressionMustNotFollowLineBreak => {},
        DiagnosticKind::TokenMustNotFollowLineBreak => {},
        DiagnosticKind::ExpectedStringLiteral => {},
        DiagnosticKind::DuplicateAttribute => {},
        DiagnosticKind::DuplicateVisibility => {},
        DiagnosticKind::ExpectedDirectiveKeyword => {},
        DiagnosticKind::UnallowedAttribute => {},
        DiagnosticKind::MalformedEnumMember => {},
        DiagnosticKind::FunctionMayNotBeGenerator => {},
        DiagnosticKind::FunctionMayNotBeAsynchronous => {},
        DiagnosticKind::FunctionMustNotContainBody => {},
        DiagnosticKind::FunctionMustContainBody => {},
        DiagnosticKind::FunctionMustNotContainAnnotations => {},
        DiagnosticKind::NestedClassesNotAllowed => {},
        DiagnosticKind::DirectiveNotAllowedInInterface => {},
        DiagnosticKind::FailedParsingJetDocTag => {},
        DiagnosticKind::UnrecognizedJetDocTag => {},
        DiagnosticKind::UnrecognizedProxy => {},
        DiagnosticKind::EnumMembersMustBeConst => {},
        DiagnosticKind::ConstructorMustNotSpecifyResultType => {},
        DiagnosticKind::IncompatibleTypes => {},
        DiagnosticKind::ReferenceIsWriteOnly => {},
        DiagnosticKind::ReferenceIsReadOnly => {},
        DiagnosticKind::ReferenceIsNotDeletable => {},
        DiagnosticKind::AmbiguousReference => {},
        DiagnosticKind::AccessingPropertyOfVoidBase => {},
        DiagnosticKind::AccessingPropertyOfNullableBase => {},
        DiagnosticKind::InaccessibleProperty => {},
        DiagnosticKind::ParameterizedTypeMustBeArgumented => {},
        DiagnosticKind::UnrecognizedEmbedExpressionField => {},
        DiagnosticKind::MustResolveToType => {},
        DiagnosticKind::EmbedSourceOrTypeNotSpecified => {},
        DiagnosticKind::EmbedUnsupportedType => {},
        DiagnosticKind::FailedLoadingEmbeddedFile => {},
        DiagnosticKind::FailedParsingNumericLiteral => {},
        DiagnosticKind::StringLiteralMustBeASingleCharacter => {},
        DiagnosticKind::EnumerationHasNoMember => {},
        DiagnosticKind::UnrecognizedMetadataSyntax => {},
        DiagnosticKind::FailedLoadingMetadataFile => {},
        DiagnosticKind::IllegalThisReference => {},
        DiagnosticKind::CannotUseTypeInRest => {},
        DiagnosticKind::ArrayLiteralMustNotContainElision => {},
        DiagnosticKind::ArrayLiteralMustNotContainRest => {},
        DiagnosticKind::ArrayLiteralExceedingTupleElements => {},
        DiagnosticKind::InitializerUnsupportedType => {},
        DiagnosticKind::UndefinedProperty => {},
        DiagnosticKind::IncompatibleFieldKey => {},
        DiagnosticKind::MissingPropertyInLiteral => {},
    }
}

/// Strict lexicographic order on character sequences, by scalar value; a
/// proper prefix orders before its extensions.
pub open spec fn chars_lt(a: Seq<char>, b: Seq<char>) -> bool
    decreases a.len(),
{
    if b.len() == 0 {
        false
    } else if a.len() == 0 {
        true
    } else if a[0] != b[0] {
        (a[0] as int) < (b[0] as int)
    } else {
        chars_lt(a.skip(1), b.skip(1))
    }
}

/// Of two character sequences, exactly one of "equal", "first orders
/// first" and "second orders first" holds.
pub proof fn lemma_chars_trichotomy(a: Seq<char>, b: Seq<char>)
    ensures
        a == b ==> !chars_lt(a, b) && !chars_lt(b, a),
        chars_lt(a, b) ==> a != b && !chars_lt(b, a),
        !chars_lt(a, b) && !chars_lt(b, a) ==> a == b,
    decreases a.len() + b.len(),
{
    if a.len() > 0 && b.len() > 0 && a[0] == b[0] {
        lemma_chars_trichotomy(a.skip(1), b.skip(1));
        if a.skip(1) == b.skip(1) {
            assert forall|t: int| 0 <= t < a.len() implies a[t] == b[t] by {
                if t > 0 {
                    assert(a.skip(1)[t - 1] == b.skip(1)[t - 1]);
                }
            }
            assert(a =~= b);
        }
        if a == b {
            assert(a.skip(1) =~= b.skip(1));
        }
    } else if a.len() > 0 && b.len() > 0 {
        assert((a[0] as int) != (b[0] as int));
        assert(a != b) by {
            if a == b {
                assert(a[0] == b[0]);
            }
        }
    } else if a.len() == 0 && b.len() == 0 {
        assert(a =~= b);
    }
}

/// The strict order on character sequences composes.
pub proof fn lemma_chars_lt_trans(a: Seq<char>, b: Seq<char>, c: Seq<char>)
    requires
        chars_lt(a, b),
        chars_lt(b, c),
    ensures
        chars_lt(a, c),
    decreases a.len() + b.len() + c.len(),
{
    if a.len() > 0 && a[0] == b[0] && b[0] == c[0] {
        lemma_chars_lt_trans(a.skip(1), b.skip(1), c.skip(1));
    }
}

/// Lexicographic order on sequences of strings: shorter-prefix first,
/// element order by `chars_lt`.
pub open spec fn strings_le(x: Seq<Seq<char>>, y: Seq<Seq<char>>) -> bool
    decreases x.len(),
{
    if x.len() == 0 {
        true
    } else if y.len() == 0 {
        false
    } else if x[0] != y[0] {
        chars_lt(x[0], y[0])
    } else {
        strings_le(x.skip(1), y.skip(1))
    }
}

/// The string-sequence order is total.
pub proof fn lemma_strings_le_total(x: Seq<Seq<char>>, y: Seq<Seq<char>>)
    ensures
        strings_le(x, y) || strings_le(y, x),
    decreases x.len() + y.len(),
{
    if x.len() > 0 && y.len() > 0 {
        lemma_chars_trichotomy(x[0], y[0]);
        if x[0] == y[0] {
            lemma_strings_le_total(x.skip(1), y.skip(1));
        }
    }
}

/// The string-sequence order holds both ways only between equal
/// sequences.
pub proof fn lemma_strings_le_antisym(x: Seq<Seq<char>>, y: Seq<Seq<char>>)
    requires
        strings_le(x, y),
        strings_le(y, x),
    ensures
        x == y,
    decreases x.len() + y.len(),
{
    if x.len() == 0 {
        assert(y.len() == 0);
        assert(x =~= y);
    } else {
        lemma_chars_trichotomy(x[0], y[0]);
        assert(x[0] == y[0]);
        lemma_strings_le_antisym(x.skip(1), y.skip(1));
        assert forall|t: int| 0 <= t < x.len() implies x[t] == y[t] by {
            if t > 0 {
                assert(x.skip(1)[t - 1] == y.skip(1)[t - 1]);
            }
        }
        assert(x =~= y);
    }
}

/// The string-sequence order composes.
pub proof fn lemma_strings_le_trans(x: Seq<Seq<char>>, y: Seq<Seq<char>>, z: Seq<Seq<char>>)
    requires
        strings_le(x, y),
        strings_le(y, z),
    ensures
        strings_le(x, z),
    decreases x.len() + y.len() + z.len(),
{
    if x.len() > 0 && z.len() > 0 {
        assert(y.len() > 0);
        lemma_chars_trichotomy(x[0], y[0]);
        lemma_chars_trichotomy(y[0], z[0]);
        lemma_chars_trichotomy(x[0], z[0]);
        if x[0] == y[0] && y[0] == z[0] {
            lemma_strings_le_trans(x.skip(1), y.skip(1), z.skip(1));
        } else if x[0] != y[0] && y[0] != z[0] {
            lemma_chars_lt_trans(x[0], y[0], z[0]);
        }
    }
}

/// The strict order on locations: by unit, then first, then last offset.
pub open spec fn loc_lt(a: Location, b: Location) -> bool {
    if a.compilation_unit != b.compilation_unit {
        a.compilation_unit < b.compilation_unit
    } else if a.first_offset != b.first_offset {
        a.first_offset < b.first_offset
    } else {
        a.last_offset < b.last_offset
    }
}

/// The order diagnostics are reported in: by source location, then kind,
/// then severity, then arguments. The order is total and ties only
/// between diagnostics equal in value, so a sorted ledger is the one
/// deterministic arrangement of its diagnostics.
pub open spec fn diag_le_vw(a: DiagnosticVw, b: DiagnosticVw) -> bool {
    if a.location != b.location {
        loc_lt(a.location, b.location)
    } else if a.kind.spec_id() != b.kind.spec_id() {
        a.kind.spec_id() < b.kind.spec_id()
    } else if a.warning != b.warning {
        !a.warning
    } else {
        strings_le(a.arguments, b.arguments)
    }
}

/// The reporting order on recorded diagnostics.
pub open spec fn diag_le(a: Diagnostic, b: Diagnostic) -> bool {
    diag_le_vw(a@, b@)
}

/// The reporting order is total.
pub proof fn lemma_diag_le_total(a: DiagnosticVw, b: DiagnosticVw)
    ensures
        diag_le_vw(a, b) || diag_le_vw(b, a),
{
    if a.location == b.location && a.kind.spec_id() == b.kind.spec_id() && a.warning
        == b.warning {
        lemma_strings_le_total(a.arguments, b.arguments);
    }
}

/// The reporting order holds both ways only between equal diagnostic
/// values.
pub proof fn lemma_diag_le_antisym(a: DiagnosticVw, b: DiagnosticVw)
    requires
        diag_le_vw(a, b),
        diag_le_vw(b, a),
    ensures
        a == b,
{
    assert(a.location == b.location);
    assert(a.kind.spec_id() == b.kind.spec_id());
    lemma_kind_id_roundtrip(a.kind);
    lemma_kind_id_roundtrip(b.kind);
    assert(a.kind == b.kind);
    assert(a.warning == b.warning);
    lemma_strings_le_antisym(a.arguments, b.arguments);
}

/// The reporting order composes.
pub proof fn lemma_diag_le_trans(a: DiagnosticVw, b: DiagnosticVw, c: DiagnosticVw)
    requires
        diag_le_vw(a, b),
        diag_le_vw(b, c),
    ensures
        diag_le_vw(a, c),
{
    if a.location == c.location && a.kind.spec_id() == c.kind.spec_id() && a.warning
        == c.warning {
        if b.location == a.location && b.kind.spec_id() == a.kind.spec_id() && b.warning
            == a.warning {
            lemma_strings_le_trans(a.arguments, b.arguments, c.arguments);
        }
    }
}

/// Three-way comparison of two strings in the order of `chars_lt`.
#[verifier::loop_isolation(false)]
fn chars_cmp(a: &str, b: &str) -> (r: i8)
    ensures
        (r == 0) == (a@ == b@),
        (r < 0) == chars_lt(a@, b@),
        (r > 0) == chars_lt(b@, a@),
{
    let alen = a.unicode_len();
    let blen = b.unicode_len();
    let mut i: usize = 0;
    assert(a@.skip(0) =~= a@);
    assert(b@.skip(0) =~= b@);
    while i < alen && i < blen
        invariant
            i <= alen,
            i <= blen,
            chars_lt(a@, b@) == chars_lt(a@.skip(i as int), b@.skip(i as int)),
            chars_lt(b@, a@) == chars_lt(b@.skip(i as int), a@.skip(i as int)),
            forall|t: int| 0 <= t < i ==> a@[t] == b@[t],
        decreases alen - i,
    {
        let ca = a.get_char(i);
        let cb = b.get_char(i);
        assert(a@.skip(i as int)[0] == a@[i as int]);
        assert(b@.skip(i as int)[0] == b@[i as int]);
        if ca != cb {
            if (ca as u32) < (cb as u32) {
                assert(a@ != b@) by {
                    if a@ == b@ {
                        assert(a@[i as int] == b@[i as int]);
                    }
                }
                return -1;
            }
            assert(a@ != b@) by {
                if a@ == b@ {
                    assert(a@[i as int] == b@[i as int]);
                }
            }
            return 1;
        }
        assert(a@.skip(i as int).skip(1) =~= a@.skip(i + 1));
        assert(b@.skip(i as int).skip(1) =~= b@.skip(i + 1));
        i += 1;
    }
    if i == alen && i == blen {
        assert(a@ =~= b@);
        assert(a@.skip(i as int) =~= Seq::<char>::empty());
        assert(b@.skip(i as int) =~= Seq::<char>::empty());
        0
    } else if i == alen {
        assert(a@.skip(i as int) =~= Seq::<char>::empty());
        assert(a@ != b@);
        -1
    } else {
        assert(b@.skip(i as int) =~= Seq::<char>::empty());
        assert(a@ != b@);
        1
    }
}

/// Decides `strings_le` on two argument vectors.
#[verifier::loop_isolation(false)]
fn strings_le_exec(x: &Vec<String>, y: &Vec<String>) -> (r: bool)
    ensures
        r == strings_le(x.deep_view(), y.deep_view()),
{
    let ghost xv = x.deep_view();
    let ghost yv = y.deep_view();
    let xlen = x.len();
    let ylen = y.len();
    let mut j: usize = 0;
    assert(xv.skip(0) =~= xv);
    assert(yv.skip(0) =~= yv);
    while j < xlen && j < ylen
        invariant
            j <= xlen,
            j <= ylen,
            xv.len() == xlen,
            yv.len() == ylen,
            strings_le(xv, yv) == strings_le(xv.skip(j as int), yv.skip(j as int)),
        decreases xlen - j,
    {
        assert(xv.skip(j as int)[0] == xv[j as int]);
        assert(yv.skip(j as int)[0] == yv[j as int]);
        assert(xv[j as int] == x@[j as int]@);
        assert(yv[j as int] == y@[j as int]@);
        let c = chars_cmp(x[j].as_str(), y[j].as_str());
        if c < 0 {
            return true;
        }
        if c > 0 {
            proof {
                lemma_chars_trichotomy(xv[j as int], yv[j as int]);
            }
            return false;
        }
        assert(xv.skip(j as int).skip(1) =~= xv.skip(j + 1));
        assert(yv.skip(j as int).skip(1) =~= yv.skip(j + 1));
        j += 1;
    }
    if j == xlen {
        assert(xv.skip(j as int) =~= Seq::<Seq<char>>::empty());
        true
    } else {
        assert(yv.skip(j as int) =~= Seq::<Seq<char>>::empty());
        false
    }
}

/// Decides `diag_le` on two diagnostics.
pub fn diag_le_exec(a: &Diagnostic, b: &Diagnostic) -> (r: bool)
    ensures
        r == diag_le(*a, *b),
{
    if a.location.compilation_unit != b.location.compilation_unit {
        return a.location.compilation_unit < b.location.compilation_unit;
    }
    if a.location.first_offset != b.location.first_offset {
        return a.location.first_offset < b.location.first_offset;
    }
    if a.location.last_offset != b.location.last_offset {
        return a.location.last_offset < b.location.last_offset;
    }
    assert(a.location == b.location);
    let ka = a.kind.id();
    let kb = b.kind.id();
    if ka != kb {
        return ka < kb;
    }
    if a.warning != b.warning {
        return !a.warning;
    }
    assert(a@.arguments == a.arguments.deep_view());
    strings_le_exec(&a.arguments, &b.arguments)
}

/// Whether a sequence of diagnostic values is in reporting order.
pub open spec fn vw_sorted(s: Seq<DiagnosticVw>) -> bool {
    forall|i: int, j: int| 0 <= i < j < s.len() ==> diag_le_vw(#[trigger] s[i], #[trigger] s[j])
}

/// A collection of diagnostic values has exactly one arrangement in
/// reporting order: sorting is deterministic, and sorting a sorted
/// sequence changes nothing.
pub proof fn lemma_sorted_vw_unique(a: Seq<DiagnosticVw>, b: Seq<DiagnosticVw>)
    requires
        vw_sorted(a),
        vw_sorted(b),
        a.to_multiset() == b.to_multiset(),
    ensures
        a == b,
    decreases a.len(),
{
    broadcast use vstd::seq_lib::group_to_multiset_ensures;

    assert(a.to_multiset().len() == a.len());
    assert(b.to_multiset().len() == b.len());
    if a.len() == 0 {
        assert(a =~= b);
    } else {
        assert(b.len() == a.len());
        assert(a.contains(a[0]));
        assert(b.to_multiset().count(a[0]) > 0);
        assert(b.contains(a[0]));
        let jb = choose|j: int| 0 <= j < b.len() && b[j] == a[0];
        assert(b.contains(b[0]));
        assert(a.to_multiset().count(b[0]) > 0);
        assert(a.contains(b[0]));
        let ja = choose|j: int| 0 <= j < a.len() && a[j] == b[0];
        if jb > 0 {
            assert(diag_le_vw(b[0], b[jb]));
        }
        if ja > 0 {
            assert(diag_le_vw(a[0], a[ja]));
        }
        lemma_diag_le_total(a[0], b[0]);
        if jb == 0 || ja == 0 {
            assert(a[0] == b[0]);
        } else {
            lemma_diag_le_antisym(a[0], b[0]);
        }
        assert(a.remove(0) =~= a.skip(1));
        assert(b.remove(0) =~= b.skip(1));
        assert(a.skip(1).to_multiset() =~= a.to_multiset().remove(a[0]));
        assert(b.skip(1).to_multiset() =~= b.to_multiset().remove(b[0]));
        assert forall|i: int, j: int| 0 <= i < j < a.skip(1).len() implies diag_le_vw(
            #[trigger] a.skip(1)[i],
            #[trigger] a.skip(1)[j],
        ) by {
            assert(a.skip(1)[i] == a[i + 1] && a.skip(1)[j] == a[j + 1]);
        }
        assert forall|i: int, j: int| 0 <= i < j < b.skip(1).len() implies diag_le_vw(
            #[trigger] b.skip(1)[i],
            #[trigger] b.skip(1)[j],
        ) by {
            assert(b.skip(1)[i] == b[i + 1] && b.skip(1)[j] == b[j + 1]);
        }
        lemma_sorted_vw_unique(a.skip(1), b.skip(1));
        assert forall|t: int| 0 <= t < a.len() implies a[t] == b[t] by {
            if t > 0 {
                assert(a.skip(1)[t - 1] == b.skip(1)[t - 1]);
            }
        }
        assert(a =~= b);
    }
}

} // verus!
