use vstd::prelude::*;
use crate::attributes::Attribute;
use crate::location::Location;

verus! {

/// Handle of an expression node of the syntax tree.
///
/// The full syntax tree is owned by the parser; this library addresses its
/// nodes by stable handles, one namespace per node family, partitioned by
/// the translation unit the node belongs to. Two handles denote the same
/// node exactly when they are equal, so two syntactically identical nodes
/// at different tree positions stay distinct.
#[derive(Clone, Copy, PartialEq, Eq, Structural, Hash, Debug)]
pub struct ExpressionNode {
    pub compilation_unit: u64,
    pub id: u64,
}

/// Handle of a directive node of the syntax tree.
#[derive(Clone, Copy, PartialEq, Eq, Structural, Hash, Debug)]
pub struct DirectiveNode {
    pub compilation_unit: u64,
    pub id: u64,
}

/// Handle of a simple-variable-definition node of the syntax tree.
#[derive(Clone, Copy, PartialEq, Eq, Structural, Hash, Debug)]
pub struct SimpleVariableDefinitionNode {
    pub compilation_unit: u64,
    pub id: u64,
}

/// Handle of a block node of the syntax tree.
#[derive(Clone, Copy, PartialEq, Eq, Structural, Hash, Debug)]
pub struct BlockNode {
    pub compilation_unit: u64,
    pub id: u64,
}

/// Handle of a program node of the syntax tree.
#[derive(Clone, Copy, PartialEq, Eq, Structural, Hash, Debug)]
pub struct ProgramNode {
    pub compilation_unit: u64,
    pub id: u64,
}

/// Handle of a function-body node of the syntax tree.
#[derive(Clone, Copy, PartialEq, Eq, Structural, Hash, Debug)]
pub struct FunctionCommonNode {
    pub compilation_unit: u64,
    pub id: u64,
}

/// Represents a directive that failed to parse.
pub struct InvalidatedDirective {
    pub location: Location,
}

/// Represents an expression that failed to parse.
pub struct InvalidatedExpression {
    pub location: Location,
}

/// A type definition: attributes, the defined name on the left, and the
/// aliased type expression on the right. Documentation comments belong to
/// the parser's side and are referenced by handle.
pub struct TypeDefinition {
    pub location: Location,
    pub jetdoc: Option<u64>,
    pub attributes: Vec<Attribute>,
    pub left: (String, Location),
    pub right: ExpressionNode,
}

/// A member access whose key is computed, as in an index expression.
pub struct ComputedMemberExpression {
    pub location: Location,
    pub base: ExpressionNode,
    pub key: ExpressionNode,
}

/// A package definition: its dotted name and its block of directives.
pub struct PackageDefinition {
    pub location: Location,
    pub jetdoc: Option<u64>,
    pub name: Vec<(String, Location)>,
    pub block: BlockNode,
}

/// A use-package directive: an optional alias, the package's dotted name,
/// and a handle to the import specifier that follows it.
pub struct UsePackageDirective {
    pub location: Location,
    pub alias: Option<(String, Location)>,
    pub package_name: Vec<(String, Location)>,
    pub import_specifier: u64,
}

} // verus!
