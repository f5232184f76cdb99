//! Why a markup expression is refused.

use vstd::prelude::*;

verus! {

/// A construct that is recognised and deliberately not handled.
#[derive(Clone, Copy, Debug, PartialEq, Eq, Structural)]
pub enum UnsupportedConstruct {
    /// The tag is not a plain identifier: `<a.b />`, `<a:b />`.
    ElementName,
    /// An attribute with a namespaced name: `xlink:href="#"`.
    NamespacedAttribute,
    /// A literal attribute value that is not a string.
    NonStringLiteralAttribute,
    /// A child expression that is not a bare identifier: `{a + b}`.
    NonIdentifierChild,
    /// An element in child position.
    NestedElement,
    /// A fragment in child position.
    NestedFragment,
    /// A spread in child position: `{...items}`.
    SpreadChild,
    /// A fragment with children: `<>text</>`.
    NonEmptyFragment,
    /// An element or a fragment directly inside parentheses.
    ParenthesizedMarkup,
}

/// A tree shape that a valid parse does not produce.
#[derive(Clone, Copy, Debug, PartialEq, Eq, Structural)]
pub enum MalformedInput {
    /// An attribute whose value is an empty expression container: `a={}`.
    EmptyAttributeExpression,
    /// An attribute whose value is an element or a fragment.
    MarkupAttributeValue,
}

/// The failure that ends the transform of a unit.
#[derive(Clone, Copy, Debug, PartialEq, Eq, Structural)]
pub enum TransformError {
    /// The unit holds a construct that the transform does not handle.
    UnsupportedConstruct(UnsupportedConstruct),
    /// The unit holds a tree shape that no valid parse gives.
    MalformedInput(MalformedInput),
}

} // verus!
