//! Compile-time reduction of markup literals to string templates with holes.
//!
//! A markup element such as `<div class="a">Hello {name}!</div>` is split
//! into the static fragments of its text and the dynamic values between
//! them. The fragments are hoisted to the top of the unit as one constant
//! array per element, and the element is replaced by a call of a render
//! helper that joins the fragments with the values at run time.
//!
//! - [`markup`]: the nodes that the transform reads.
//! - [`names`]: void tags, attribute aliases, names of template bindings.
//! - [`template`]: fragments and slots of a row of serialized pieces.
//! - [`serialize`]: from one element to its fragments and slots.
//! - [`call`]: the render call that replaces an element.
//! - [`unit`]: the top level of a unit and the hoisted declarations.
//! - [`transform`]: the state of one unit's transform, the decision for
//!   each visited expression, and the hoisting that ends the walk.
//! - [`error`]: why a construct is refused.

pub mod call;
pub mod error;
pub mod markup;
pub mod names;
pub mod serialize;
pub mod template;
pub mod transform;
pub mod unit;
