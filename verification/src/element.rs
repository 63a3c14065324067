//! The intended eventual target of the combinators: a markup tree node. No
//! parser in this crate constructs one yet; the type stands here as a forward
//! reference to the grammar the combinator set is being built towards.

use vstd::prelude::*;

verus! {

/// A markup tree node: a name, an ordered sequence of name/value attribute
/// pairs, and an ordered sequence of child nodes.
#[derive(Debug, PartialEq, Eq)]
pub struct Element {
    /// The node's name.
    pub name: String,
    /// The node's attributes, each a name/value pair, in order.
    pub attributes: Vec<(String, String)>,
    /// The node's children, in order.
    pub children: Vec<Element>,
}

} // verus!
