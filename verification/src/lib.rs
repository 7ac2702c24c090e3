//! Typed connectors for a node editor: the ports of the nodes, the links
//! between them, and the dynamically tagged values that flow across those
//! links.
//!
//! The [`nodes::connector_manager::Manager`] holds the connectors, each at the
//! position that is its index. An input connector is fed by at most one
//! output; an output connector has a value and feeds any number of inputs
//! through one edge. What each operation does is stated over the sequence of
//! ports that the manager holds, in [`nodes::connector_manager::model`], and
//! what follows from that is proved in [`nodes::connector_manager::laws`].
//!
//! A value is an integer, a single-precision number, a text, a truth value or
//! nothing. The library has no floating-point machinery: it carries a number
//! as its IEEE-754 encoding and does in integer arithmetic what can be done so
//! (rounding to and from integers, comparing, testing for zero). Writing a
//! number as text, reading one from text and computing with two of them it
//! hands back as a [`nodes::connector_manager::value::FloatTask`] for the
//! caller to carry out.

use vstd::prelude::*;

pub mod helper;
pub mod nodes;

verus! {

/// The sum of two integers.
pub fn add(a: i32, b: i32) -> (sum: i32)
    requires
        i32::MIN <= a + b <= i32::MAX,
    ensures
        sum == a + b,
{
    a + b
}

} // verus!
