//! Equality and order of values.

use vstd::prelude::*;
use vstd::std_specs::cmp::{PartialEqSpecImpl, PartialOrdSpecImpl};
use vstd::utf8::encode_utf8;
use core::cmp::Ordering;
use crate::helper::types::Null;
use crate::nodes::connector_manager::binary32;
use crate::nodes::connector_manager::connector::{Connector, ConnectorInfo};
use crate::nodes::connector_manager::text;
use crate::nodes::connector_manager::value::{ConnectorType, Value};

verus! {

/// Whether two values are equal: they are of one type and hold the same. Two
/// `Float`s are equal where they encode the same number.
pub open spec fn same_value(a: Value, b: Value) -> bool {
    match (a, b) {
        (Value::Integer(x), Value::Integer(y)) => x == y,
        (Value::Float(x), Value::Float(y)) => binary32::same_number(x, y),
        (Value::Text(x), Value::Text(y)) => x == y,
        (Value::Boolean(x), Value::Boolean(y)) => x == y,
        (Value::Null, Value::Null) => true,
        _ => false,
    }
}

/// The order of two byte strings: by the first byte in which they differ, and
/// a string before those that it begins.
pub open spec fn bytes_order(a: Seq<u8>, b: Seq<u8>) -> Ordering {
    let shared = text::common_prefix(a, b);
    if shared == a.len() {
        if shared == b.len() {
            Ordering::Equal
        } else {
            Ordering::Less
        }
    } else if shared == b.len() {
        Ordering::Greater
    } else if a[shared] < b[shared] {
        Ordering::Less
    } else {
        Ordering::Greater
    }
}

/// The order of two integers.
pub open spec fn integer_order(x: i32, y: i32) -> Ordering {
    if x < y {
        Ordering::Less
    } else if x > y {
        Ordering::Greater
    } else {
        Ordering::Equal
    }
}

/// The order of two numbers by their encodings. An encoding of no number is
/// in no order with anything, which counts as equal.
pub open spec fn float_order(a: u32, b: u32) -> Ordering {
    if binary32::is_nan(a) || binary32::is_nan(b) {
        Ordering::Equal
    } else if binary32::order_key(a) < binary32::order_key(b) {
        Ordering::Less
    } else if binary32::order_key(a) > binary32::order_key(b) {
        Ordering::Greater
    } else {
        Ordering::Equal
    }
}

/// The order of two values. Values of one type are ordered as what they hold:
/// numbers by size, texts by the bytes of their UTF-8 form, `false` before
/// `true`. Values of different types count as equal.
pub open spec fn value_order(a: Value, b: Value) -> Ordering {
    match (a, b) {
        (Value::Integer(x), Value::Integer(y)) => integer_order(x, y),
        (Value::Float(x), Value::Float(y)) => float_order(x, y),
        (Value::Text(x), Value::Text(y)) => bytes_order(encode_utf8(x), encode_utf8(y)),
        (Value::Boolean(x), Value::Boolean(y)) => if !x && y {
            Ordering::Less
        } else if x && !y {
            Ordering::Greater
        } else {
            Ordering::Equal
        },
        _ => Ordering::Equal,
    }
}

fn order_bytes(a: &[u8], b: &[u8]) -> (order: Ordering)
    ensures
        order == bytes_order(a@, b@),
{
    let shared: usize = text::common_prefix_length(a, b);
    if shared == a.len() {
        if shared == b.len() {
            Ordering::Equal
        } else {
            Ordering::Less
        }
    } else if shared == b.len() {
        Ordering::Greater
    } else if a[shared] < b[shared] {
        Ordering::Less
    } else {
        Ordering::Greater
    }
}

fn order_integers(x: i32, y: i32) -> (order: Ordering)
    ensures
        order == integer_order(x, y),
{
    if x < y {
        Ordering::Less
    } else if x > y {
        Ordering::Greater
    } else {
        Ordering::Equal
    }
}

fn order_floats(a: u32, b: u32) -> (order: Ordering)
    ensures
        order == float_order(a, b),
{
    if binary32::float_is_nan(a) || binary32::float_is_nan(b) {
        Ordering::Equal
    } else {
        let x: i64 = binary32::float_order_key(a);
        let y: i64 = binary32::float_order_key(b);
        if x < y {
            Ordering::Less
        } else if x > y {
            Ordering::Greater
        } else {
            Ordering::Equal
        }
    }
}

impl ConnectorType {
    /// The order of two values: see `value_order`.
    pub fn cmp(&self, other: &ConnectorType) -> (order: Ordering)
        ensures
            order == value_order(self@, other@),
    {
        match (self, other) {
            (ConnectorType::Integer(lhs), ConnectorType::Integer(rhs)) => order_integers(
                *lhs,
                *rhs,
            ),
            (ConnectorType::Float(lhs), ConnectorType::Float(rhs)) => order_floats(*lhs, *rhs),
            (ConnectorType::String(lhs), ConnectorType::String(rhs)) => order_bytes(
                lhs.as_str().as_bytes(),
                rhs.as_str().as_bytes(),
            ),
            (ConnectorType::Boolean(lhs), ConnectorType::Boolean(rhs)) => {
                if !*lhs && *rhs {
                    Ordering::Less
                } else if *lhs && !*rhs {
                    Ordering::Greater
                } else {
                    Ordering::Equal
                }
            },
            _ => Ordering::Equal,
        }
    }
}

impl PartialEq for ConnectorType {
    fn eq(&self, other: &ConnectorType) -> (equal: bool) {
        match (self, other) {
            (ConnectorType::Integer(lhs), ConnectorType::Integer(rhs)) => *lhs == *rhs,
            (ConnectorType::Float(lhs), ConnectorType::Float(rhs)) => binary32::float_same_number(
                *lhs,
                *rhs,
            ),
            (ConnectorType::String(lhs), ConnectorType::String(rhs)) => *lhs == *rhs,
            (ConnectorType::Boolean(lhs), ConnectorType::Boolean(rhs)) => *lhs == *rhs,
            (ConnectorType::Null(_), ConnectorType::Null(_)) => true,
            _ => false,
        }
    }
}

impl PartialEqSpecImpl for ConnectorType {
    open spec fn obeys_eq_spec() -> bool {
        true
    }

    open spec fn eq_spec(&self, other: &ConnectorType) -> bool {
        same_value(self@, other@)
    }
}

impl Eq for ConnectorType {

}

impl PartialOrd for ConnectorType {
    fn partial_cmp(&self, other: &ConnectorType) -> (order: Option<Ordering>) {
        Some(self.cmp(other))
    }
}

impl PartialOrdSpecImpl for ConnectorType {
    open spec fn obeys_partial_cmp_spec() -> bool {
        true
    }

    open spec fn partial_cmp_spec(&self, other: &ConnectorType) -> Option<Ordering> {
        Some(value_order(self@, other@))
    }
}

impl PartialEq<i32> for ConnectorType {
    fn eq(&self, other: &i32) -> (equal: bool) {
        match self {
            ConnectorType::Integer(value) => *value == *other,
            _ => false,
        }
    }
}

impl PartialEqSpecImpl<i32> for ConnectorType {
    open spec fn obeys_eq_spec() -> bool {
        true
    }

    open spec fn eq_spec(&self, other: &i32) -> bool {
        self@ == Value::Integer(*other)
    }
}

impl PartialEq<ConnectorType> for i32 {
    fn eq(&self, other: &ConnectorType) -> (equal: bool) {
        match other {
            ConnectorType::Integer(value) => *value == *self,
            _ => false,
        }
    }
}

impl PartialEqSpecImpl<ConnectorType> for i32 {
    open spec fn obeys_eq_spec() -> bool {
        true
    }

    open spec fn eq_spec(&self, other: &ConnectorType) -> bool {
        other@ == Value::Integer(*self)
    }
}

impl PartialEq<bool> for ConnectorType {
    fn eq(&self, other: &bool) -> (equal: bool) {
        match self {
            ConnectorType::Boolean(value) => *value == *other,
            _ => false,
        }
    }
}

impl PartialEqSpecImpl<bool> for ConnectorType {
    open spec fn obeys_eq_spec() -> bool {
        true
    }

    open spec fn eq_spec(&self, other: &bool) -> bool {
        self@ == Value::Boolean(*other)
    }
}

impl PartialEq<ConnectorType> for bool {
    fn eq(&self, other: &ConnectorType) -> (equal: bool) {
        match other {
            ConnectorType::Boolean(value) => *value == *self,
            _ => false,
        }
    }
}

impl PartialEqSpecImpl<ConnectorType> for bool {
    open spec fn obeys_eq_spec() -> bool {
        true
    }

    open spec fn eq_spec(&self, other: &ConnectorType) -> bool {
        other@ == Value::Boolean(*self)
    }
}

impl PartialEq<String> for ConnectorType {
    fn eq(&self, other: &String) -> (equal: bool) {
        match self {
            ConnectorType::String(value) => *value == *other,
            _ => false,
        }
    }
}

impl PartialEqSpecImpl<String> for ConnectorType {
    open spec fn obeys_eq_spec() -> bool {
        true
    }

    open spec fn eq_spec(&self, other: &String) -> bool {
        self@ == Value::Text(other@)
    }
}

impl PartialEq<ConnectorType> for String {
    fn eq(&self, other: &ConnectorType) -> (equal: bool) {
        match other {
            ConnectorType::String(value) => *value == *self,
            _ => false,
        }
    }
}

impl PartialEqSpecImpl<ConnectorType> for String {
    open spec fn obeys_eq_spec() -> bool {
        true
    }

    open spec fn eq_spec(&self, other: &ConnectorType) -> bool {
        other@ == Value::Text(self@)
    }
}

impl PartialEq<&str> for ConnectorType {
    fn eq(&self, other: &&str) -> (equal: bool) {
        match self {
            ConnectorType::String(value) => text::same_text(value.as_str(), *other),
            _ => false,
        }
    }
}

impl PartialEqSpecImpl<&str> for ConnectorType {
    open spec fn obeys_eq_spec() -> bool {
        true
    }

    open spec fn eq_spec(&self, other: &&str) -> bool {
        self@ == Value::Text(other@)
    }
}

impl PartialEq<ConnectorType> for &str {
    fn eq(&self, other: &ConnectorType) -> (equal: bool) {
        match other {
            ConnectorType::String(value) => text::same_text(value.as_str(), *self),
            _ => false,
        }
    }
}

impl PartialEqSpecImpl<ConnectorType> for &str {
    open spec fn obeys_eq_spec() -> bool {
        true
    }

    open spec fn eq_spec(&self, other: &ConnectorType) -> bool {
        other@ == Value::Text(self@)
    }
}

impl PartialEq<Null> for ConnectorType {
    fn eq(&self, other: &Null) -> (equal: bool) {
        match self {
            ConnectorType::Null(value) => true,
            _ => false,
        }
    }
}

impl PartialEqSpecImpl<Null> for ConnectorType {
    open spec fn obeys_eq_spec() -> bool {
        true
    }

    open spec fn eq_spec(&self, other: &Null) -> bool {
        self@ == Value::Null
    }
}

impl PartialEq<ConnectorType> for Null {
    fn eq(&self, other: &ConnectorType) -> (equal: bool) {
        match other {
            ConnectorType::Null(value) => true,
            _ => false,
        }
    }
}

impl PartialEqSpecImpl<ConnectorType> for Null {
    open spec fn obeys_eq_spec() -> bool {
        true
    }

    open spec fn eq_spec(&self, other: &ConnectorType) -> bool {
        other@ == Value::Null
    }
}

impl PartialOrd<i32> for ConnectorType {
    fn partial_cmp(&self, other: &i32) -> (order: Option<Ordering>) {
        match self {
            ConnectorType::Integer(value) => Some(order_integers(*value, *other)),
            _ => None,
        }
    }
}

impl PartialOrdSpecImpl<i32> for ConnectorType {
    open spec fn obeys_partial_cmp_spec() -> bool {
        true
    }

    open spec fn partial_cmp_spec(&self, other: &i32) -> Option<Ordering> {
        match self@ {
            Value::Integer(value) => Some(integer_order(value, *other)),
            _ => None,
        }
    }
}

impl PartialOrd<ConnectorType> for i32 {
    fn partial_cmp(&self, other: &ConnectorType) -> (order: Option<Ordering>) {
        match other {
            ConnectorType::Integer(value) => Some(order_integers(*self, *value)),
            _ => None,
        }
    }
}

impl PartialOrdSpecImpl<ConnectorType> for i32 {
    open spec fn obeys_partial_cmp_spec() -> bool {
        true
    }

    open spec fn partial_cmp_spec(&self, other: &ConnectorType) -> Option<Ordering> {
        match other@ {
            Value::Integer(value) => Some(integer_order(*self, value)),
            _ => None,
        }
    }
}

/// Two connectors are equal where they have the same index.
impl PartialEq for Connector {
    fn eq(&self, other: &Connector) -> (equal: bool) {
        self.get_index() == other.get_index()
    }
}

impl PartialEqSpecImpl for Connector {
    open spec fn obeys_eq_spec() -> bool {
        true
    }

    open spec fn eq_spec(&self, other: &Connector) -> bool {
        self@.index() == other@.index()
    }
}

impl PartialEq for ConnectorInfo {
    fn eq(&self, other: &ConnectorInfo) -> (equal: bool) {
        self.get_index() == other.get_index() && self.get_name() == other.get_name()
    }
}

impl PartialEqSpecImpl for ConnectorInfo {
    open spec fn obeys_eq_spec() -> bool {
        true
    }

    open spec fn eq_spec(&self, other: &ConnectorInfo) -> bool {
        self@.index == other@.index && self@.name == other@.name
    }
}

} // verus!
