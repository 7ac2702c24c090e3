//! Arithmetic on values: between two integers, and between two numbers of
//! single precision.

use vstd::prelude::*;
use vstd::std_specs::ops::{AddSpecImpl, DivSpecImpl, MulSpecImpl, RemSpecImpl, SubSpecImpl};
use core::ops::{Add, Div, Mul, Rem, Sub};
use crate::nodes::connector_manager::value::{
    outcome_view,
    ConnectorType,
    FloatTask,
    Operation,
    Task,
    Value,
};

verus! {

/// The magnitude of an integer.
pub open spec fn magnitude(a: int) -> int {
    if a < 0 {
        -a
    } else {
        a
    }
}

/// The quotient of two integers, rounded toward zero.
pub open spec fn truncating_quotient(a: int, b: int) -> int {
    if (a < 0) == (b < 0) {
        magnitude(a) / magnitude(b)
    } else {
        -(magnitude(a) / magnitude(b))
    }
}

/// What is left of `a` after the quotient rounded toward zero: it has the sign
/// of `a`.
pub open spec fn truncating_remainder(a: int, b: int) -> int {
    if a < 0 {
        -(magnitude(a) % magnitude(b))
    } else {
        magnitude(a) % magnitude(b)
    }
}

/// The result of an operation on two integers.
pub open spec fn integer_result(operation: Operation, a: int, b: int) -> int {
    match operation {
        Operation::Add => a + b,
        Operation::Subtract => a - b,
        Operation::Multiply => a * b,
        Operation::Divide => truncating_quotient(a, b),
        Operation::Remainder => truncating_remainder(a, b),
    }
}

/// Whether an operation on two 32-bit integers has a result of 32 bits: no
/// division by zero, and nothing beyond the range of the type.
pub open spec fn integer_defined(operation: Operation, a: i32, b: i32) -> bool {
    &&& (operation == Operation::Divide || operation == Operation::Remainder) ==> b != 0 && !(a
        == i32::MIN && b == -1)
    &&& i32::MIN <= integer_result(operation, a as int, b as int) <= i32::MAX
}

/// Whether an operation is defined on two values: on two integers with a
/// result of 32 bits, and on two numbers of single precision.
pub open spec fn computable(operation: Operation, a: Value, b: Value) -> bool {
    match (a, b) {
        (Value::Integer(x), Value::Integer(y)) => integer_defined(operation, x, y),
        (Value::Float(_), Value::Float(_)) => true,
        _ => false,
    }
}

/// The result of an operation on two values. On two integers it is the
/// integer result; on two numbers of single precision it is the work to do.
pub open spec fn computed(operation: Operation, a: Value, b: Value) -> Result<Value, Task> {
    match (a, b) {
        (Value::Integer(x), Value::Integer(y)) => Ok(
            Value::Integer(integer_result(operation, x as int, y as int) as i32),
        ),
        (Value::Float(x), Value::Float(y)) => Err(Task::Compute(operation, x, y)),
        _ => arbitrary(),
    }
}

/// The outcome that holds the result of an operation on two values.
pub open spec fn computed_outcome(
    operation: Operation,
    a: ConnectorType,
    b: ConnectorType,
) -> Result<ConnectorType, FloatTask> {
    match (a, b) {
        (ConnectorType::Integer(x), ConnectorType::Integer(y)) => Ok(
            ConnectorType::Integer(integer_result(operation, x as int, y as int) as i32),
        ),
        (ConnectorType::Float(x), ConnectorType::Float(y)) => Err(
            FloatTask::Compute(operation, x, y),
        ),
        _ => arbitrary(),
    }
}

/// Carries out an operation on two 32-bit integers.
pub fn compute_integers(operation: Operation, a: i32, b: i32) -> (result: i32)
    requires
        integer_defined(operation, a, b),
    ensures
        result == integer_result(operation, a as int, b as int),
{
    match operation {
        Operation::Add => a + b,
        Operation::Subtract => a - b,
        Operation::Multiply => a * b,
        Operation::Divide => {
            let left: i64 = if a < 0 {
                -(a as i64)
            } else {
                a as i64
            };
            let right: i64 = if b < 0 {
                -(b as i64)
            } else {
                b as i64
            };
            let quotient: i64 = left / right;
            if (a < 0) == (b < 0) {
                quotient as i32
            } else {
                (-quotient) as i32
            }
        },
        Operation::Remainder => {
            let left: i64 = if a < 0 {
                -(a as i64)
            } else {
                a as i64
            };
            let right: i64 = if b < 0 {
                -(b as i64)
            } else {
                b as i64
            };
            let rest: i64 = left % right;
            if a < 0 {
                (-rest) as i32
            } else {
                rest as i32
            }
        },
    }
}

/// Carries out an operation on two values: on two integers it gives the
/// result, on two numbers of single precision the work to do.
pub fn compute(operation: Operation, a: ConnectorType, b: ConnectorType) -> (outcome: Result<
    ConnectorType,
    FloatTask,
>)
    requires
        computable(operation, a@, b@),
    ensures
        outcome == computed_outcome(operation, a, b),
        outcome_view(outcome) == computed(operation, a@, b@),
{
    match (a, b) {
        (ConnectorType::Integer(x), ConnectorType::Integer(y)) => Ok(
            ConnectorType::Integer(compute_integers(operation, x, y)),
        ),
        (ConnectorType::Float(x), ConnectorType::Float(y)) => Err(
            FloatTask::Compute(operation, x, y),
        ),
        _ => unreached(),
    }
}

impl Add<ConnectorType> for ConnectorType {
    type Output = Result<ConnectorType, FloatTask>;

    fn add(self, other: ConnectorType) -> (outcome: Result<ConnectorType, FloatTask>) {
        compute(Operation::Add, self, other)
    }
}

impl AddSpecImpl<ConnectorType> for ConnectorType {
    open spec fn obeys_add_spec() -> bool {
        true
    }

    open spec fn add_req(self, other: ConnectorType) -> bool {
        computable(Operation::Add, self@, other@)
    }

    open spec fn add_spec(self, other: ConnectorType) -> Result<ConnectorType, FloatTask> {
        computed_outcome(Operation::Add, self, other)
    }
}

impl Add<i32> for ConnectorType {
    type Output = ConnectorType;

    fn add(self, other: i32) -> (result: ConnectorType) {
        match self {
            ConnectorType::Integer(value) => ConnectorType::Integer(
                compute_integers(Operation::Add, value, other),
            ),
            _ => unreached(),
        }
    }
}

impl AddSpecImpl<i32> for ConnectorType {
    open spec fn obeys_add_spec() -> bool {
        true
    }

    open spec fn add_req(self, other: i32) -> bool {
        computable(Operation::Add, self@, Value::Integer(other))
    }

    open spec fn add_spec(self, other: i32) -> ConnectorType {
        match self {
            ConnectorType::Integer(value) => ConnectorType::Integer(
                integer_result(Operation::Add, value as int, other as int) as i32,
            ),
            _ => arbitrary(),
        }
    }
}

impl Sub<ConnectorType> for ConnectorType {
    type Output = Result<ConnectorType, FloatTask>;

    fn sub(self, other: ConnectorType) -> (outcome: Result<ConnectorType, FloatTask>) {
        compute(Operation::Subtract, self, other)
    }
}

impl SubSpecImpl<ConnectorType> for ConnectorType {
    open spec fn obeys_sub_spec() -> bool {
        true
    }

    open spec fn sub_req(self, other: ConnectorType) -> bool {
        computable(Operation::Subtract, self@, other@)
    }

    open spec fn sub_spec(self, other: ConnectorType) -> Result<ConnectorType, FloatTask> {
        computed_outcome(Operation::Subtract, self, other)
    }
}

impl Sub<i32> for ConnectorType {
    type Output = ConnectorType;

    fn sub(self, other: i32) -> (result: ConnectorType) {
        match self {
            ConnectorType::Integer(value) => ConnectorType::Integer(
                compute_integers(Operation::Subtract, value, other),
            ),
            _ => unreached(),
        }
    }
}

impl SubSpecImpl<i32> for ConnectorType {
    open spec fn obeys_sub_spec() -> bool {
        true
    }

    open spec fn sub_req(self, other: i32) -> bool {
        computable(Operation::Subtract, self@, Value::Integer(other))
    }

    open spec fn sub_spec(self, other: i32) -> ConnectorType {
        match self {
            ConnectorType::Integer(value) => ConnectorType::Integer(
                integer_result(Operation::Subtract, value as int, other as int) as i32,
            ),
            _ => arbitrary(),
        }
    }
}

impl Mul<ConnectorType> for ConnectorType {
    type Output = Result<ConnectorType, FloatTask>;

    fn mul(self, other: ConnectorType) -> (outcome: Result<ConnectorType, FloatTask>) {
        compute(Operation::Multiply, self, other)
    }
}

impl MulSpecImpl<ConnectorType> for ConnectorType {
    open spec fn obeys_mul_spec() -> bool {
        true
    }

    open spec fn mul_req(self, other: ConnectorType) -> bool {
        computable(Operation::Multiply, self@, other@)
    }

    open spec fn mul_spec(self, other: ConnectorType) -> Result<ConnectorType, FloatTask> {
        computed_outcome(Operation::Multiply, self, other)
    }
}

impl Mul<i32> for ConnectorType {
    type Output = ConnectorType;

    fn mul(self, other: i32) -> (result: ConnectorType) {
        match self {
            ConnectorType::Integer(value) => ConnectorType::Integer(
                compute_integers(Operation::Multiply, value, other),
            ),
            _ => unreached(),
        }
    }
}

impl MulSpecImpl<i32> for ConnectorType {
    open spec fn obeys_mul_spec() -> bool {
        true
    }

    open spec fn mul_req(self, other: i32) -> bool {
        computable(Operation::Multiply, self@, Value::Integer(other))
    }

    open spec fn mul_spec(self, other: i32) -> ConnectorType {
        match self {
            ConnectorType::Integer(value) => ConnectorType::Integer(
                integer_result(Operation::Multiply, value as int, other as int) as i32,
            ),
            _ => arbitrary(),
        }
    }
}

impl Div<ConnectorType> for ConnectorType {
    type Output = Result<ConnectorType, FloatTask>;

    fn div(self, other: ConnectorType) -> (outcome: Result<ConnectorType, FloatTask>) {
        compute(Operation::Divide, self, other)
    }
}

impl DivSpecImpl<ConnectorType> for ConnectorType {
    open spec fn obeys_div_spec() -> bool {
        true
    }

    open spec fn div_req(self, other: ConnectorType) -> bool {
        computable(Operation::Divide, self@, other@)
    }

    open spec fn div_spec(self, other: ConnectorType) -> Result<ConnectorType, FloatTask> {
        computed_outcome(Operation::Divide, self, other)
    }
}

impl Div<i32> for ConnectorType {
    type Output = ConnectorType;

    fn div(self, other: i32) -> (result: ConnectorType) {
        match self {
            ConnectorType::Integer(value) => ConnectorType::Integer(
                compute_integers(Operation::Divide, value, other),
            ),
            _ => unreached(),
        }
    }
}

impl DivSpecImpl<i32> for ConnectorType {
    open spec fn obeys_div_spec() -> bool {
        true
    }

    open spec fn div_req(self, other: i32) -> bool {
        computable(Operation::Divide, self@, Value::Integer(other))
    }

    open spec fn div_spec(self, other: i32) -> ConnectorType {
        match self {
            ConnectorType::Integer(value) => ConnectorType::Integer(
                integer_result(Operation::Divide, value as int, other as int) as i32,
            ),
            _ => arbitrary(),
        }
    }
}

impl Rem<ConnectorType> for ConnectorType {
    type Output = Result<ConnectorType, FloatTask>;

    fn rem(self, other: ConnectorType) -> (outcome: Result<ConnectorType, FloatTask>) {
        compute(Operation::Remainder, self, other)
    }
}

impl RemSpecImpl<ConnectorType> for ConnectorType {
    open spec fn obeys_rem_spec() -> bool {
        true
    }

    open spec fn rem_req(self, other: ConnectorType) -> bool {
        computable(Operation::Remainder, self@, other@)
    }

    open spec fn rem_spec(self, other: ConnectorType) -> Result<ConnectorType, FloatTask> {
        computed_outcome(Operation::Remainder, self, other)
    }
}

impl Rem<i32> for ConnectorType {
    type Output = ConnectorType;

    fn rem(self, other: i32) -> (result: ConnectorType) {
        match self {
            ConnectorType::Integer(value) => ConnectorType::Integer(
                compute_integers(Operation::Remainder, value, other),
            ),
            _ => unreached(),
        }
    }
}

impl RemSpecImpl<i32> for ConnectorType {
    open spec fn obeys_rem_spec() -> bool {
        true
    }

    open spec fn rem_req(self, other: i32) -> bool {
        computable(Operation::Remainder, self@, Value::Integer(other))
    }

    open spec fn rem_spec(self, other: i32) -> ConnectorType {
        match self {
            ConnectorType::Integer(value) => ConnectorType::Integer(
                integer_result(Operation::Remainder, value as int, other as int) as i32,
            ),
            _ => arbitrary(),
        }
    }
}

} // verus!
