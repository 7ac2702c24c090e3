//! The values that flow between connectors, and the conversions between their
//! types.

use vstd::prelude::*;
use vstd::std_specs::convert::{FromSpecImpl, IntoSpec};
use crate::helper::types::Null;
use crate::nodes::connector_manager::binary32;
use crate::nodes::connector_manager::text;

verus! {

/// A dynamically tagged value. A `Float` holds the IEEE-754 single-precision
/// encoding of its number.
#[derive(Debug)]
pub enum ConnectorType {
    Integer(i32),
    Float(u32),
    String(String),
    Boolean(bool),
    Null(Null),
}

/// The identifiers of the value types.
pub struct ConnectorTypeId {}

impl ConnectorTypeId {
    pub const INT: i32 = 1;

    pub const FLOAT: i32 = 2;

    pub const STRING: i32 = 3;

    pub const BOOL: i32 = 4;

    pub const NULL: i32 = 5;

    /// Whether `id` identifies one of the five value types.
    pub open spec fn is_known(id: i32) -> bool {
        Self::INT <= id <= Self::NULL
    }

    /// Whether `id` identifies one of the five value types.
    pub fn known(id: i32) -> (known: bool)
        ensures
            known == Self::is_known(id),
    {
        Self::INT <= id && id <= Self::NULL
    }

    /// Whether `id` identifies a type that a connector can be declared with:
    /// any of the value types but `NULL`, which only marks an absent value.
    pub open spec fn is_declarable(id: i32) -> bool {
        Self::INT <= id <= Self::BOOL
    }

    /// Whether `id` identifies a type that a connector can be declared with.
    pub fn declarable(id: i32) -> (declarable: bool)
        ensures
            declarable == Self::is_declarable(id),
    {
        Self::INT <= id && id <= Self::BOOL
    }
}

/// What a `ConnectorType` holds.
pub enum Value {
    Integer(i32),
    Float(u32),
    Text(Seq<char>),
    Boolean(bool),
    Null,
}

/// Work on single-precision numbers that takes floating-point machinery,
/// which this library does not have: a conversion or a computation that comes
/// to it stops and hands it to the caller.
#[derive(Debug)]
pub enum FloatTask {
    /// Write the number with this encoding in decimal. The conversion ends in
    /// the `String` of that text.
    Format(u32),
    /// Read the number that this text writes, zero where it writes none. The
    /// conversion ends in the `Float` of its encoding.
    Parse(String),
    /// Carry out the operation on the two numbers with these encodings. The
    /// computation ends in the `Float` of the result's encoding.
    Compute(Operation, u32, u32),
}

/// The five operations of arithmetic.
#[derive(Debug, Clone, Copy, PartialEq, Eq, Structural)]
pub enum Operation {
    Add,
    Subtract,
    Multiply,
    Divide,
    Remainder,
}

/// What a `FloatTask` holds.
pub enum Task {
    Format(u32),
    Parse(Seq<char>),
    Compute(Operation, u32, u32),
}

impl View for ConnectorType {
    type V = Value;

    open spec fn view(&self) -> Value {
        match self {
            ConnectorType::Integer(n) => Value::Integer(*n),
            ConnectorType::Float(bits) => Value::Float(*bits),
            ConnectorType::String(s) => Value::Text(s@),
            ConnectorType::Boolean(b) => Value::Boolean(*b),
            ConnectorType::Null(_) => Value::Null,
        }
    }
}

impl View for FloatTask {
    type V = Task;

    open spec fn view(&self) -> Task {
        match self {
            FloatTask::Format(bits) => Task::Format(*bits),
            FloatTask::Parse(s) => Task::Parse(s@),
            FloatTask::Compute(operation, left, right) => Task::Compute(*operation, *left, *right),
        }
    }
}

/// What the outcome of a conversion holds.
pub open spec fn outcome_view(outcome: Result<ConnectorType, FloatTask>) -> Result<Value, Task> {
    match outcome {
        Ok(value) => Ok(value@),
        Err(task) => Err(task@),
    }
}

/// The identifier of the type of `v`.
pub open spec fn type_of(v: Value) -> i32 {
    match v {
        Value::Integer(_) => ConnectorTypeId::INT,
        Value::Float(_) => ConnectorTypeId::FLOAT,
        Value::Text(_) => ConnectorTypeId::STRING,
        Value::Boolean(_) => ConnectorTypeId::BOOL,
        Value::Null => ConnectorTypeId::NULL,
    }
}

/// The value that stands for nothing in the type `target`: zero, the empty
/// text, `false`.
pub open spec fn zero_of(target: i32) -> Value {
    if target == ConnectorTypeId::INT {
        Value::Integer(0)
    } else if target == ConnectorTypeId::FLOAT {
        Value::Float(binary32::ZERO)
    } else if target == ConnectorTypeId::STRING {
        Value::Text(Seq::empty())
    } else if target == ConnectorTypeId::BOOL {
        Value::Boolean(false)
    } else {
        Value::Null
    }
}

/// `v` as an integer.
pub open spec fn as_integer(v: Value) -> i32 {
    match v {
        Value::Integer(n) => n,
        Value::Float(bits) => binary32::truncated(bits) as i32,
        Value::Text(s) => match text::parsed_integer(s) {
            Some(n) => n,
            None => 0,
        },
        Value::Boolean(b) => if b {
            1
        } else {
            0
        },
        Value::Null => 0,
    }
}

/// `v` as the encoding of a single-precision number, or the work that finds it.
pub open spec fn as_float(v: Value) -> Result<u32, Task> {
    match v {
        Value::Integer(n) => Ok(binary32::encoded_integer(n as int)),
        Value::Float(bits) => Ok(bits),
        Value::Text(s) => Err(Task::Parse(s)),
        Value::Boolean(b) => Ok(
            if b {
                binary32::ONE
            } else {
                binary32::ZERO
            },
        ),
        Value::Null => Ok(binary32::ZERO),
    }
}

/// `v` as text, or the work that finds it.
pub open spec fn as_text(v: Value) -> Result<Seq<char>, Task> {
    match v {
        Value::Integer(n) => Ok(text::integer_text(n as int)),
        Value::Float(bits) => Err(Task::Format(bits)),
        Value::Text(s) => Ok(s),
        Value::Boolean(b) => Ok(text::boolean_text(b)),
        Value::Null => Ok(Seq::empty()),
    }
}

/// `v` as a truth value: whether a number is not zero, whether a text is
/// `true`.
pub open spec fn as_boolean(v: Value) -> bool {
    match v {
        Value::Integer(n) => n != 0,
        Value::Float(bits) => binary32::is_nonzero(bits),
        Value::Text(s) => text::parsed_boolean(s) == Some(true),
        Value::Boolean(b) => b,
        Value::Null => false,
    }
}

/// The text that shows `v`: its text form, and `Null` for the absent value.
pub open spec fn shown(v: Value) -> Result<Seq<char>, Task> {
    match v {
        Value::Null => Ok(seq!['N', 'u', 'l', 'l']),
        _ => as_text(v),
    }
}

/// `v` converted to the type `target`. The conversion between a `Float` and
/// its text is the one that is not carried out: it ends in the work to do.
pub open spec fn converted(v: Value, target: i32) -> Result<Value, Task>
    recommends
        ConnectorTypeId::is_known(target),
{
    if target == ConnectorTypeId::INT {
        Ok(Value::Integer(as_integer(v)))
    } else if target == ConnectorTypeId::FLOAT {
        match as_float(v) {
            Ok(bits) => Ok(Value::Float(bits)),
            Err(task) => Err(task),
        }
    } else if target == ConnectorTypeId::STRING {
        match as_text(v) {
            Ok(s) => Ok(Value::Text(s)),
            Err(task) => Err(task),
        }
    } else if target == ConnectorTypeId::BOOL {
        Ok(Value::Boolean(as_boolean(v)))
    } else {
        Ok(Value::Null)
    }
}

impl Clone for FloatTask {
    fn clone(&self) -> (copy: FloatTask)
        ensures
            copy == *self,
    {
        match self {
            FloatTask::Format(bits) => FloatTask::Format(*bits),
            FloatTask::Parse(s) => FloatTask::Parse(s.clone()),
            FloatTask::Compute(operation, left, right) => FloatTask::Compute(
                *operation,
                *left,
                *right,
            ),
        }
    }
}

impl Clone for ConnectorType {
    fn clone(&self) -> (copy: ConnectorType)
        ensures
            copy == *self,
    {
        match self {
            ConnectorType::Integer(n) => ConnectorType::Integer(*n),
            ConnectorType::Float(bits) => ConnectorType::Float(*bits),
            ConnectorType::String(s) => ConnectorType::String(s.clone()),
            ConnectorType::Boolean(b) => ConnectorType::Boolean(*b),
            ConnectorType::Null(_) => ConnectorType::Null(Null::new()),
        }
    }
}

impl From<i32> for ConnectorType {
    fn from(value: i32) -> (made: ConnectorType)
        ensures
            made@ == Value::Integer(value),
    {
        ConnectorType::Integer(value)
    }
}

impl FromSpecImpl<i32> for ConnectorType {
    open spec fn obeys_from_spec() -> bool {
        true
    }

    open spec fn from_spec(value: i32) -> ConnectorType {
        ConnectorType::Integer(value)
    }
}

impl From<bool> for ConnectorType {
    fn from(value: bool) -> (made: ConnectorType)
        ensures
            made@ == Value::Boolean(value),
    {
        ConnectorType::Boolean(value)
    }
}

impl FromSpecImpl<bool> for ConnectorType {
    open spec fn obeys_from_spec() -> bool {
        true
    }

    open spec fn from_spec(value: bool) -> ConnectorType {
        ConnectorType::Boolean(value)
    }
}

impl From<String> for ConnectorType {
    fn from(value: String) -> (made: ConnectorType)
        ensures
            made@ == Value::Text(value@),
    {
        ConnectorType::String(value)
    }
}

impl FromSpecImpl<String> for ConnectorType {
    open spec fn obeys_from_spec() -> bool {
        true
    }

    open spec fn from_spec(value: String) -> ConnectorType {
        ConnectorType::String(value)
    }
}

impl From<&str> for ConnectorType {
    fn from(value: &str) -> (made: ConnectorType)
        ensures
            made@ == Value::Text(value@),
    {
        ConnectorType::String(value.to_owned())
    }
}

impl FromSpecImpl<&str> for ConnectorType {
    /// No function of specifications makes a `String` of a `&str`: what `from`
    /// returns is stated by its own `ensures`.
    open spec fn obeys_from_spec() -> bool {
        false
    }

    open spec fn from_spec(value: &str) -> ConnectorType {
        arbitrary()
    }
}

impl From<Null> for ConnectorType {
    fn from(value: Null) -> (made: ConnectorType)
        ensures
            made@ == Value::Null,
    {
        ConnectorType::Null(value)
    }
}

impl FromSpecImpl<Null> for ConnectorType {
    open spec fn obeys_from_spec() -> bool {
        true
    }

    open spec fn from_spec(value: Null) -> ConnectorType {
        ConnectorType::Null(value)
    }
}

impl ConnectorType {
    /// The value that `value` converts into: an integer, a truth value or a
    /// text as the value of its kind.
    pub fn new<T>(value: T) -> (made: ConnectorType) where T: Into<ConnectorType>
        ensures
            call_ensures(T::into, (value,), made),
            T::obeys_into_spec() ==> made == value.into_spec(),
    {
        value.into()
    }

    /// The identifier of the value's type.
    pub fn get_type(&self) -> (id: i32)
        ensures
            id == type_of(self@),
            ConnectorTypeId::is_known(id),
    {
        match self {
            ConnectorType::Integer(_) => ConnectorTypeId::INT,
            ConnectorType::Float(_) => ConnectorTypeId::FLOAT,
            ConnectorType::String(_) => ConnectorTypeId::STRING,
            ConnectorType::Boolean(_) => ConnectorTypeId::BOOL,
            ConnectorType::Null(_) => ConnectorTypeId::NULL,
        }
    }

    fn to_integer(&self) -> (n: i32)
        ensures
            n == as_integer(self@),
    {
        match self {
            ConnectorType::Integer(n) => *n,
            ConnectorType::Float(bits) => binary32::float_to_integer(*bits),
            ConnectorType::String(s) => match text::parse_integer(s.as_str()) {
                Some(n) => n,
                None => 0,
            },
            ConnectorType::Boolean(b) => if *b {
                1
            } else {
                0
            },
            ConnectorType::Null(_) => 0,
        }
    }

    fn to_float(&self) -> (outcome: Result<u32, FloatTask>)
        ensures
            match outcome {
                Ok(bits) => as_float(self@) == Ok::<u32, Task>(bits),
                Err(task) => as_float(self@) == Err::<u32, Task>(task@),
            },
    {
        match self {
            ConnectorType::Integer(n) => Ok(binary32::integer_to_float(*n)),
            ConnectorType::Float(bits) => Ok(*bits),
            ConnectorType::String(s) => Err(FloatTask::Parse(s.clone())),
            ConnectorType::Boolean(b) => Ok(
                if *b {
                    binary32::ONE
                } else {
                    binary32::ZERO
                },
            ),
            ConnectorType::Null(_) => Ok(binary32::ZERO),
        }
    }

    fn to_string_value(&self) -> (outcome: Result<String, FloatTask>)
        ensures
            match outcome {
                Ok(s) => as_text(self@) == Ok::<Seq<char>, Task>(s@),
                Err(task) => as_text(self@) == Err::<Seq<char>, Task>(task@),
            },
    {
        match self {
            ConnectorType::Integer(n) => Ok(text::integer_to_text(*n)),
            ConnectorType::Float(bits) => Err(FloatTask::Format(*bits)),
            ConnectorType::String(s) => Ok(s.clone()),
            ConnectorType::Boolean(b) => Ok(text::boolean_to_text(*b)),
            ConnectorType::Null(_) => Ok(String::new()),
        }
    }

    fn to_boolean(&self) -> (b: bool)
        ensures
            b == as_boolean(self@),
    {
        match self {
            ConnectorType::Integer(n) => *n != 0,
            ConnectorType::Float(bits) => binary32::float_is_nonzero(*bits),
            ConnectorType::String(s) => match text::parse_boolean(s.as_str()) {
                Some(b) => b,
                None => false,
            },
            ConnectorType::Boolean(b) => *b,
            ConnectorType::Null(_) => false,
        }
    }

    /// The text that shows the value, or, for a `Float`, the work that finds
    /// it.
    pub fn to_text(&self) -> (outcome: Result<String, FloatTask>)
        ensures
            match outcome {
                Ok(s) => shown(self@) == Ok::<Seq<char>, Task>(s@),
                Err(task) => shown(self@) == Err::<Seq<char>, Task>(task@),
            },
    {
        match self {
            ConnectorType::Null(null) => {
                proof {
                    reveal_strlit("Null");
                }
                let text: String = null.to_text();
                assert(text@ =~= seq!['N', 'u', 'l', 'l']);
                Ok(text)
            },
            _ => self.to_string_value(),
        }
    }

    /// Converts the value to the type that `connector_type` identifies.
    ///
    /// Every conversion is carried out but the one between a `Float` and its
    /// text, which ends in `Err` with the work to do.
    pub fn get_variant(&self, connector_type: i32) -> (outcome: Result<ConnectorType, FloatTask>)
        requires
            ConnectorTypeId::is_known(connector_type),
        ensures
            outcome_view(outcome) == converted(self@, connector_type),
    {
        if connector_type == ConnectorTypeId::INT {
            Ok(ConnectorType::Integer(self.to_integer()))
        } else if connector_type == ConnectorTypeId::FLOAT {
            match self.to_float() {
                Ok(bits) => Ok(ConnectorType::Float(bits)),
                Err(task) => Err(task),
            }
        } else if connector_type == ConnectorTypeId::STRING {
            match self.to_string_value() {
                Ok(s) => Ok(ConnectorType::String(s)),
                Err(task) => Err(task),
            }
        } else if connector_type == ConnectorTypeId::BOOL {
            Ok(ConnectorType::Boolean(self.to_boolean()))
        } else if connector_type == ConnectorTypeId::NULL {
            Ok(ConnectorType::Null(Null::new()))
        } else {
            unreached()
        }
    }
}

} // verus!
