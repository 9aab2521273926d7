use crate::error::runtime::{type_conflict, RuntimeResult};
use vstd::prelude::*;

verus! {

/// A runtime value.
///
/// `VNumber` holds the IEEE-754 bit pattern of a single-precision float.
#[derive(Debug, PartialEq)]
pub enum Value {
    VString(String),
    VNumber(u32),
    VBool(bool),
}

/// What a [`Value`] holds, with text as a sequence of characters.
pub enum ValueView {
    Text(Seq<char>),
    Number(u32),
    Truth(bool),
}

impl View for Value {
    type V = ValueView;

    open spec fn view(&self) -> ValueView {
        match self {
            Value::VString(text) => ValueView::Text(text@),
            Value::VNumber(bits) => ValueView::Number(*bits),
            Value::VBool(truth) => ValueView::Truth(*truth),
        }
    }
}

impl Clone for Value {
    fn clone(&self) -> (copy: Self)
        ensures
            copy == *self,
    {
        match self {
            Value::VString(text) => Value::VString(text.clone()),
            Value::VNumber(bits) => Value::VNumber(*bits),
            Value::VBool(truth) => Value::VBool(*truth),
        }
    }
}

impl Default for Value {
    fn default() -> (value: Self)
        ensures
            value == Value::VBool(false),
    {
        Value::VBool(false)
    }
}

impl vstd::std_specs::convert::FromSpecImpl<Value> for Vec<u8> {
    open spec fn obeys_from_spec() -> bool {
        false
    }

    open spec fn from_spec(value: Value) -> Self {
        arbitrary()
    }
}

impl From<Value> for Vec<u8> {
    /// The encoding of `value`.
    fn from(value: Value) -> (bytes: Vec<u8>)
        ensures
            bytes@ == crate::codec::value_bytes(value@),
    {
        crate::codec::encode_value(&value)
    }
}

/// The views of a sequence of values, in order.
pub open spec fn views(values: Seq<Value>) -> Seq<ValueView> {
    values.map_values(|value: Value| value@)
}

impl ValueView {
    /// Logical negation, defined on truth values only.
    pub open spec fn not(self) -> Option<ValueView> {
        match self {
            ValueView::Truth(truth) => Some(ValueView::Truth(!truth)),
            _ => None,
        }
    }

    /// The bit pattern of a number.
    pub open spec fn number(self) -> Option<u32> {
        match self {
            ValueView::Number(bits) => Some(bits),
            _ => None,
        }
    }

    /// Whether two values that are not both numbers are equal: they are if
    /// they are of one type and hold the same.
    pub open spec fn same(self, other: ValueView) -> bool {
        self == other
    }
}

impl Value {
    /// `!self`: a type conflict unless `self` is a truth value.
    pub fn not(self) -> (result: RuntimeResult<Value>)
        ensures
            match self@.not() {
                Some(negated) => result matches Ok(value) && value@ == negated,
                None => result matches Err(error) && error.is_type_conflict(),
            },
    {
        match self {
            Value::VBool(truth) => Ok(Value::VBool(!truth)),
            _ => Err(type_conflict()),
        }
    }

    /// The bit pattern of the number that `self` is: a type conflict unless
    /// `self` is a number.
    pub fn number(&self) -> (result: RuntimeResult<u32>)
        ensures
            match self@.number() {
                Some(bits) => result matches Ok(found) && found == bits,
                None => result matches Err(error) && error.is_type_conflict(),
            },
    {
        match self {
            Value::VNumber(bits) => Ok(*bits),
            _ => Err(type_conflict()),
        }
    }

    /// Whether `self` and `other` hold the same, as bit patterns and texts.
    pub fn same(&self, other: &Value) -> (same: bool)
        ensures
            same == self@.same(other@),
    {
        match (self, other) {
            (Value::VString(a), Value::VString(b)) => {
                proof {
                    assert((a@ == b@) == (ValueView::Text(a@) == ValueView::Text(b@)));
                }
                *a == *b
            },
            (Value::VNumber(a), Value::VNumber(b)) => *a == *b,
            (Value::VBool(a), Value::VBool(b)) => *a == *b,
            _ => false,
        }
    }
}

} // verus!
