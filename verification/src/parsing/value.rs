//! Run-time values and their coercions.

use vstd::prelude::*;
use vstd::std_specs::convert::FromSpecImpl;
use crate::memory::{Address, AddressView};
use crate::parsing::parsedvalue::ParsedValue;
use crate::types::Type;

verus! {

/// A value of the language.
#[derive(Debug, PartialEq)]
pub enum Value {
    Integer(isize),
    Boolean(bool),
    Unit,
    Pointer(Address),
}

/// The mathematical view of a [`Value`].
pub enum ValueView {
    Integer(isize),
    Boolean(bool),
    Unit,
    Pointer(AddressView),
}

impl ValueView {
    /// The kind of the value.
    pub open spec fn kind(self) -> Type {
        match self {
            ValueView::Integer(_) => Type::Int,
            ValueView::Boolean(_) => Type::Bool,
            ValueView::Unit => Type::Unit,
            ValueView::Pointer(_) => Type::Address,
        }
    }

    /// The integer that the value holds, or else its kind.
    pub open spec fn to_int(self) -> Result<isize, Type> {
        match self {
            ValueView::Integer(i) => Ok(i),
            _ => Err(self.kind()),
        }
    }

    /// The boolean that the value holds, or else its kind.
    pub open spec fn to_bool(self) -> Result<bool, Type> {
        match self {
            ValueView::Boolean(b) => Ok(b),
            _ => Err(self.kind()),
        }
    }

    /// The value that a literal denotes.
    pub open spec fn of_literal(pv: ParsedValue) -> ValueView {
        match pv {
            ParsedValue::Integer(i) => ValueView::Integer(i),
            ParsedValue::Boolean(b) => ValueView::Boolean(b),
            ParsedValue::Unit => ValueView::Unit,
        }
    }
}

impl View for Value {
    type V = ValueView;

    open spec fn view(&self) -> ValueView {
        match self {
            Value::Integer(i) => ValueView::Integer(*i),
            Value::Boolean(b) => ValueView::Boolean(*b),
            Value::Unit => ValueView::Unit,
            Value::Pointer(a) => ValueView::Pointer(a@),
        }
    }
}

impl Clone for Value {
    fn clone(&self) -> (v: Value)
        ensures
            v == *self,
    {
        match self {
            Value::Integer(i) => Value::Integer(*i),
            Value::Boolean(b) => Value::Boolean(*b),
            Value::Unit => Value::Unit,
            Value::Pointer(a) => Value::Pointer(a.clone()),
        }
    }
}

impl From<ParsedValue> for Value {
    fn from(pv: ParsedValue) -> (v: Value)
        ensures
            v@ == ValueView::of_literal(pv),
    {
        match pv {
            ParsedValue::Integer(i) => Value::Integer(i),
            ParsedValue::Boolean(b) => Value::Boolean(b),
            ParsedValue::Unit => Value::Unit,
        }
    }
}

impl FromSpecImpl<ParsedValue> for Value {
    open spec fn obeys_from_spec() -> bool {
        true
    }

    open spec fn from_spec(pv: ParsedValue) -> Value {
        match pv {
            ParsedValue::Integer(i) => Value::Integer(i),
            ParsedValue::Boolean(b) => Value::Boolean(b),
            ParsedValue::Unit => Value::Unit,
        }
    }
}

impl From<&Value> for Type {
    fn from(v: &Value) -> (t: Type)
        ensures
            t == v@.kind(),
    {
        match v {
            Value::Integer(_) => Type::Int,
            Value::Boolean(_) => Type::Bool,
            Value::Unit => Type::Unit,
            Value::Pointer(_) => Type::Address,
        }
    }
}

impl FromSpecImpl<&Value> for Type {
    open spec fn obeys_from_spec() -> bool {
        true
    }

    open spec fn from_spec(v: &Value) -> Type {
        v@.kind()
    }
}

impl Value {
    /// Coerces the value to an integer: the integer it holds, or else the
    /// kind that it has instead.
    pub fn to_int(&self) -> (r: Result<isize, Type>)
        ensures
            r == self@.to_int(),
    {
        match self {
            Value::Integer(i) => Ok(*i),
            _ => Err(Type::from(self)),
        }
    }

    /// Coerces the value to a boolean: the boolean it holds, or else the
    /// kind that it has instead.
    pub fn to_bool(&self) -> (r: Result<bool, Type>)
        ensures
            r == self@.to_bool(),
    {
        match self {
            Value::Boolean(b) => Ok(*b),
            _ => Err(Type::from(self)),
        }
    }
}

} // verus!
