//! The scalar values that fields and literals hold.

use vstd::prelude::*;
use crate::number::{Number, option_int, within_i64};

verus! {

/// A dynamically typed scalar.
#[derive(Debug)]
pub enum Value {
    Null,
    Bool(bool),
    Number(Number),
    String(String),
}

/// What a [`Value`] stands for: the same scalar, with text as a sequence of characters.
pub enum ValueView {
    Null,
    Bool(bool),
    Number(Number),
    String(Seq<char>),
}

impl View for Value {
    type V = ValueView;

    open spec fn view(&self) -> ValueView {
        match self {
            Value::Null => ValueView::Null,
            Value::Bool(b) => ValueView::Bool(*b),
            Value::Number(n) => ValueView::Number(*n),
            Value::String(s) => ValueView::String(s@),
        }
    }
}

impl ValueView {
    /// Equality of values: the variants must match, and then the contents.
    pub open spec fn equals(self, other: ValueView) -> bool {
        match (self, other) {
            (ValueView::Null, ValueView::Null) => true,
            (ValueView::Bool(a), ValueView::Bool(b)) => a == b,
            (ValueView::Number(a), ValueView::Number(b)) => a.equals(b),
            (ValueView::String(a), ValueView::String(b)) => a == b,
            _ => false,
        }
    }

    /// The integer that a value coerces to: only a number that is an integer
    /// which an `i64` can hold has one.
    pub open spec fn as_integer(self) -> Option<int> {
        match self {
            ValueView::Number(n) => within_i64(n.integer()),
            _ => None,
        }
    }

    /// The boolean that a value coerces to: only a `Bool` has one.
    pub open spec fn as_boolean(self) -> Option<bool> {
        match self {
            ValueView::Bool(b) => Some(b),
            _ => None,
        }
    }

    /// The text that a value coerces to: only a `String` has one.
    pub open spec fn as_text(self) -> Option<Seq<char>> {
        match self {
            ValueView::String(s) => Some(s),
            _ => None,
        }
    }
}

/// The view of a value that may be absent.
pub open spec fn option_view(value: Option<Value>) -> Option<ValueView> {
    match value {
        Some(v) => Some(v@),
        None => None,
    }
}

impl ValueView {
    /// Equality of values does not depend on the order of its operands, it
    /// carries over from one pair of values to the next, and equal values
    /// coerce alike.
    pub proof fn lemma_equality(self, other: ValueView, third: ValueView)
        ensures
            self.equals(other) == other.equals(self),
            self.equals(other) && other.equals(third) ==> self.equals(third),
            self.equals(other) ==> self.as_integer() == other.as_integer(),
            self.equals(other) ==> self.as_boolean() == other.as_boolean(),
            self.equals(other) ==> self.as_text() == other.as_text(),
    {
        match (self, other, third) {
            (ValueView::Number(a), ValueView::Number(b), ValueView::Number(c)) => {
                a.lemma_equality(b, c);
            },
            (ValueView::Number(a), ValueView::Number(b), _) => {
                a.lemma_equality(b, b);
            },
            _ => {},
        }
    }
}

impl Clone for Value {
    fn clone(&self) -> (result: Self)
        ensures
            result@ == self@,
    {
        match self {
            Value::Null => Value::Null,
            Value::Bool(b) => Value::Bool(*b),
            Value::Number(n) => Value::Number(*n),
            Value::String(s) => Value::String(s.clone()),
        }
    }
}

impl PartialEq for Value {
    fn eq(&self, other: &Value) -> (result: bool) {
        match (self, other) {
            (Value::Null, Value::Null) => true,
            (Value::Bool(a), Value::Bool(b)) => *a == *b,
            (Value::Number(a), Value::Number(b)) => *a == *b,
            (Value::String(a), Value::String(b)) => *a == *b,
            _ => false,
        }
    }
}

impl vstd::std_specs::cmp::PartialEqSpecImpl for Value {
    open spec fn obeys_eq_spec() -> bool {
        true
    }

    open spec fn eq_spec(&self, other: &Value) -> bool {
        self@.equals(other@)
    }
}

impl Value {
    /// The value as an `i64`, if it is a number that is an integer.
    pub fn as_i64(&self) -> (result: Option<i64>)
        ensures
            option_int(result) == self@.as_integer(),
    {
        match self {
            Value::Number(n) => n.as_i64(),
            _ => None,
        }
    }

    /// The value as a `bool`, if it is one.
    pub fn as_bool(&self) -> (result: Option<bool>)
        ensures
            result == self@.as_boolean(),
    {
        match self {
            Value::Bool(b) => Some(*b),
            _ => None,
        }
    }

    /// The value as text, if it is a string.
    pub fn as_str(&self) -> (result: Option<&str>)
        ensures
            result.is_some() == self@.as_text().is_some(),
            result matches Some(s) ==> self@.as_text() == Some(s@),
    {
        match self {
            Value::String(s) => Some(s.as_str()),
            _ => None,
        }
    }
}

} // verus!
