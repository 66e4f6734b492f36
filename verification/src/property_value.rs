//! The value of an entity's property.

use vstd::prelude::*;

verus! {

/// What a property cell holds. Properties are untyped on the wire, so a value
/// carries its own kind. Of a number that is no 64-bit signed integer, and of
/// arrays and objects, only the kind is kept: no behaviour reads further.
#[derive(Clone, Debug, PartialEq, Eq)]
pub enum PropertyValue {
    Null,
    Bool(bool),
    /// A number that fits a 64-bit signed integer.
    Integer(i64),
    /// Any other number.
    Decimal,
    Text(String),
    Array,
    Object,
}

/// A property value with its text as a sequence of characters.
pub enum PropertyValueView {
    Null,
    Bool(bool),
    Integer(i64),
    Decimal,
    Text(Seq<char>),
    Array,
    Object,
}

impl View for PropertyValue {
    type V = PropertyValueView;

    open spec fn view(&self) -> PropertyValueView {
        match self {
            PropertyValue::Null => PropertyValueView::Null,
            PropertyValue::Bool(b) => PropertyValueView::Bool(*b),
            PropertyValue::Integer(n) => PropertyValueView::Integer(*n),
            PropertyValue::Decimal => PropertyValueView::Decimal,
            PropertyValue::Text(s) => PropertyValueView::Text(s@),
            PropertyValue::Array => PropertyValueView::Array,
            PropertyValue::Object => PropertyValueView::Object,
        }
    }
}

impl PropertyValueView {
    /// The boolean, if the value is one.
    pub open spec fn as_bool(self) -> Option<bool> {
        match self {
            PropertyValueView::Bool(b) => Some(b),
            _ => None,
        }
    }

    /// The integer, if the value is one.
    pub open spec fn as_i64(self) -> Option<i64> {
        match self {
            PropertyValueView::Integer(n) => Some(n),
            _ => None,
        }
    }

    /// The text, if the value is one.
    pub open spec fn as_text(self) -> Option<Seq<char>> {
        match self {
            PropertyValueView::Text(s) => Some(s),
            _ => None,
        }
    }
}

impl PropertyValue {
    /// The boolean, if the value is one.
    pub fn as_bool(&self) -> (b: Option<bool>)
        ensures
            b == self@.as_bool(),
    {
        match self {
            PropertyValue::Bool(b) => Some(*b),
            _ => None,
        }
    }

    /// The integer, if the value is one.
    pub fn as_i64(&self) -> (n: Option<i64>)
        ensures
            n == self@.as_i64(),
    {
        match self {
            PropertyValue::Integer(n) => Some(*n),
            _ => None,
        }
    }

    /// The text, if the value is one.
    pub fn as_str(&self) -> (s: Option<&str>)
        ensures
            match s {
                Some(text) => self@.as_text() == Some(text@),
                None => self@.as_text().is_none(),
            },
    {
        match self {
            PropertyValue::Text(s) => Some(s.as_str()),
            _ => None,
        }
    }

    /// A copy of the value.
    pub fn duplicate(&self) -> (copy: PropertyValue)
        ensures
            copy@ == self@,
    {
        match self {
            PropertyValue::Null => PropertyValue::Null,
            PropertyValue::Bool(b) => PropertyValue::Bool(*b),
            PropertyValue::Integer(n) => PropertyValue::Integer(*n),
            PropertyValue::Decimal => PropertyValue::Decimal,
            PropertyValue::Text(s) => PropertyValue::Text(s.clone()),
            PropertyValue::Array => PropertyValue::Array,
            PropertyValue::Object => PropertyValue::Object,
        }
    }
}

} // verus!
