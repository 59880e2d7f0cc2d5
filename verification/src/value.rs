//! The canonical dynamic value: what every decoded column and every bound
//! parameter is represented as.

use vstd::prelude::*;

verus! {

/// The kind of a canonical value, without its payload.
#[derive(Debug, Clone, Copy, PartialEq, Eq, Structural)]
pub enum ValueKind {
    Null,
    Bool,
    Integer,
    Text,
    Bytes,
}

/// A decoded column value or a bind parameter.
///
/// Binary payloads are carried as base64 text in `Bytes`. There is no
/// floating-point variant: numeric columns are read as integers.
#[derive(Debug, PartialEq, Eq)]
pub enum CanonicalValue {
    Null,
    Bool(bool),
    Integer(i64),
    Text(String),
    Bytes(String),
}

/// Mathematical model of a [`CanonicalValue`].
pub ghost enum ValueView {
    Null,
    Bool(bool),
    Integer(int),
    Text(Seq<char>),
    Bytes(Seq<char>),
}

impl ValueView {
    /// The kind of the modelled value.
    pub open spec fn kind(self) -> ValueKind {
        match self {
            ValueView::Null => ValueKind::Null,
            ValueView::Bool(_) => ValueKind::Bool,
            ValueView::Integer(_) => ValueKind::Integer,
            ValueView::Text(_) => ValueKind::Text,
            ValueView::Bytes(_) => ValueKind::Bytes,
        }
    }
}

impl View for CanonicalValue {
    type V = ValueView;

    open spec fn view(&self) -> ValueView {
        match self {
            CanonicalValue::Null => ValueView::Null,
            CanonicalValue::Bool(b) => ValueView::Bool(*b),
            CanonicalValue::Integer(i) => ValueView::Integer(*i as int),
            CanonicalValue::Text(s) => ValueView::Text(s@),
            CanonicalValue::Bytes(s) => ValueView::Bytes(s@),
        }
    }
}

impl Clone for CanonicalValue {
    fn clone(&self) -> (copy: CanonicalValue)
        ensures
            copy@ == self@,
    {
        match self {
            CanonicalValue::Null => CanonicalValue::Null,
            CanonicalValue::Bool(b) => CanonicalValue::Bool(*b),
            CanonicalValue::Integer(i) => CanonicalValue::Integer(*i),
            CanonicalValue::Text(s) => CanonicalValue::Text(s.clone()),
            CanonicalValue::Bytes(s) => CanonicalValue::Bytes(s.clone()),
        }
    }
}

impl CanonicalValue {
    /// The kind of this value.
    pub fn kind(&self) -> (k: ValueKind)
        ensures
            k == self@.kind(),
    {
        match self {
            CanonicalValue::Null => ValueKind::Null,
            CanonicalValue::Bool(_) => ValueKind::Bool,
            CanonicalValue::Integer(_) => ValueKind::Integer,
            CanonicalValue::Text(_) => ValueKind::Text,
            CanonicalValue::Bytes(_) => ValueKind::Bytes,
        }
    }
}

} // verus!
