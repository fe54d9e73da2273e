//! The scalar values that a role update can carry.

use vstd::prelude::*;

verus! {

/// The three kinds of scalar that the document can hold.
#[derive(Clone, Copy, Debug, PartialEq, Eq, Structural)]
pub enum Kind {
    Bool,
    Integer,
    Text,
}

/// A scalar together with the tag that says which kind it is.
#[derive(Debug, PartialEq, Eq)]
pub enum TaggedValue {
    Bool(bool),
    Integer(u64),
    Text(String),
}

/// What a [`TaggedValue`] stands for: the scalar as the document shows it.
pub enum WireValue {
    Bool(bool),
    Integer(u64),
    Text(Seq<char>),
}

impl WireValue {
    /// The kind of the scalar.
    pub open spec fn kind(self) -> Kind {
        match self {
            WireValue::Bool(_) => Kind::Bool,
            WireValue::Integer(_) => Kind::Integer,
            WireValue::Text(_) => Kind::Text,
        }
    }
}

impl View for TaggedValue {
    type V = WireValue;

    open spec fn view(&self) -> WireValue {
        match self {
            TaggedValue::Bool(b) => WireValue::Bool(*b),
            TaggedValue::Integer(n) => WireValue::Integer(*n),
            TaggedValue::Text(s) => WireValue::Text(s@),
        }
    }
}

impl DeepView for TaggedValue {
    type V = WireValue;

    open spec fn deep_view(&self) -> WireValue {
        self@
    }
}

impl Clone for TaggedValue {
    /// A copy that stands for the same scalar.
    fn clone(&self) -> (copy: Self)
        ensures
            copy@ == self@,
    {
        match self {
            TaggedValue::Bool(b) => TaggedValue::Bool(*b),
            TaggedValue::Integer(n) => TaggedValue::Integer(*n),
            TaggedValue::Text(s) => TaggedValue::Text(s.clone()),
        }
    }
}

impl TaggedValue {
    /// The kind of the scalar, read off its tag.
    pub fn kind(&self) -> (k: Kind)
        ensures
            k == self@.kind(),
    {
        match self {
            TaggedValue::Bool(_) => Kind::Bool,
            TaggedValue::Integer(_) => Kind::Integer,
            TaggedValue::Text(_) => Kind::Text,
        }
    }
}

} // verus!
