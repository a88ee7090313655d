//! Global variables.
use crate::value::{Value, ValueType};
use vstd::prelude::*;

verus! {

/// The declared type of a global: what it holds and whether it may change.
#[derive(Clone, Copy, Debug, PartialEq, Eq, Structural)]
pub struct GlobalType {
    pub content_type: ValueType,
    pub mutable: bool,
}

impl GlobalType {
    pub fn new(content_type: ValueType, mutable: bool) -> (ty: Self)
        ensures
            ty == (GlobalType { content_type, mutable }),
    {
        GlobalType { content_type, mutable }
    }

    pub fn content_type(&self) -> (ty: ValueType)
        ensures
            ty == self.content_type,
    {
        self.content_type
    }

    pub fn is_mutable(&self) -> (b: bool)
        ensures
            b == self.mutable,
    {
        self.mutable
    }
}

/// A global: its value now, and its declared type.
#[derive(Clone, Copy, Debug, PartialEq, Eq, Structural)]
pub struct GlobalInstance {
    pub value: Value,
    pub ty: GlobalType,
}

impl GlobalInstance {
    pub fn new(value: Value, ty: GlobalType) -> (g: Self)
        ensures
            g == (GlobalInstance { value, ty }),
    {
        GlobalInstance { value, ty }
    }

    pub fn value(&self) -> (v: Value)
        ensures
            v == self.value,
    {
        self.value
    }

    pub fn ty(&self) -> (ty: GlobalType)
        ensures
            ty == self.ty,
    {
        self.ty
    }

    pub fn is_mutable(&self) -> (b: bool)
        ensures
            b == self.ty.mutable,
    {
        self.ty.mutable
    }

    /// Overwrites the value. Whether the global may change is the caller's
    /// to test: the declared type stays as it is.
    pub fn set_value(&mut self, value: Value)
        ensures
            *final(self) == (GlobalInstance { value, ty: old(self).ty }),
    {
        self.value = value;
    }
}

} // verus!
