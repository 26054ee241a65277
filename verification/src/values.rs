//! Runtime values.

use vstd::prelude::*;
use crate::frames::Frame;

verus! {

/// A value that a program computes with.
///
/// Functions, types and instances refer to the chunk's tables by index and to
/// frames by handle, so a value is cheap to copy and two copies of an instance
/// share its fields.
#[derive(Debug, PartialEq, Eq)]
pub enum Value {
    Integer(i64),
    Bool(bool),
    String(String),
    Nil,
    /// A function body (`proto`, an index into the chunk's functions) with
    /// the frame that was current where it was defined.
    Callable { proto: usize, closure: Frame },
    /// A type descriptor (`def`, an index into the chunk's types) with the
    /// frame that was current where it was defined.
    Type { def: usize, scope: Frame },
    /// An instance of the type `def` defined in `scope`, with the frame that
    /// holds its fields.
    Instance { def: usize, scope: Frame, fields: Frame },
}

/// The mathematical value of a [`Value`].
pub enum ValueView {
    Integer(int),
    Bool(bool),
    String(Seq<char>),
    Nil,
    Callable { proto: int, closure: Frame },
    Type { def: int, scope: Frame },
    Instance { def: int, scope: Frame, fields: Frame },
}

impl View for Value {
    type V = ValueView;

    open spec fn view(&self) -> ValueView {
        match *self {
            Value::Integer(i) => ValueView::Integer(i as int),
            Value::Bool(b) => ValueView::Bool(b),
            Value::String(s) => ValueView::String(s@),
            Value::Nil => ValueView::Nil,
            Value::Callable { proto, closure } => ValueView::Callable {
                proto: proto as int,
                closure,
            },
            Value::Type { def, scope } => ValueView::Type { def: def as int, scope },
            Value::Instance { def, scope, fields } => ValueView::Instance {
                def: def as int,
                scope,
                fields,
            },
        }
    }
}

/// The name of a value's kind, as diagnostics show it.
pub open spec fn kind_name(value: ValueView) -> Seq<char> {
    match value {
        ValueView::Integer(_) => "integer"@,
        ValueView::Bool(_) => "bool"@,
        ValueView::String(_) => "string"@,
        ValueView::Nil => "nil"@,
        ValueView::Callable { .. } => "function"@,
        ValueView::Type { .. } => "type"@,
        ValueView::Instance { .. } => "instance"@,
    }
}

impl Value {
    /// The name of this value's kind.
    pub fn kind(&self) -> (r: &'static str)
        ensures
            r@ == kind_name(self@),
    {
        match self {
            Value::Integer(_) => "integer",
            Value::Bool(_) => "bool",
            Value::String(_) => "string",
            Value::Nil => "nil",
            Value::Callable { .. } => "function",
            Value::Type { .. } => "type",
            Value::Instance { .. } => "instance",
        }
    }

    /// Whether two values are the same: of one kind and equal in every
    /// part. Two instances are the same where they share their fields.
    pub fn same(&self, other: &Value) -> (r: bool)
        ensures
            r == (self@ == other@),
    {
        match (self, other) {
            (Value::Integer(a), Value::Integer(b)) => *a == *b,
            (Value::Bool(a), Value::Bool(b)) => *a == *b,
            (Value::String(a), Value::String(b)) => *a == *b,
            (Value::Nil, Value::Nil) => true,
            (
                Value::Callable { proto: p, closure: c },
                Value::Callable { proto: q, closure: d },
            ) => *p == *q && *c == *d,
            (Value::Type { def: p, scope: c }, Value::Type { def: q, scope: d }) => *p == *q && *c
                == *d,
            (
                Value::Instance { def: p, scope: c, fields: x },
                Value::Instance { def: q, scope: d, fields: y },
            ) => *p == *q && *c == *d && *x == *y,
            _ => false,
        }
    }

    /// A copy of this value. A copy of an instance shares the instance's
    /// fields with the value it was copied from.
    pub fn duplicate(&self) -> (r: Value)
        ensures
            r@ == self@,
    {
        match self {
            Value::Integer(i) => Value::Integer(*i),
            Value::Bool(b) => Value::Bool(*b),
            Value::String(s) => Value::String(s.clone()),
            Value::Nil => Value::Nil,
            Value::Callable { proto, closure } => Value::Callable {
                proto: *proto,
                closure: *closure,
            },
            Value::Type { def, scope } => Value::Type { def: *def, scope: *scope },
            Value::Instance { def, scope, fields } => Value::Instance {
                def: *def,
                scope: *scope,
                fields: *fields,
            },
        }
    }
}

impl Clone for Value {
    fn clone(&self) -> (r: Value)
        ensures
            r@ == self@,
    {
        self.duplicate()
    }
}

} // verus!
