//! Binary operators and the table of operand kinds they are defined for.

use vstd::prelude::*;
use vstd::string::StringExecFns;
use crate::address::{Address, AddressView};
use crate::errors::{Error, ErrorView, overflow_view, unsupported_view};
use crate::flow::{ControlFlow, ControlFlowView};
use crate::values::{Value, ValueView, kind_name};

verus! {

/// A binary operator.
#[derive(Debug, Clone, Copy, PartialEq, Eq, Structural)]
pub enum BinOp {
    Add,
    Sub,
    Mul,
    Lt,
    Le,
    Gt,
    Ge,
    Eq,
    Ne,
    And,
    Or,
}

/// The operator as it is written.
pub open spec fn symbol_of(op: BinOp) -> Seq<char> {
    match op {
        BinOp::Add => "+"@,
        BinOp::Sub => "-"@,
        BinOp::Mul => "*"@,
        BinOp::Lt => "<"@,
        BinOp::Le => "<="@,
        BinOp::Gt => ">"@,
        BinOp::Ge => ">="@,
        BinOp::Eq => "=="@,
        BinOp::Ne => "!="@,
        BinOp::And => "&&"@,
        BinOp::Or => "||"@,
    }
}

/// `i` is a 64-bit signed integer.
pub open spec fn fits(i: int) -> bool {
    i64::MIN <= i <= i64::MAX
}

/// An integer result, or the overflow fault where it does not fit.
pub open spec fn checked(i: int, address: AddressView) -> Result<ValueView, ErrorView> {
    if fits(i) {
        Ok(ValueView::Integer(i))
    } else {
        Err(overflow_view(address))
    }
}

/// What `left op right` gives.
///
/// Integers are added, subtracted, multiplied and ordered; strings are
/// joined by `+`; booleans are combined by `&&` and `||`; any two values
/// can be compared by `==` and `!=`. Every other combination is a type
/// fault that names the operator and both kinds.
pub open spec fn binary_view(
    op: BinOp,
    left: ValueView,
    right: ValueView,
    address: AddressView,
) -> Result<ValueView, ErrorView> {
    match (op, left, right) {
        (BinOp::Add, ValueView::Integer(a), ValueView::Integer(b)) => checked(a + b, address),
        (BinOp::Sub, ValueView::Integer(a), ValueView::Integer(b)) => checked(a - b, address),
        (BinOp::Mul, ValueView::Integer(a), ValueView::Integer(b)) => checked(a * b, address),
        (BinOp::Add, ValueView::String(a), ValueView::String(b)) => Ok(ValueView::String(a + b)),
        (BinOp::Lt, ValueView::Integer(a), ValueView::Integer(b)) => Ok(ValueView::Bool(a < b)),
        (BinOp::Le, ValueView::Integer(a), ValueView::Integer(b)) => Ok(ValueView::Bool(a <= b)),
        (BinOp::Gt, ValueView::Integer(a), ValueView::Integer(b)) => Ok(ValueView::Bool(a > b)),
        (BinOp::Ge, ValueView::Integer(a), ValueView::Integer(b)) => Ok(ValueView::Bool(a >= b)),
        (BinOp::And, ValueView::Bool(a), ValueView::Bool(b)) => Ok(ValueView::Bool(a && b)),
        (BinOp::Or, ValueView::Bool(a), ValueView::Bool(b)) => Ok(ValueView::Bool(a || b)),
        (BinOp::Eq, _, _) => Ok(ValueView::Bool(left == right)),
        (BinOp::Ne, _, _) => Ok(ValueView::Bool(left != right)),
        _ => Err(unsupported_view(address, symbol_of(op), kind_name(left), kind_name(right))),
    }
}

impl BinOp {
    /// The operator as it is written.
    pub fn symbol(&self) -> (r: &'static str)
        ensures
            r@ == symbol_of(*self),
    {
        match self {
            BinOp::Add => "+",
            BinOp::Sub => "-",
            BinOp::Mul => "*",
            BinOp::Lt => "<",
            BinOp::Le => "<=",
            BinOp::Gt => ">",
            BinOp::Ge => ">=",
            BinOp::Eq => "==",
            BinOp::Ne => "!=",
            BinOp::And => "&&",
            BinOp::Or => "||",
        }
    }

    /// Applies the operator to two operands. A fault is raised at `address`.
    pub fn apply(&self, left: &Value, right: &Value, address: Address) -> (r: Result<
        Value,
        ControlFlow,
    >)
        ensures
            match r {
                Ok(v) => binary_view(*self, left@, right@, address@) == Ok::<ValueView, ErrorView>(
                    v@,
                ),
                Err(flow) => binary_view(*self, left@, right@, address@) matches Err(e) && flow@
                    == ControlFlowView::Error(e),
            },
    {
        let integer = match (self, left, right) {
            (BinOp::Add, Value::Integer(a), Value::Integer(b)) => Some(a.checked_add(*b)),
            (BinOp::Sub, Value::Integer(a), Value::Integer(b)) => Some(a.checked_sub(*b)),
            (BinOp::Mul, Value::Integer(a), Value::Integer(b)) => Some(a.checked_mul(*b)),
            _ => None,
        };
        if let Some(computed) = integer {
            return match computed {
                Some(i) => Ok(Value::Integer(i)),
                None => Err(ControlFlow::Error(Error::overflow(address))),
            };
        }
        match (self, left, right) {
            (BinOp::Add, Value::String(a), Value::String(b)) => Ok(
                Value::String(a.clone().concat(b.as_str())),
            ),
            (BinOp::Lt, Value::Integer(a), Value::Integer(b)) => Ok(Value::Bool(*a < *b)),
            (BinOp::Le, Value::Integer(a), Value::Integer(b)) => Ok(Value::Bool(*a <= *b)),
            (BinOp::Gt, Value::Integer(a), Value::Integer(b)) => Ok(Value::Bool(*a > *b)),
            (BinOp::Ge, Value::Integer(a), Value::Integer(b)) => Ok(Value::Bool(*a >= *b)),
            (BinOp::And, Value::Bool(a), Value::Bool(b)) => Ok(Value::Bool(*a && *b)),
            (BinOp::Or, Value::Bool(a), Value::Bool(b)) => Ok(Value::Bool(*a || *b)),
            (BinOp::Eq, _, _) => Ok(Value::Bool(left.same(right))),
            (BinOp::Ne, _, _) => Ok(Value::Bool(!left.same(right))),
            _ => Err(
                ControlFlow::Error(
                    Error::unsupported(address, self.symbol(), left.kind(), right.kind()),
                ),
            ),
        }
    }
}

} // verus!
