//! The signal that unwinds execution.

use vstd::prelude::*;
use crate::address::{Address, AddressView};
use crate::errors::{Error, ErrorView, flow_leak_view};
use crate::values::{Value, ValueView};

verus! {

/// Why execution left its straight path: a fault, or one of the three exits
/// that a function or loop boundary consumes.
#[derive(Debug, PartialEq, Eq)]
pub enum ControlFlow {
    Error(Error),
    Return(Value),
    Break,
    Continue,
}

/// The mathematical value of a [`ControlFlow`].
pub enum ControlFlowView {
    Error(ErrorView),
    Return(ValueView),
    Break,
    Continue,
}

impl View for ControlFlow {
    type V = ControlFlowView;

    open spec fn view(&self) -> ControlFlowView {
        match *self {
            ControlFlow::Error(e) => ControlFlowView::Error(e@),
            ControlFlow::Return(v) => ControlFlowView::Return(v@),
            ControlFlow::Break => ControlFlowView::Break,
            ControlFlow::Continue => ControlFlowView::Continue,
        }
    }
}

/// What the top level reports for a signal that reached it: a fault as it
/// is, and a leak for an exit that no boundary consumed.
pub open spec fn surfaced(flow: ControlFlowView, address: AddressView) -> ErrorView {
    match flow {
        ControlFlowView::Error(e) => e,
        _ => flow_leak_view(address),
    }
}

impl ControlFlow {
    /// Turns a signal that reached the top level into the fault to report.
    /// A fault stays as it is. A `Return`, `Break` or `Continue` that got
    /// this far was missed by the boundary that owns it, and becomes a
    /// "flow leak" fault at `address`.
    pub fn surface(self, address: Address) -> (r: Error)
        ensures
            r@ == surfaced(self@, address@),
    {
        match self {
            ControlFlow::Error(e) => e,
            _ => Error::flow_leak(address),
        }
    }

    /// A copy of this signal.
    pub fn duplicate(&self) -> (r: ControlFlow)
        ensures
            r@ == self@,
    {
        match self {
            ControlFlow::Error(e) => ControlFlow::Error(e.duplicate()),
            ControlFlow::Return(v) => ControlFlow::Return(v.duplicate()),
            ControlFlow::Break => ControlFlow::Break,
            ControlFlow::Continue => ControlFlow::Continue,
        }
    }
}

impl Clone for ControlFlow {
    fn clone(&self) -> (r: ControlFlow)
        ensures
            r@ == self@,
    {
        self.duplicate()
    }
}

} // verus!
