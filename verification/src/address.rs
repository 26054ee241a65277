//! Source positions.

use vstd::prelude::*;

verus! {

/// Where in the source something stands: a line (or offset) and the name of
/// the source it belongs to.
#[derive(Debug, PartialEq, Eq)]
pub struct Address {
    pub line: u64,
    pub file: String,
}

/// The mathematical value of an [`Address`].
pub struct AddressView {
    pub line: int,
    pub file: Seq<char>,
}

impl View for Address {
    type V = AddressView;

    open spec fn view(&self) -> AddressView {
        AddressView { line: self.line as int, file: self.file@ }
    }
}

impl Address {
    /// An address at `line` of the source called `file`.
    pub fn new(line: u64, file: String) -> (r: Address)
        ensures
            r@ == (AddressView { line: line as int, file: file@ }),
    {
        Address { line, file }
    }

    /// A copy of this address.
    pub fn duplicate(&self) -> (r: Address)
        ensures
            r@ == self@,
    {
        Address { line: self.line, file: self.file.clone() }
    }
}

impl Clone for Address {
    fn clone(&self) -> (r: Address)
        ensures
            r@ == self@,
    {
        self.duplicate()
    }
}

} // verus!
