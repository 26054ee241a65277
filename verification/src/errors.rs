//! Positioned diagnostics.

use vstd::prelude::*;
use vstd::string::StringExecFns;
use crate::address::{Address, AddressView};

verus! {

/// The family a diagnostic belongs to.
#[derive(Debug, Clone, Copy, PartialEq, Eq, Structural)]
pub enum ErrorType {
    Lexical,
    Syntax,
    Type,
    Argument,
    Runtime,
}

/// A fault with the place it was raised at, what went wrong and what to try.
#[derive(Debug, PartialEq, Eq)]
pub struct Error {
    pub kind: ErrorType,
    pub address: Address,
    pub message: String,
    pub hint: String,
}

/// The mathematical value of an [`Error`].
pub struct ErrorView {
    pub kind: ErrorType,
    pub address: AddressView,
    pub message: Seq<char>,
    pub hint: Seq<char>,
}

impl View for Error {
    type V = ErrorView;

    open spec fn view(&self) -> ErrorView {
        ErrorView {
            kind: self.kind,
            address: self.address@,
            message: self.message@,
            hint: self.hint@,
        }
    }
}

/// The text that `{:?}` formatting gives for a string: the string between
/// double quotes, with the characters that need it escaped.
pub uninterp spec fn debug_quoted(text: Seq<char>) -> Seq<char>;

/// Formats `text` with std's `{:?}` (`<str as Debug>::fmt`). The result is a
/// function of the characters of `text` alone; nothing more is claimed of it.
#[verifier::external_body]
pub(crate) fn quote(text: &String) -> (r: String)
    ensures
        r@ == debug_quoted(text@),
{
    format!("{:?}", text)
}

/// The diagnostic for a name that no reachable frame binds, given the quoted
/// form of the name.
pub open spec fn not_found_view(address: AddressView, quoted: Seq<char>) -> ErrorView {
    ErrorView {
        kind: ErrorType::Runtime,
        address,
        message: "not found: "@ + quoted,
        hint: "check variable existence."@,
    }
}

/// The diagnostic for a name that its frame already binds, given the quoted
/// form of the name.
pub open spec fn already_defined_view(address: AddressView, quoted: Seq<char>) -> ErrorView {
    ErrorView {
        kind: ErrorType::Runtime,
        address,
        message: "already defined: "@ + quoted,
        hint: "check variable overrides."@,
    }
}

/// The diagnostic for an unwind signal that nothing consumed.
pub open spec fn flow_leak_view(address: AddressView) -> ErrorView {
    ErrorView {
        kind: ErrorType::Runtime,
        address,
        message: "flow leak."@,
        hint: "check your code."@,
    }
}

/// The diagnostic for an operator applied to operands it is not defined
/// for, given the operator's symbol and the kinds of both operands.
pub open spec fn unsupported_view(
    address: AddressView,
    symbol: Seq<char>,
    left: Seq<char>,
    right: Seq<char>,
) -> ErrorView {
    ErrorView {
        kind: ErrorType::Type,
        address,
        message: "could not use '"@ + symbol + "' with "@ + left + " and "@ + right + "."@,
        hint: "check the types of both operands."@,
    }
}

/// The diagnostic for a value of the wrong kind, given the kind that was
/// needed and the kind that was found.
pub open spec fn expected_view(
    address: AddressView,
    wanted: Seq<char>,
    found: Seq<char>,
) -> ErrorView {
    ErrorView {
        kind: ErrorType::Type,
        address,
        message: "expected "@ + wanted + ", found "@ + found + "."@,
        hint: "check the type of the value."@,
    }
}

/// The diagnostic for a call with the wrong number of arguments.
pub open spec fn arity_view(address: AddressView) -> ErrorView {
    ErrorView {
        kind: ErrorType::Argument,
        address,
        message: "wrong number of arguments."@,
        hint: "check the call against the definition."@,
    }
}

/// The diagnostic for integer arithmetic that left the 64-bit range.
pub open spec fn overflow_view(address: AddressView) -> ErrorView {
    ErrorView {
        kind: ErrorType::Runtime,
        address,
        message: "integer overflow."@,
        hint: "check the size of the operands."@,
    }
}

/// The diagnostic for an instruction that found too few values on the stack.
pub open spec fn underflow_view(address: AddressView) -> ErrorView {
    ErrorView {
        kind: ErrorType::Runtime,
        address,
        message: "stack underflow."@,
        hint: "the chunk is malformed."@,
    }
}

/// The diagnostic for an instruction that names a function, a type or a
/// frame that does not exist.
pub open spec fn malformed_view(address: AddressView) -> ErrorView {
    ErrorView {
        kind: ErrorType::Runtime,
        address,
        message: "malformed chunk."@,
        hint: "the chunk names something that does not exist."@,
    }
}

/// The diagnostic for a run that used up its steps.
pub open spec fn exhausted_view(address: AddressView) -> ErrorView {
    ErrorView {
        kind: ErrorType::Runtime,
        address,
        message: "step budget exhausted."@,
        hint: "raise the budget or check for an endless loop."@,
    }
}

impl Error {
    /// A diagnostic made of its four parts.
    pub fn new(kind: ErrorType, address: Address, message: String, hint: String) -> (r: Error)
        ensures
            r@ == (ErrorView { kind, address: address@, message: message@, hint: hint@ }),
    {
        Error { kind, address, message, hint }
    }

    /// "not found", raised at `address`, for the name whose quoted form is
    /// `quoted`.
    pub fn not_found(address: Address, quoted: String) -> (r: Error)
        ensures
            r@ == not_found_view(address@, quoted@),
    {
        let message = String::from_str("not found: ").concat(quoted.as_str());
        Error::new(
            ErrorType::Runtime,
            address,
            message,
            String::from_str("check variable existence."),
        )
    }

    /// "already defined", raised at `address`, for the name whose quoted form
    /// is `quoted`.
    pub fn already_defined(address: Address, quoted: String) -> (r: Error)
        ensures
            r@ == already_defined_view(address@, quoted@),
    {
        let message = String::from_str("already defined: ").concat(quoted.as_str());
        Error::new(
            ErrorType::Runtime,
            address,
            message,
            String::from_str("check variable overrides."),
        )
    }

    /// "flow leak", raised at `address`.
    pub fn flow_leak(address: Address) -> (r: Error)
        ensures
            r@ == flow_leak_view(address@),
    {
        Error::new(
            ErrorType::Runtime,
            address,
            String::from_str("flow leak."),
            String::from_str("check your code."),
        )
    }

    /// "could not use", raised at `address`, for the operator `symbol`
    /// applied to operands of the kinds `left` and `right`.
    pub fn unsupported(address: Address, symbol: &str, left: &str, right: &str) -> (r: Error)
        ensures
            r@ == unsupported_view(address@, symbol@, left@, right@),
    {
        let message = String::from_str("could not use '").concat(symbol).concat("' with ").concat(
            left,
        ).concat(" and ").concat(right).concat(".");
        Error::new(
            ErrorType::Type,
            address,
            message,
            String::from_str("check the types of both operands."),
        )
    }

    /// "expected", raised at `address`, for a value of kind `found` where
    /// one of kind `wanted` was needed.
    pub fn expected(address: Address, wanted: &str, found: &str) -> (r: Error)
        ensures
            r@ == expected_view(address@, wanted@, found@),
    {
        let message = String::from_str("expected ").concat(wanted).concat(", found ").concat(
            found,
        ).concat(".");
        Error::new(
            ErrorType::Type,
            address,
            message,
            String::from_str("check the type of the value."),
        )
    }

    /// "wrong number of arguments", raised at `address`.
    pub fn arity(address: Address) -> (r: Error)
        ensures
            r@ == arity_view(address@),
    {
        Error::new(
            ErrorType::Argument,
            address,
            String::from_str("wrong number of arguments."),
            String::from_str("check the call against the definition."),
        )
    }

    /// "integer overflow", raised at `address`.
    pub fn overflow(address: Address) -> (r: Error)
        ensures
            r@ == overflow_view(address@),
    {
        Error::new(
            ErrorType::Runtime,
            address,
            String::from_str("integer overflow."),
            String::from_str("check the size of the operands."),
        )
    }

    /// "stack underflow", raised at `address`.
    pub fn underflow(address: Address) -> (r: Error)
        ensures
            r@ == underflow_view(address@),
    {
        Error::new(
            ErrorType::Runtime,
            address,
            String::from_str("stack underflow."),
            String::from_str("the chunk is malformed."),
        )
    }

    /// "malformed chunk", raised at `address`.
    pub fn malformed(address: Address) -> (r: Error)
        ensures
            r@ == malformed_view(address@),
    {
        Error::new(
            ErrorType::Runtime,
            address,
            String::from_str("malformed chunk."),
            String::from_str("the chunk names something that does not exist."),
        )
    }

    /// "step budget exhausted", raised at `address`.
    pub fn exhausted(address: Address) -> (r: Error)
        ensures
            r@ == exhausted_view(address@),
    {
        Error::new(
            ErrorType::Runtime,
            address,
            String::from_str("step budget exhausted."),
            String::from_str("raise the budget or check for an endless loop."),
        )
    }

    /// A copy of this diagnostic.
    pub fn duplicate(&self) -> (r: Error)
        ensures
            r@ == self@,
    {
        Error {
            kind: self.kind,
            address: self.address.duplicate(),
            message: self.message.clone(),
            hint: self.hint.clone(),
        }
    }
}

impl Clone for Error {
    fn clone(&self) -> (r: Error)
        ensures
            r@ == self@,
    {
        self.duplicate()
    }
}

} // verus!
