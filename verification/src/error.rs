//! Parse-time errors: non-fatal, accumulated in an ordered list, each
//! carrying a human-readable description.

use vstd::prelude::*;
use vstd::string::*;

verus! {

/// The kind of a parse-time error.
#[derive(Debug, Clone, Copy, PartialEq, Eq, Structural)]
pub enum ParseErrorKind {
    UnexpectedToken,
}

/// A parse-time error: its kind and a human-readable description.
#[derive(Debug, PartialEq)]
pub struct ParseError {
    kind: ParseErrorKind,
    msg: String,
}

/// The mathematical shape of a parse error.
pub struct PErrS {
    pub kind: ParseErrorKind,
    pub msg: Seq<char>,
}

impl View for ParseError {
    type V = PErrS;

    closed spec fn view(&self) -> PErrS {
        PErrS { kind: self.kind, msg: self.msg@ }
    }
}

impl ParseError {
    /// An error of the given kind with the given description.
    pub fn new(kind: ParseErrorKind, msg: String) -> (r: ParseError)
        ensures
            r@ == (PErrS { kind, msg: msg@ }),
    {
        ParseError { kind, msg }
    }

    /// The error's kind.
    pub fn kind(&self) -> (r: ParseErrorKind)
        ensures
            r == self@.kind,
    {
        self.kind
    }

    /// The error's description.
    pub fn message(&self) -> (r: String)
        ensures
            r@ == self@.msg,
    {
        self.msg.clone()
    }

    /// An exact copy of this error.
    pub fn duplicate(&self) -> (r: ParseError)
        ensures
            r@ == self@,
    {
        ParseError { kind: self.kind, msg: self.msg.clone() }
    }
}

/// The shape of an error list, error by error.
pub open spec fn errs_view(v: Seq<ParseError>) -> Seq<PErrS> {
    v.map_values(|e: ParseError| e@)
}

} // verus!
