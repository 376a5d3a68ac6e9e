//! Parse failures.

use vstd::prelude::*;

verus! {

/// Why an instruction could not be read.
#[derive(Debug, Clone, Copy, PartialEq, Eq, Structural)]
pub enum ParseErrorKind {
    /// No keyword stands where one is expected, or no blank separates the
    /// keyword from its argument.
    MalformedKeyword,
    /// The keyword is well formed but names no known instruction.
    UnrecognizedInstruction,
    /// The argument does not follow the rule of its instruction.
    MalformedArgument,
}

/// A parse failure: its kind, and the input from the point of failure on.
///
/// `at` is a suffix of the text that was parsed, so its length gives the
/// position of the failure and its front the offending text.
#[derive(Debug, Clone, Copy, PartialEq)]
pub struct ParseError<'a> {
    pub kind: ParseErrorKind,
    pub at: &'a str,
}

/// The mathematical value of a [`ParseError`].
pub struct ParseErrorView {
    pub kind: ParseErrorKind,
    pub at: Seq<char>,
}

impl<'a> View for ParseError<'a> {
    type V = ParseErrorView;

    open spec fn view(&self) -> ParseErrorView {
        ParseErrorView { kind: self.kind, at: self.at@ }
    }
}

impl<'a> ParseError<'a> {
    /// A failure of kind `kind` at the front of `at`.
    pub fn new(kind: ParseErrorKind, at: &'a str) -> (e: Self)
        ensures
            e.kind == kind,
            e.at == at,
    {
        ParseError { kind, at }
    }
}

} // verus!
