//! The typed, recoverable errors that evaluation can surface. Every failure
//! aborts only the rest of the statement sequence of one evaluation call;
//! bindings made by statements that completed earlier are kept.
use vstd::prelude::*;

verus! {

/// The error taxonomy of the language.
#[derive(Clone, Copy, PartialEq, Eq, Structural, Debug)]
pub enum Error {
    /// An unrecognized character stopped the lexer.
    LexError,
    /// An unexpected or missing token, or an unsupported declaration shape,
    /// stopped the parser.
    ParseError,
    /// An arithmetic operand, a built-in argument, or a callee had the wrong
    /// kind of value.
    TypeError,
    /// A call supplied a number of arguments different from the callee's arity.
    ArityError,
    /// Evaluation nested deeper than the fixed recursion budget; this bounds
    /// the otherwise unbounded recursion that deeply nested calls could reach.
    DepthError,
}

} // verus!
