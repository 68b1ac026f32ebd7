//! The ways in which tokenizing and running fail. Every failure ends the
//! run: there is no recovery and no partial result.

use vstd::prelude::*;

verus! {

/// Why source text is no token sequence.
#[derive(Clone, Copy, Debug, PartialEq, Eq, Structural)]
pub enum LexicalError {
    /// A character that starts no token and is no whitespace.
    UnexpectedCharacter,
    /// A string literal whose closing quote is missing.
    UnterminatedString,
}

/// Why the engine stopped before the end of the token sequence.
#[derive(Clone, Copy, Debug, PartialEq, Eq, Structural)]
pub enum RunError {
    /// A malformed `let`, `print`, `if`, `else` or `goto`, or a token that
    /// starts no statement.
    Syntax,
    /// A name was read that is not bound.
    UndefinedVariable,
    /// A value of the wrong kind: a `goto` to a text or a boolean, an `if` on
    /// a text or a number.
    TypeMismatch,
    /// A literal's text does not read as the number, boolean or index that
    /// its place asks for.
    NumericParse,
    /// An `if` or `else` with no block-close after it.
    UnterminatedBlock,
    /// An `if` whose condition opens with a group: the form is recognised and
    /// has no evaluation.
    UnsupportedCondition,
    /// The instruction pointer stands beyond the end of the token sequence.
    PointerOutOfRange,
}

} // verus!
