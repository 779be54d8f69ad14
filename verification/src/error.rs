use vstd::prelude::*;

verus! {

/// Why a text was not accepted.
#[derive(Clone, Copy, Debug, PartialEq, Eq, Structural)]
pub enum ParseError {
    /// A required literal, digit run or number is missing at the position
    /// where it is expected, or an integer is too large for its field.
    Syntax,
    /// A number ends in an exponent marker with no digits after it. This error
    /// is final: no alternative is tried and no optional part is skipped once
    /// it has come up.
    MalformedNumber,
    /// The content of a bracket is neither a list of `key=value` parameters
    /// nor a run of digits, or the closing `]` does not follow it.
    Assertion,
    /// The text starts with none of the offset marks `~`, `@` and `:`.
    Offset,
    /// A whole fragment was read and characters are left after it.
    IncompleteInput,
}

impl ParseError {
    /// Whether a choice or an optional part may go on after this error.
    pub open spec fn recoverable(self) -> bool {
        self != ParseError::MalformedNumber
    }

    /// Tells whether a choice or an optional part may go on after this error.
    pub fn is_recoverable(&self) -> (r: bool)
        ensures
            r == self.recoverable(),
    {
        match self {
            ParseError::MalformedNumber => false,
            _ => true,
        }
    }
}

} // verus!
