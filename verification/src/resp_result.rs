use vstd::prelude::*;

verus! {

/// The scanner's one failure kind: no complete line is available starting at
/// the prior cursor, given the bytes currently in the buffer. The carried
/// offset documents how far the scan progressed before giving up.
#[derive(Clone, Copy, Debug, PartialEq, Eq, Structural)]
pub enum RESPError {
    OutOfBounds(usize),
}

/// Result of a scanning step.
pub type RESPResult<T> = Result<T, RESPError>;

} // verus!
