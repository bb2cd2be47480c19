use vstd::prelude::*;

verus! {

/// What can go wrong while reading a container or an identifier's text.
#[derive(Clone, Copy, Debug, PartialEq, Eq, Structural)]
pub enum ScanError {
    /// A read would go past the end of the buffer.
    Truncated,
    /// An entry of an aggregate's index names a range outside the buffer.
    MalformedIndex,
    /// The text given as the identifier to search for does not parse.
    InvalidTargetIdentifier,
}

} // verus!
