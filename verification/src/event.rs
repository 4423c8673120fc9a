//! What passes between a decoder and a validation: events one way, a status
//! the other.

use vstd::prelude::*;
use crate::kind::ValueKind;

verus! {

/// One step of a decoder session, as the validation sees it.
#[derive(Clone, Copy, Debug, PartialEq, Eq, Hash, Structural)]
pub enum Event {
    /// The decoder found a value of this kind.
    Value(ValueKind),
    /// The decoder found the end of the collection that is open.
    End,
    /// A value of a foreign shape was handed to the validator that knows the
    /// shape, and that validator accepted it.
    Delegated,
    /// The decoder, or a foreign validator, raised an error.
    Fault,
}

/// Why a validation failed.
#[derive(Clone, Copy, Debug, PartialEq, Eq, Hash, Structural)]
pub enum ValidationError {
    /// The error is the decoder's own: the input is malformed, or the decoder
    /// or a foreign validator found a value that it did not expect. The
    /// caller holds the error value and passes it on unchanged.
    Decoder,
    /// The input is well-formed so far, but what the decoder found does not
    /// match the shape that was asked for.
    Mismatch,
}

/// Where a validation stands.
#[derive(Clone, Copy, Debug, PartialEq, Eq, Hash, Structural)]
pub enum Status {
    /// More events are needed.
    Running,
    /// One value of the expected shape has been seen to its end.
    Done,
    /// The validation has failed; it fails at the first defect and looks at
    /// nothing after it.
    Failed(ValidationError),
}

} // verus!
