//! The error taxonomy: recoverable validation errors (bad user input) and
//! fatal conversion faults (a projection leg failed, or returned a point
//! that no valid coordinate can hold).
use vstd::prelude::*;

verus! {

/// What went wrong with a conversion request.
#[derive(Debug)]
pub enum CoordError {
    /// The input was malformed or out of range; the caller can report it
    /// and carry on.
    Validation(String),
    /// The external projection capability failed, or produced an impossible
    /// point; the whole request is abandoned.
    ConversionFault(String),
}

impl CoordError {
    /// A validation error carrying the given description.
    pub fn validation(msg: &str) -> (r: CoordError)
        ensures
            r matches CoordError::Validation(m) && m@ == msg@,
    {
        CoordError::Validation(msg.to_owned())
    }

    /// A conversion fault carrying the given description.
    pub fn conversion_fault(msg: &str) -> (r: CoordError)
        ensures
            r matches CoordError::ConversionFault(m) && m@ == msg@,
    {
        CoordError::ConversionFault(msg.to_owned())
    }

    /// The human-readable description.
    pub fn message(&self) -> (r: &str)
        ensures
            self matches CoordError::Validation(m) ==> r@ == m@,
            self matches CoordError::ConversionFault(m) ==> r@ == m@,
    {
        match self {
            CoordError::Validation(m) => m.as_str(),
            CoordError::ConversionFault(m) => m.as_str(),
        }
    }
}

} // verus!
