//! The rule by which a capability of the host is bound to its handler: each
//! capability has exactly one.

use vstd::prelude::*;

verus! {

/// Why a capability cannot be bound.
#[derive(Clone, Copy, PartialEq, Eq, Debug, Structural)]
pub enum BindingError {
    /// No handler was registered.
    Missing,
    /// More than one handler was registered.
    Ambiguous,
}

/// The handler of a capability, given all that were registered for it.
pub open spec fn spec_sole<F>(handlers: Seq<F>) -> Result<F, BindingError> {
    if handlers.len() == 0 {
        Err(BindingError::Missing)
    } else if handlers.len() == 1 {
        Ok(handlers[0])
    } else {
        Err(BindingError::Ambiguous)
    }
}

/// The handler of a capability, given all that were registered for it: the
/// one that there is, and an error if there is none or more than one.
pub fn sole<F>(handlers: &[F]) -> (bound: Result<&F, BindingError>)
    ensures
        match bound {
            Ok(handler) => spec_sole(handlers@) == Ok::<F, BindingError>(*handler),
            Err(e) => spec_sole(handlers@) == Err::<F, BindingError>(e),
        },
{
    if handlers.len() == 0 {
        Err(BindingError::Missing)
    } else if handlers.len() == 1 {
        Ok(&handlers[0])
    } else {
        Err(BindingError::Ambiguous)
    }
}

} // verus!
