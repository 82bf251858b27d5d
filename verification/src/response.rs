//! Outcomes delivered to the requester of an access request.

use vstd::prelude::*;

verus! {

/// The terminal outcome of a portal request.
#[derive(Debug, Clone, PartialEq, Eq)]
pub enum PortalResponse<T> {
    /// The operator granted the request; the payload carries the result.
    Success(T),
    /// The operator dismissed the request, or a newer request replaced it.
    Cancelled,
    /// The request ended without any answer becoming available.
    Other,
}

/// The ways in which the arbiter can fail.
#[derive(Debug, Clone, Copy, PartialEq, Eq, Structural)]
pub enum AccessError {
    /// The operator's decision arrived while no request was current.
    InvariantViolation,
    /// The requester of a request was gone when its outcome was delivered.
    ReplyUnreachable,
}

impl<T> PortalResponse<T> {
    /// Settles what the requester is told once its reply channel has yielded
    /// `received`: the delivered outcome if there is one, and `Other` when the
    /// channel closed without ever carrying a value.
    pub fn from_received(received: Option<PortalResponse<T>>) -> (response: PortalResponse<T>)
        ensures
            response == match received {
                Some(r) => r,
                None => PortalResponse::Other,
            },
    {
        match received {
            Some(r) => r,
            None => PortalResponse::Other,
        }
    }

    /// Judges the delivery of an outcome. `unsent` is what the reply sink
    /// handed back because the requester was gone, nothing where the outcome
    /// went through. An outcome that comes back means the reply was
    /// unreachable; the arbiter carries on either way.
    pub fn delivery(unsent: Option<PortalResponse<T>>) -> (outcome: Result<(), AccessError>)
        ensures
            outcome == match unsent {
                Some(_) => Err::<(), AccessError>(AccessError::ReplyUnreachable),
                None => Ok::<(), AccessError>(()),
            },
    {
        match unsent {
            Some(_) => Err(AccessError::ReplyUnreachable),
            None => Ok(()),
        }
    }
}

} // verus!
