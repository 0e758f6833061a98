//! The ways in which a call on the broker ends without success, and how
//! each is reported to the remote caller.

use vstd::prelude::*;

verus! {

/// Why a call failed. Each failure is final for its call: the broker retries
/// nothing.
#[derive(Debug, Clone, Copy, PartialEq, Eq, Structural)]
pub enum BrokerError {
    /// The recipient has no live session. The message was neither queued nor
    /// recorded.
    RecipientNotFound,
    /// The nickname has a session whose client is still connected.
    AlreadyActive,
    /// The recipient's client went away between lookup and push. The message
    /// is lost and was not recorded.
    DeliveryFailed,
    /// The store could not be reached. After a send this is reported although
    /// the recipient has the message already.
    PersistenceFailed,
}

/// The status under which a failure travels back to the remote caller.
#[derive(Debug, Clone, Copy, PartialEq, Eq, Structural)]
pub enum StatusCode {
    NotFound,
    AlreadyExists,
    Internal,
}

impl BrokerError {
    /// The status that reports this failure.
    pub open spec fn spec_status(self) -> StatusCode {
        match self {
            BrokerError::RecipientNotFound => StatusCode::NotFound,
            BrokerError::AlreadyActive => StatusCode::AlreadyExists,
            BrokerError::DeliveryFailed => StatusCode::Internal,
            BrokerError::PersistenceFailed => StatusCode::Internal,
        }
    }

    /// The status that reports this failure: an unknown recipient is not
    /// found, a taken nickname exists already, and a failed push or a failed
    /// store are internal.
    #[verifier::when_used_as_spec(spec_status)]
    pub fn status(self) -> (code: StatusCode)
        ensures
            code == self.spec_status(),
    {
        match self {
            BrokerError::RecipientNotFound => StatusCode::NotFound,
            BrokerError::AlreadyActive => StatusCode::AlreadyExists,
            BrokerError::DeliveryFailed => StatusCode::Internal,
            BrokerError::PersistenceFailed => StatusCode::Internal,
        }
    }
}

} // verus!
