//! The failures that the authentication protocol reports to its callers.
use vstd::prelude::*;

verus! {

/// Why an authentication step was refused.
#[derive(Clone, Copy, Debug, PartialEq, Eq, Structural)]
pub enum AuthError {
    /// The named user has never registered.
    UserNotFound,
    /// No live challenge has the given identifier: it was answered, superseded
    /// or never issued.
    ChallengeNotFound,
    /// The response does not prove knowledge of the registered secret.
    VerificationFailed,
}

impl AuthError {
    /// A sentence describing the failure, for the transport layer to show.
    pub fn message(&self) -> (r: &'static str)
        ensures
            *self == AuthError::UserNotFound ==> r@
                == "Failed to retrieve user data, user must register first"@,
            *self == AuthError::ChallengeNotFound ==> r@
                == "Failed to retrieve user challenge data, user must submit an authentication request"@,
            *self == AuthError::VerificationFailed ==> r@
                == "Failed to verify challenge, invalid authentication attempt"@,
    {
        match self {
            AuthError::UserNotFound => "Failed to retrieve user data, user must register first",
            AuthError::ChallengeNotFound => {
                "Failed to retrieve user challenge data, user must submit an authentication request"
            },
            AuthError::VerificationFailed => {
                "Failed to verify challenge, invalid authentication attempt"
            },
        }
    }
}

} // verus!
