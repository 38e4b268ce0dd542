use vstd::prelude::*;

verus! {

/// The ways in which handling one request can end without success.
#[derive(Clone, Copy, Debug, PartialEq, Eq, Structural)]
pub enum GatewayError {
    /// A required setting (secret, upstream address) is absent.
    Configuration,
    /// The bearer token is missing, malformed, wrongly signed or expired.
    Unauthenticated,
    /// The caller is known but holds none of the roles the route asks for.
    Unauthorized,
    /// The upstream could not be reached.
    UpstreamUnreachable,
    /// The username is already taken.
    CredentialConflict,
    /// Unknown username or wrong password; the two are not told apart.
    CredentialInvalid,
    /// A primitive the gateway relies on (randomness, hashing) failed.
    Internal,
}

impl GatewayError {
    /// The HTTP status with which this error is answered.
    pub open spec fn spec_status(self) -> u16 {
        match self {
            GatewayError::Configuration => 500,
            GatewayError::Unauthenticated => 401,
            GatewayError::Unauthorized => 403,
            GatewayError::UpstreamUnreachable => 502,
            GatewayError::CredentialConflict => 409,
            GatewayError::CredentialInvalid => 401,
            GatewayError::Internal => 500,
        }
    }

    pub fn status(&self) -> (r: u16)
        ensures
            r == self.spec_status(),
    {
        match self {
            GatewayError::Configuration => 500,
            GatewayError::Unauthenticated => 401,
            GatewayError::Unauthorized => 403,
            GatewayError::UpstreamUnreachable => 502,
            GatewayError::CredentialConflict => 409,
            GatewayError::CredentialInvalid => 401,
            GatewayError::Internal => 500,
        }
    }
}

} // verus!
