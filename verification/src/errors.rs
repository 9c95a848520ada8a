//! The failure taxonomy of one authentication attempt.
//!
//! Every error is fatal to the attempt and is surfaced to the caller as
//! a terminal `Result`; the core never panics and never exits the
//! process itself.

use vstd::prelude::*;

verus! {

/// A terminal failure of one authentication attempt.
#[derive(Debug, Clone, Copy, PartialEq, Eq, Structural)]
pub enum AuthError {
    /// Malformed or missing redirect URI, client id or scopes; detected
    /// before any network activity, never retryable.
    ConfigError,
    /// Listener bind failure, or transport failure reaching the token
    /// endpoint.
    NetworkError,
    /// A response that violated the protocol: a success reply from the
    /// token endpoint without the required token fields.
    ProtocolError,
    /// The state value echoed by the callback differs from the nonce
    /// generated for this flow; the authorization code is discarded
    /// unexchanged.
    SecurityError,
    /// The token endpoint rejected the code/verifier pair; carries the
    /// HTTP status of the rejection.
    AuthError(u16),
    /// No valid callback arrived within the configured bound.
    TimeoutError,
    /// No secure randomness source was available.
    RandomnessError,
}

impl AuthError {
    /// A short human-readable cause, for the caller to surface.
    pub fn message(&self) -> (r: &'static str)
        ensures
            r@.len() > 0,
    {
        match self {
            AuthError::ConfigError => {
                proof {
                    reveal_strlit("invalid configuration");
                }
                "invalid configuration"
            },
            AuthError::NetworkError => {
                proof {
                    reveal_strlit("network failure");
                }
                "network failure"
            },
            AuthError::ProtocolError => {
                proof {
                    reveal_strlit("malformed provider response");
                }
                "malformed provider response"
            },
            AuthError::SecurityError => {
                proof {
                    reveal_strlit("state nonce mismatch");
                }
                "state nonce mismatch"
            },
            AuthError::AuthError(_) => {
                proof {
                    reveal_strlit("token endpoint rejected the exchange");
                }
                "token endpoint rejected the exchange"
            },
            AuthError::TimeoutError => {
                proof {
                    reveal_strlit("no callback within the configured bound");
                }
                "no callback within the configured bound"
            },
            AuthError::RandomnessError => {
                proof {
                    reveal_strlit("no secure randomness source");
                }
                "no secure randomness source"
            },
        }
    }
}

} // verus!
