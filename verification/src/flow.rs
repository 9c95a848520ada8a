//! The flow coordinator: one authentication attempt.
//!
//! A flow begins by generating fresh PKCE material and a fresh state
//! nonce and building the authorization URL; it ends when the waiting
//! caller hands it the one delivered callback (or gives up on a
//! timeout).  The state check stands strictly before the code
//! exchange: a callback whose state differs from the generated nonce
//! yields a security error and the authorization code is discarded
//! unexchanged — no [`TokenRequest`] exists on that path, so nothing
//! can reach the token endpoint.

use vstd::prelude::*;

use crate::bytes::{bytes_eq, chars_of};
use crate::config::{scope_views, AuthConfig};
use crate::errors::AuthError;
use crate::listener::CallbackResult;
use crate::pkce::{challenge_of, generate_nonce, valid_verifier, PkceParameters};
use crate::request::{auth_url_bytes, build_authorization_url};
use crate::token::{token_body_bytes, TokenRequest};

verus! {

/// One authentication attempt in progress: the secrets generated for
/// it, scoped to it, and discarded with it.
#[derive(Debug)]
pub struct AuthFlow {
    verifier: Vec<u8>,
    state_nonce: Vec<u8>,
    client_id: Vec<u8>,
    redirect_uri: Vec<u8>,
}

impl AuthFlow {
    /// The PKCE verifier generated for this attempt.  It leaves the
    /// flow only inside the token request body.
    pub closed spec fn spec_verifier(&self) -> Seq<u8> {
        self.verifier@
    }

    /// The anti-forgery nonce generated for this attempt.
    pub closed spec fn spec_state(&self) -> Seq<u8> {
        self.state_nonce@
    }

    /// The client id this attempt was begun with.
    pub closed spec fn spec_client_id(&self) -> Seq<u8> {
        self.client_id@
    }

    /// The redirect URI this attempt was begun with.
    pub closed spec fn spec_redirect_uri(&self) -> Seq<u8> {
        self.redirect_uri@
    }

    /// A live flow carries a valid PKCE verifier.
    pub open spec fn wf(&self) -> bool {
        valid_verifier(self.spec_verifier())
    }

    /// Begin one attempt over a validated configuration: generate
    /// fresh PKCE material and a fresh state nonce — both exactly once
    /// per attempt — and build the authorization URL carrying the
    /// derived challenge and the nonce.  Fails only if no secure
    /// randomness source is available.  The caller must start the
    /// listener before opening the returned URL in a browser.
    pub fn begin(cfg: &AuthConfig) -> (r: Result<(AuthFlow, String), AuthError>)
        requires
            cfg.wf(),
        ensures
            (r matches Ok(p) ==> p.0.wf() && p.0.spec_client_id() == cfg.client_id@
                && p.0.spec_redirect_uri() == cfg.redirect_uri@ && p.1@ == chars_of(
                auth_url_bytes(
                    cfg.client_id@,
                    scope_views(cfg.scopes@),
                    cfg.redirect_uri@,
                    challenge_of(p.0.spec_verifier()),
                    p.0.spec_state(),
                ),
            )),
            (r matches Err(e) ==> e == AuthError::RandomnessError),
    {
        let pkce = match PkceParameters::generate() {
            Ok(p) => p,
            Err(e) => {
                return Err(e);
            },
        };
        let nonce = match generate_nonce() {
            Ok(n) => n,
            Err(e) => {
                return Err(e);
            },
        };
        let url = build_authorization_url(cfg, pkce.challenge.as_slice(), nonce.as_slice());
        let flow = AuthFlow {
            verifier: pkce.verifier,
            state_nonce: nonce,
            client_id: clone_bytes(&cfg.client_id),
            redirect_uri: clone_bytes(&cfg.redirect_uri),
        };
        Ok((flow, url))
    }

    /// Validate the one delivered callback.  Exactly when the echoed
    /// state equals this flow's nonce, the exchange may proceed: the
    /// result is the token request carrying the authorization code and
    /// the verifier.  On any mismatch the attempt fails with a
    /// security error, and no token request exists — the code is
    /// discarded unexchanged.  The flow is consumed either way: its
    /// nonce and verifier are single-use.
    pub fn on_callback(self, cb: CallbackResult) -> (r: Result<TokenRequest, AuthError>)
        ensures
            (r is Ok <==> cb.state@ == self.spec_state()),
            (r matches Ok(t) ==> t.spec_body() == chars_of(
                token_body_bytes(
                    cb.code@,
                    self.spec_verifier(),
                    self.spec_redirect_uri(),
                    self.spec_client_id(),
                ),
            )),
            (r matches Err(e) ==> e == AuthError::SecurityError),
    {
        if bytes_eq(cb.state.as_slice(), self.state_nonce.as_slice()) {
            Ok(
                TokenRequest::make(
                    cb.code.as_slice(),
                    self.verifier.as_slice(),
                    self.redirect_uri.as_slice(),
                    self.client_id.as_slice(),
                ),
            )
        } else {
            Err(AuthError::SecurityError)
        }
    }

    /// Give up the wait: no valid callback arrived within the
    /// configured bound.  Consumes the flow — the attempt is over and
    /// its secrets are discarded.
    pub fn on_timeout(self) -> (r: AuthError)
        ensures
            r == AuthError::TimeoutError,
    {
        AuthError::TimeoutError
    }
}

/// A fresh vector with the same bytes.
fn clone_bytes(v: &Vec<u8>) -> (r: Vec<u8>)
    ensures
        r@ == v@,
{
    let mut out: Vec<u8> = Vec::new();
    crate::bytes::append_bytes(&mut out, v.as_slice());
    proof {
        assert(out@ =~= v@);
    }
    out
}

} // verus!
