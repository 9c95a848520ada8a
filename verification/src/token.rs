//! The token exchange: request body, retry policy, and interpretation
//! of the provider's response into a session credential.
//!
//! The HTTP transport itself runs outside; it is handed the request
//! body built here and reports back an [`ExchangeOutcome`].  A
//! [`Session`] can only arise from [`complete_exchange`], which
//! consumes the [`TokenRequest`] that state validation issued — no
//! other path constructs one.

use vstd::prelude::*;

use crate::bytes::{
    all_ascii, append_bytes, ascii_bytes, ascii_string, bytes_of, chars_of, lemma_all_ascii_concat,
};
use crate::codec::{lemma_pct_encode_ascii, pct_encode, percent_encode};
use crate::errors::AuthError;

verus! {

/// The provider's token endpoint, consumed by the exchange transport.
pub fn token_endpoint() -> (r: &'static str)
    ensures
        r@ == "https://accounts.spotify.com/api/token"@,
{
    "https://accounts.spotify.com/api/token"
}

/// The form body of the token request: grant type, authorization code,
/// redirect URI, client id and the PKCE verifier, percent-encoded.
pub open spec fn token_body_bytes(
    code: Seq<u8>,
    verifier: Seq<u8>,
    redirect_uri: Seq<u8>,
    client_id: Seq<u8>,
) -> Seq<u8> {
    bytes_of("grant_type=authorization_code&code="@) + pct_encode(code) + bytes_of(
        "&redirect_uri="@,
    ) + pct_encode(redirect_uri) + bytes_of("&client_id="@) + pct_encode(client_id) + bytes_of(
        "&code_verifier="@,
    ) + pct_encode(verifier)
}

fn build_token_body(code: &[u8], verifier: &[u8], redirect_uri: &[u8], client_id: &[u8]) -> (r:
    String)
    ensures
        r@ == chars_of(token_body_bytes(code@, verifier@, redirect_uri@, client_id@)),
{
    proof {
        reveal_strlit("grant_type=authorization_code&code=");
        reveal_strlit("&redirect_uri=");
        reveal_strlit("&client_id=");
        reveal_strlit("&code_verifier=");
        assert(("grant_type=authorization_code&code=").is_ascii());
        assert(("&redirect_uri=").is_ascii());
        assert(("&client_id=").is_ascii());
        assert(("&code_verifier=").is_ascii());
    }
    let mut out: Vec<u8> = Vec::new();
    let s1 = ascii_bytes("grant_type=authorization_code&code=");
    append_bytes(&mut out, s1);
    proof {
        assert(all_ascii(out@)) by {
            assert(out@ =~= s1@);
        }
    }
    let ghost a1 = out@;
    let e1 = percent_encode(code);
    append_bytes(&mut out, e1.as_slice());
    proof {
        lemma_pct_encode_ascii(code@);
        lemma_all_ascii_concat(a1, e1@);
    }
    let ghost a2 = out@;
    let s2 = ascii_bytes("&redirect_uri=");
    append_bytes(&mut out, s2);
    proof {
        lemma_all_ascii_concat(a2, s2@);
    }
    let ghost a3 = out@;
    let e2 = percent_encode(redirect_uri);
    append_bytes(&mut out, e2.as_slice());
    proof {
        lemma_pct_encode_ascii(redirect_uri@);
        lemma_all_ascii_concat(a3, e2@);
    }
    let ghost a4 = out@;
    let s3 = ascii_bytes("&client_id=");
    append_bytes(&mut out, s3);
    proof {
        lemma_all_ascii_concat(a4, s3@);
    }
    let ghost a5 = out@;
    let e3 = percent_encode(client_id);
    append_bytes(&mut out, e3.as_slice());
    proof {
        lemma_pct_encode_ascii(client_id@);
        lemma_all_ascii_concat(a5, e3@);
    }
    let ghost a6 = out@;
    let s4 = ascii_bytes("&code_verifier=");
    append_bytes(&mut out, s4);
    proof {
        lemma_all_ascii_concat(a6, s4@);
    }
    let ghost a7 = out@;
    let e4 = percent_encode(verifier);
    append_bytes(&mut out, e4.as_slice());
    proof {
        lemma_pct_encode_ascii(verifier@);
        lemma_all_ascii_concat(a7, e4@);
    }
    ascii_string(out)
}

/// A token request issued by state validation: the one admission
/// ticket to the exchange.  Only the flow coordinator constructs it,
/// and only after the callback's state matched the generated nonce.
#[derive(Debug)]
pub struct TokenRequest {
    body: String,
}

impl TokenRequest {
    /// The form body to POST to [`token_endpoint`].
    pub closed spec fn spec_body(&self) -> Seq<char> {
        self.body@
    }

    pub(crate) fn make(code: &[u8], verifier: &[u8], redirect_uri: &[u8], client_id: &[u8]) -> (r:
        TokenRequest)
        ensures
            r.spec_body() == chars_of(
                token_body_bytes(code@, verifier@, redirect_uri@, client_id@),
            ),
    {
        TokenRequest { body: build_token_body(code, verifier, redirect_uri, client_id) }
    }

    /// The form body to send.
    pub fn body(&self) -> (r: &String)
        ensures
            r@ == self.spec_body(),
    {
        &self.body
    }
}

/// What came back from one attempt to reach the token endpoint.
#[derive(Debug)]
pub enum ExchangeOutcome {
    /// No HTTP response at all: connection failure, reset, transport
    /// timeout.
    Transport,
    /// An HTTP response, with the token fields of its body where the
    /// body carried them.
    Http {
        /// The HTTP status code.
        status: u16,
        /// The issued bearer token, if the body carried one.
        access_token: Option<String>,
        /// The token type tag, if the body carried one.
        token_type: Option<String>,
        /// The lifetime in seconds, if the body carried one.
        expires_in: Option<u64>,
        /// The optional refresh token.
        refresh_token: Option<String>,
    },
}

/// A transient failure: no response, or a server-side (5xx) status.
pub open spec fn transient(o: ExchangeOutcome) -> bool {
    match o {
        ExchangeOutcome::Transport => true,
        ExchangeOutcome::Http { status, .. } => 500 <= status <= 599,
    }
}

/// Retry policy of the exchange: retry once on a clearly transient
/// failure, never on a 4xx rejection, never more than once.
pub fn should_retry(outcome: &ExchangeOutcome, attempts_made: u64) -> (r: bool)
    ensures
        r == (attempts_made == 1 && transient(*outcome)),
{
    if attempts_made != 1 {
        return false;
    }
    match outcome {
        ExchangeOutcome::Transport => true,
        ExchangeOutcome::Http { status, .. } => 500 <= *status && *status <= 599,
    }
}

/// A successful exchange: a 2xx response carrying access token, token
/// type and lifetime.
pub open spec fn exchange_success(o: ExchangeOutcome) -> bool {
    match o {
        ExchangeOutcome::Transport => false,
        ExchangeOutcome::Http { status, access_token, token_type, expires_in, .. } => 200 <= status
            <= 299 && access_token is Some && token_type is Some && expires_in is Some,
    }
}

/// The error for a failed exchange: a network failure when no response
/// came, the carried status for a rejection, and a protocol violation
/// for a success response without the token fields.
pub open spec fn exchange_error(o: ExchangeOutcome) -> AuthError {
    match o {
        ExchangeOutcome::Transport => AuthError::NetworkError,
        ExchangeOutcome::Http { status, .. } => if 200 <= status <= 299 {
            AuthError::ProtocolError
        } else {
            AuthError::AuthError(status)
        },
    }
}

/// Saturating sum of an instant and a lifetime.
pub open spec fn expiry_at(now: u64, expires_in: u64) -> u64 {
    if now + expires_in <= u64::MAX {
        (now + expires_in) as u64
    } else {
        u64::MAX
    }
}

/// The bearer credential issued by a successful exchange.  It is
/// constructed by [`complete_exchange`] alone; expiry is terminal, and
/// recovery is a fresh run of the whole flow.
#[derive(Debug)]
pub struct Session {
    access_token: String,
    token_type: String,
    refresh_token: Option<String>,
    expires_at: u64,
}

impl Session {
    /// The bearer token.
    pub closed spec fn spec_access_token(&self) -> Seq<char> {
        self.access_token@
    }

    /// The token type tag.
    pub closed spec fn spec_token_type(&self) -> Seq<char> {
        self.token_type@
    }

    /// The refresh token, if the provider issued one.
    pub closed spec fn spec_refresh_token(&self) -> Option<Seq<char>> {
        match self.refresh_token {
            Some(t) => Some(t@),
            None => None,
        }
    }

    /// The absolute instant at which the credential goes stale.
    pub closed spec fn spec_expires_at(&self) -> u64 {
        self.expires_at
    }

    /// The bearer token, for request authorization.
    pub fn access_token(&self) -> (r: &String)
        ensures
            r@ == self.spec_access_token(),
    {
        &self.access_token
    }

    /// The token type tag.
    pub fn token_type(&self) -> (r: &String)
        ensures
            r@ == self.spec_token_type(),
    {
        &self.token_type
    }

    /// The refresh token, if the provider issued one.
    pub fn refresh_token(&self) -> (r: &Option<String>)
        ensures
            (r is Some <==> self.spec_refresh_token() is Some),
            (r matches Some(t) ==> self.spec_refresh_token() == Some(t@)),
    {
        &self.refresh_token
    }

    /// The expiry instant.
    pub fn expires_at(&self) -> (r: u64)
        ensures
            r == self.spec_expires_at(),
    {
        self.expires_at
    }
}

/// Interpret the outcome of the token exchange at instant `now`
/// (seconds).  Succeeds exactly on a 2xx response carrying all token
/// fields, with the expiry computed at the moment of receipt; any
/// other outcome yields the error [`exchange_error`] names for it.
/// Consuming the request makes the exchange single-use.
pub fn complete_exchange(request: TokenRequest, outcome: ExchangeOutcome, now: u64) -> (r: Result<
    Session,
    AuthError,
>)
    ensures
        (r is Ok <==> exchange_success(outcome)),
        (r matches Ok(s) ==> match outcome {
            ExchangeOutcome::Http { access_token, token_type, expires_in, refresh_token, .. } => {
                &&& access_token matches Some(at) && s.spec_access_token() == at@
                &&& token_type matches Some(tt) && s.spec_token_type() == tt@
                &&& expires_in matches Some(ei) && s.spec_expires_at() == expiry_at(now, ei)
                &&& (match refresh_token {
                    Some(rt) => s.spec_refresh_token() == Some(rt@),
                    None => s.spec_refresh_token() is None,
                })
            },
            ExchangeOutcome::Transport => false,
        }),
        (r matches Err(e) ==> e == exchange_error(outcome)),
{
    let _ = request;
    match outcome {
        ExchangeOutcome::Transport => Err(AuthError::NetworkError),
        ExchangeOutcome::Http { status, access_token, token_type, expires_in, refresh_token } => {
            if status < 200 || status > 299 {
                return Err(AuthError::AuthError(status));
            }
            match (access_token, token_type, expires_in) {
                (Some(at), Some(tt), Some(ei)) => {
                    let expires_at: u64 = if now <= u64::MAX - ei {
                        now + ei
                    } else {
                        u64::MAX
                    };
                    Ok(
                        Session {
                            access_token: at,
                            token_type: tt,
                            refresh_token,
                            expires_at,
                        },
                    )
                },
                _ => Err(AuthError::ProtocolError),
            }
        },
    }
}

} // verus!
