use loopback_oauth::config::AuthConfig;
use loopback_oauth::errors::AuthError;
use loopback_oauth::flow::AuthFlow;
use loopback_oauth::listener::{CallbackResult, Listener, RequestOutcome};
use loopback_oauth::request::build_authorization_url;
use loopback_oauth::token::{complete_exchange, should_retry, token_endpoint, ExchangeOutcome, TokenRequest};

fn scopes(list: &[&str]) -> Vec<Vec<u8>> {
    list.iter().map(|s| s.as_bytes().to_vec()).collect()
}

fn demo_config() -> AuthConfig {
    AuthConfig::validate(
        b"abc".to_vec(),
        b"http://127.0.0.1:8888/cb".to_vec(),
        scopes(&["user-read-email"]),
        30_000,
    )
    .unwrap()
}

/// The state value a flow put into its authorization URL (the nonce is
/// URL-safe, so it appears verbatim after "&state=").
fn state_of(url: &str) -> Vec<u8> {
    let marker = "&state=";
    let idx = url.find(marker).expect("authorization URL carries a state parameter");
    url[idx + marker.len()..].as_bytes().to_vec()
}

#[test]
fn config_rejects_uri_without_explicit_port() {
    let r = AuthConfig::validate(
        b"abc".to_vec(),
        b"http://127.0.0.1/cb".to_vec(),
        scopes(&["user-read-email"]),
        30_000,
    );
    assert_eq!(r.unwrap_err(), AuthError::ConfigError);
}

#[test]
fn config_rejects_bad_inputs() {
    let sc = || scopes(&["user-read-email"]);
    let uri = || b"http://127.0.0.1:8888/cb".to_vec();
    // empty client id
    assert_eq!(
        AuthConfig::validate(b"".to_vec(), uri(), sc(), 1).unwrap_err(),
        AuthError::ConfigError
    );
    // unrecognized scheme
    assert_eq!(
        AuthConfig::validate(b"abc".to_vec(), b"ftp://h:1/x".to_vec(), sc(), 1).unwrap_err(),
        AuthError::ConfigError
    );
    // empty host
    assert_eq!(
        AuthConfig::validate(b"abc".to_vec(), b"http://:8888/cb".to_vec(), sc(), 1).unwrap_err(),
        AuthError::ConfigError
    );
    // port out of range, port zero, empty port, non-numeric port
    for bad in ["http://h:65536/x", "http://h:0/x", "http://h:/x", "http://h:12ab/x"] {
        assert_eq!(
            AuthConfig::validate(b"abc".to_vec(), bad.as_bytes().to_vec(), sc(), 1).unwrap_err(),
            AuthError::ConfigError
        );
    }
    // duplicate scopes
    assert_eq!(
        AuthConfig::validate(b"abc".to_vec(), uri(), scopes(&["a", "b", "a"]), 1).unwrap_err(),
        AuthError::ConfigError
    );
}

#[test]
fn config_accepts_explicit_host_and_port() {
    let c = demo_config();
    assert_eq!(c.host, b"127.0.0.1".to_vec());
    assert_eq!(c.port, 8888);
    assert_eq!(c.timeout_ms, 30_000);
    // https and a bare authority (no path) parse too
    let c2 = AuthConfig::validate(
        b"abc".to_vec(),
        b"https://localhost:65535".to_vec(),
        scopes(&[]),
        1,
    )
    .unwrap();
    assert_eq!(c2.host, b"localhost".to_vec());
    assert_eq!(c2.port, 65535);
}

#[test]
fn authorization_url_is_exact() {
    let c = AuthConfig::validate(
        b"abc".to_vec(),
        b"http://127.0.0.1:8888/cb".to_vec(),
        scopes(&["user-read-email", "user-top-read"]),
        30_000,
    )
    .unwrap();
    let url = build_authorization_url(&c, b"CH", b"ST");
    assert_eq!(
        url,
        "https://accounts.spotify.com/authorize?response_type=code&client_id=abc\
         &scope=user-read-email%20user-top-read\
         &redirect_uri=http%3A%2F%2F127.0.0.1%3A8888%2Fcb\
         &code_challenge_method=S256&code_challenge=CH&state=ST"
            .replace(" ", "")
    );
}

#[test]
fn state_mismatch_fails_without_exchange() {
    let cfg = demo_config();
    let (flow, _url) = AuthFlow::begin(&cfg).unwrap();
    let mut exchange_calls = 0u32;
    let forged = CallbackResult { code: b"AUTH123".to_vec(), state: b"not-the-nonce".to_vec() };
    match flow.on_callback(forged) {
        Ok(req) => {
            // would be the only path to the token endpoint
            exchange_calls += 1;
            drop(req);
        }
        Err(e) => assert_eq!(e, AuthError::SecurityError),
    }
    assert_eq!(exchange_calls, 0);
}

#[test]
fn state_echoed_exactly_proceeds_to_exchange() {
    let cfg = demo_config();
    let (flow, url) = AuthFlow::begin(&cfg).unwrap();
    let nonce = state_of(&url);
    let cb = CallbackResult { code: b"AUTH123".to_vec(), state: nonce };
    let req = flow.on_callback(cb).unwrap();
    let body = req.body().clone();
    let prefix = "grant_type=authorization_code&code=AUTH123\
                  &redirect_uri=http%3A%2F%2F127.0.0.1%3A8888%2Fcb\
                  &client_id=abc&code_verifier="
        .replace(" ", "");
    assert!(body.starts_with(&prefix));
    assert_eq!(body.len(), prefix.len() + 43);
}

#[test]
fn timeout_is_the_outcome_of_an_abandoned_flow() {
    let cfg = demo_config();
    let (flow, _url) = AuthFlow::begin(&cfg).unwrap();
    assert_eq!(flow.on_timeout(), AuthError::TimeoutError);
}

fn accepted_request() -> TokenRequest {
    let cfg = demo_config();
    let (flow, url) = AuthFlow::begin(&cfg).unwrap();
    let nonce = state_of(&url);
    flow.on_callback(CallbackResult { code: b"AUTH123".to_vec(), state: nonce }).unwrap()
}

#[test]
fn end_to_end_simulated_flow_yields_the_session() {
    let cfg = demo_config();
    let (flow, url) = AuthFlow::begin(&cfg).unwrap();
    let nonce = state_of(&url);
    // simulated browser redirect hitting the listener
    let mut listener = Listener::new();
    let mut raw = b"code=AUTH123&state=".to_vec();
    raw.extend_from_slice(&nonce);
    let cb = match listener.handle_request(&raw) {
        RequestOutcome::Delivered(cb) => cb,
        RequestOutcome::Ignored => panic!("valid redirect must be delivered"),
    };
    assert_eq!(cb.code, b"AUTH123".to_vec());
    let req = flow.on_callback(cb).unwrap();
    // stub token endpoint answer
    let outcome = ExchangeOutcome::Http {
        status: 200,
        access_token: Some("tok1".to_string()),
        token_type: Some("Bearer".to_string()),
        expires_in: Some(3600),
        refresh_token: None,
    };
    let now = 1_000u64;
    let session = complete_exchange(req, outcome, now).unwrap();
    assert_eq!(session.access_token(), "tok1");
    assert_eq!(session.token_type(), "Bearer");
    assert_eq!(session.expires_at(), now + 3600);
    assert!(session.refresh_token().is_none());
}

#[test]
fn exchange_failures_carry_their_causes() {
    assert_eq!(
        complete_exchange(accepted_request(), ExchangeOutcome::Transport, 0).unwrap_err(),
        AuthError::NetworkError
    );
    let rejected = ExchangeOutcome::Http {
        status: 400,
        access_token: None,
        token_type: None,
        expires_in: None,
        refresh_token: None,
    };
    assert_eq!(
        complete_exchange(accepted_request(), rejected, 0).unwrap_err(),
        AuthError::AuthError(400)
    );
    let hollow = ExchangeOutcome::Http {
        status: 200,
        access_token: None,
        token_type: Some("Bearer".to_string()),
        expires_in: Some(1),
        refresh_token: None,
    };
    assert_eq!(
        complete_exchange(accepted_request(), hollow, 0).unwrap_err(),
        AuthError::ProtocolError
    );
}

#[test]
fn retry_only_once_and_only_on_transient_failures() {
    let http = |status: u16| ExchangeOutcome::Http {
        status,
        access_token: None,
        token_type: None,
        expires_in: None,
        refresh_token: None,
    };
    assert!(should_retry(&ExchangeOutcome::Transport, 1));
    assert!(should_retry(&http(500), 1));
    assert!(should_retry(&http(503), 1));
    assert!(!should_retry(&http(400), 1));
    assert!(!should_retry(&http(200), 1));
    assert!(!should_retry(&ExchangeOutcome::Transport, 2));
    assert!(!should_retry(&http(500), 2));
}

#[test]
fn endpoint_and_error_messages_are_presentable() {
    assert_eq!(token_endpoint(), "https://accounts.spotify.com/api/token");
    let errors = [
        AuthError::ConfigError,
        AuthError::NetworkError,
        AuthError::ProtocolError,
        AuthError::SecurityError,
        AuthError::AuthError(429),
        AuthError::TimeoutError,
        AuthError::RandomnessError,
    ];
    for e in errors {
        assert!(!e.message().is_empty());
    }
}
