use loopback_oauth::listener::{response_page, Listener, RequestOutcome};
use loopback_oauth::query::query_lookup;

#[test]
fn lookup_finds_first_occurrence() {
    assert_eq!(query_lookup(b"code=a&state=b", b"code"), Some(b"a".to_vec()));
    assert_eq!(query_lookup(b"code=a&state=b", b"state"), Some(b"b".to_vec()));
    assert_eq!(query_lookup(b"code=a&code=b", b"code"), Some(b"a".to_vec()));
    assert_eq!(query_lookup(b"x=1&code=a", b"code"), Some(b"a".to_vec()));
}

#[test]
fn lookup_misses_absent_keys() {
    assert_eq!(query_lookup(b"code=a", b"state"), None);
    assert_eq!(query_lookup(b"", b"code"), None);
    assert_eq!(query_lookup(b"codex=a", b"code"), None);
}

#[test]
fn lookup_decodes_values_and_keys() {
    assert_eq!(query_lookup(b"code=A%42+c", b"code"), Some(b"AB c".to_vec()));
    assert_eq!(query_lookup(b"%63ode=x", b"code"), Some(b"x".to_vec()));
    assert_eq!(query_lookup(b"flag&code=y", b"flag"), Some(b"".to_vec()));
}

#[test]
fn listener_delivers_first_well_formed_request_only() {
    let mut l = Listener::new();
    assert!(!l.delivered());
    let first = l.handle_request(b"code=AUTH1&state=S1");
    match first {
        RequestOutcome::Delivered(cb) => {
            assert_eq!(cb.code, b"AUTH1".to_vec());
            assert_eq!(cb.state, b"S1".to_vec());
        }
        RequestOutcome::Ignored => panic!("first well-formed request must be delivered"),
    }
    assert!(l.delivered());
    // a second well-formed request is ignored, does not redeliver
    let second = l.handle_request(b"code=AUTH2&state=S2");
    assert!(matches!(second, RequestOutcome::Ignored));
    assert!(l.delivered());
}

#[test]
fn malformed_requests_never_flip_the_flag() {
    let mut l = Listener::new();
    assert!(matches!(l.handle_request(b"code=only"), RequestOutcome::Ignored));
    assert!(!l.delivered());
    assert!(matches!(l.handle_request(b"state=only"), RequestOutcome::Ignored));
    assert!(!l.delivered());
    assert!(matches!(l.handle_request(b""), RequestOutcome::Ignored));
    assert!(!l.delivered());
    assert!(matches!(l.handle_request(b"v=1&x=2"), RequestOutcome::Ignored));
    assert!(!l.delivered());
    // after all that noise, a valid callback still gets through
    assert!(matches!(
        l.handle_request(b"code=ok&state=s"),
        RequestOutcome::Delivered(_)
    ));
    assert!(l.delivered());
}

#[test]
fn pages_answer_every_outcome() {
    let mut l = Listener::new();
    let delivered = l.handle_request(b"code=c&state=s");
    let ignored = l.handle_request(b"code=c&state=s");
    assert_eq!(
        response_page(&delivered),
        "<h1>You may close this page</h1><script>window.close()</script>"
    );
    assert_eq!(response_page(&ignored), "<h1>Waiting for authentication</h1>");
}
