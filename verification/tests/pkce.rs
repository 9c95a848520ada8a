use loopback_oauth::pkce::{derive_challenge, generate_nonce, PkceParameters};

fn is_unreserved_byte(b: u8) -> bool {
    b.is_ascii_alphanumeric() || b == b'-' || b == b'.' || b == b'_' || b == b'~'
}

#[test]
fn challenge_matches_rfc7636_example() {
    // RFC 7636 appendix B: S256 challenge of the example verifier
    let verifier = b"dBjftJeZ4CVP-mB92K27uhbUJU1p1r_wW1gFWFOEjXk";
    let challenge = derive_challenge(verifier);
    assert_eq!(challenge, b"E9Melhoa2OwvFrEMTJguCHaoeK1t8URWbuGJSstw-cM".to_vec());
}

#[test]
fn challenge_is_deterministic() {
    let verifier = b"aaaaaaaaaaaaaaaaaaaaaaaaaaaaaaaaaaaaaaaaaaa";
    assert_eq!(derive_challenge(verifier), derive_challenge(verifier));
}

#[test]
fn generated_material_is_well_formed() {
    let p = PkceParameters::generate().unwrap();
    assert_eq!(p.verifier.len(), 43);
    assert!(p.verifier.iter().all(|b| is_unreserved_byte(*b)));
    assert_eq!(p.challenge.len(), 43);
    assert!(p.challenge.iter().all(|b| is_unreserved_byte(*b)));
    assert_eq!(p.challenge, derive_challenge(&p.verifier));
}

#[test]
fn distinct_generations_give_distinct_verifiers() {
    let a = PkceParameters::generate().unwrap();
    let b = PkceParameters::generate().unwrap();
    assert_ne!(a.verifier, b.verifier);
    assert_ne!(a.challenge, b.challenge);
}

#[test]
fn nonce_is_fresh_and_url_safe() {
    let a = generate_nonce().unwrap();
    let b = generate_nonce().unwrap();
    assert_eq!(a.len(), 22);
    assert_eq!(b.len(), 22);
    assert!(a.iter().all(|x| is_unreserved_byte(*x)));
    assert_ne!(a, b);
}
