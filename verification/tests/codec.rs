use loopback_oauth::codec::{base64url_encode, percent_encode, unescape_component};

#[test]
fn b64url_rfc4648_vectors() {
    assert_eq!(base64url_encode(b""), b"".to_vec());
    assert_eq!(base64url_encode(b"f"), b"Zg".to_vec());
    assert_eq!(base64url_encode(b"fo"), b"Zm8".to_vec());
    assert_eq!(base64url_encode(b"foo"), b"Zm9v".to_vec());
    assert_eq!(base64url_encode(b"foob"), b"Zm9vYg".to_vec());
    assert_eq!(base64url_encode(b"fooba"), b"Zm9vYmE".to_vec());
    assert_eq!(base64url_encode(b"foobar"), b"Zm9vYmFy".to_vec());
}

#[test]
fn b64url_uses_url_safe_alphabet() {
    // the two url-safe alphabet entries stand where base64 would put + and /
    assert_eq!(base64url_encode(&[0xfb, 0xef, 0xbe]), b"----".to_vec());
    assert_eq!(base64url_encode(&[0xff, 0xff, 0xff]), b"____".to_vec());
}

#[test]
fn percent_encode_unreserved_passthrough() {
    assert_eq!(percent_encode(b"abcXYZ019-._~"), b"abcXYZ019-._~".to_vec());
}

#[test]
fn percent_encode_reserved() {
    assert_eq!(
        percent_encode(b"http://127.0.0.1:8888/cb"),
        b"http%3A%2F%2F127.0.0.1%3A8888%2Fcb".to_vec()
    );
    assert_eq!(percent_encode(b"a b&c=d"), b"a%20b%26c%3Dd".to_vec());
}

#[test]
fn unescape_decodes_hex_and_plus() {
    assert_eq!(unescape_component(b"%41%42+c"), b"AB c".to_vec());
    assert_eq!(unescape_component(b"AUTH123"), b"AUTH123".to_vec());
    assert_eq!(unescape_component(b"%3a%2F"), b":/".to_vec());
}

#[test]
fn unescape_leaves_malformed_escapes() {
    assert_eq!(unescape_component(b"%G1"), b"%G1".to_vec());
    assert_eq!(unescape_component(b"%2"), b"%2".to_vec());
    assert_eq!(unescape_component(b"%"), b"%".to_vec());
    assert_eq!(unescape_component(b"100%"), b"100%".to_vec());
}

#[test]
fn unescape_undoes_percent_encode_for_every_byte() {
    let mut all: Vec<u8> = Vec::new();
    for b in 0..=255u8 {
        all.push(b);
    }
    let enc = percent_encode(&all);
    assert_eq!(unescape_component(&enc), all);
}
