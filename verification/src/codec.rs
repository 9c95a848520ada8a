//! Byte-level codecs used by the handshake: RFC 3986 percent-encoding,
//! query-string unescaping, and base64url without padding.
//!
//! Each codec is specified by a recursive spec function over byte
//! sequences and implemented by a verified loop proved equal to it.

use vstd::prelude::*;

verus! {

// ---------------------------------------------------------------------
// Character classes
// ---------------------------------------------------------------------
/// ASCII letter.
pub open spec fn is_alpha(b: u8) -> bool {
    (0x41 <= b <= 0x5a) || (0x61 <= b <= 0x7a)
}

/// ASCII decimal digit.
pub open spec fn is_digit_byte(b: u8) -> bool {
    0x30 <= b <= 0x39
}

/// RFC 3986 unreserved character: ALPHA / DIGIT / "-" / "." / "_" / "~".
/// This is also exactly the character set allowed in a PKCE verifier.
pub open spec fn is_unreserved(b: u8) -> bool {
    is_alpha(b) || is_digit_byte(b) || b == 0x2d || b == 0x2e || b == 0x5f || b == 0x7e
}

/// Runtime test for [`is_unreserved`].
pub fn unreserved(b: u8) -> (r: bool)
    ensures
        r == is_unreserved(b),
{
    (0x41 <= b && b <= 0x5a) || (0x61 <= b && b <= 0x7a) || (0x30 <= b && b <= 0x39) || b == 0x2d
        || b == 0x2e || b == 0x5f || b == 0x7e
}

// ---------------------------------------------------------------------
// Hexadecimal digits
// ---------------------------------------------------------------------
/// Upper-case hexadecimal digit for a value below 16.
pub open spec fn hex_upper(n: u8) -> u8
    recommends
        n < 16,
{
    if n < 10 {
        (0x30 + n) as u8
    } else {
        (0x41 + (n - 10)) as u8
    }
}

/// Runtime form of [`hex_upper`].
pub fn hex_digit(n: u8) -> (r: u8)
    requires
        n < 16,
    ensures
        r == hex_upper(n),
{
    if n < 10 {
        0x30 + n
    } else {
        0x41 + (n - 10)
    }
}

/// A byte that is an ASCII hexadecimal digit, either case.
pub open spec fn is_hex_digit(b: u8) -> bool {
    is_digit_byte(b) || (0x41 <= b <= 0x46) || (0x61 <= b <= 0x66)
}

/// The value of an ASCII hexadecimal digit.
pub open spec fn hex_val(b: u8) -> u8
    recommends
        is_hex_digit(b),
{
    if is_digit_byte(b) {
        (b - 0x30) as u8
    } else if 0x41 <= b <= 0x46 {
        (b - 0x41 + 10) as u8
    } else {
        (b - 0x61 + 10) as u8
    }
}

/// Runtime test for [`is_hex_digit`].
pub fn hex_digit_test(b: u8) -> (r: bool)
    ensures
        r == is_hex_digit(b),
{
    (0x30 <= b && b <= 0x39) || (0x41 <= b && b <= 0x46) || (0x61 <= b && b <= 0x66)
}

/// Runtime form of [`hex_val`].
pub fn hex_value(b: u8) -> (r: u8)
    requires
        is_hex_digit(b),
    ensures
        r == hex_val(b),
{
    if 0x30 <= b && b <= 0x39 {
        b - 0x30
    } else if 0x41 <= b && b <= 0x46 {
        b - 0x41 + 10
    } else {
        b - 0x61 + 10
    }
}

// ---------------------------------------------------------------------
// Percent-encoding
// ---------------------------------------------------------------------
/// Percent-encoding of one byte: unreserved bytes stand as themselves,
/// every other byte becomes "%XX" with upper-case hex digits.
pub open spec fn pct_byte(b: u8) -> Seq<u8> {
    if is_unreserved(b) {
        seq![b]
    } else {
        seq![0x25u8, hex_upper(b / 16), hex_upper(b % 16)]
    }
}

/// RFC 3986 percent-encoding of a byte sequence.
pub open spec fn pct_encode(s: Seq<u8>) -> Seq<u8>
    decreases s.len(),
{
    if s.len() == 0 {
        Seq::empty()
    } else {
        pct_byte(s[0]) + pct_encode(s.drop_first())
    }
}

/// Appending one byte to the input appends its encoding to the output.
pub proof fn lemma_pct_encode_push(s: Seq<u8>, b: u8)
    ensures
        pct_encode(s.push(b)) == pct_encode(s) + pct_byte(b),
    decreases s.len(),
{
    if s.len() == 0 {
        assert(s.push(b).drop_first() =~= Seq::<u8>::empty());
        assert(s.push(b)[0] == b);
        assert(pct_encode(s.push(b)) == pct_byte(b) + pct_encode(Seq::<u8>::empty()));
        assert(pct_byte(b) + Seq::<u8>::empty() =~= pct_byte(b));
        assert(pct_encode(s) + pct_byte(b) =~= pct_byte(b));
    } else {
        assert(s.push(b).drop_first() =~= s.drop_first().push(b));
        lemma_pct_encode_push(s.drop_first(), b);
        assert(s.push(b)[0] == s[0]);
        assert(pct_encode(s.push(b)) == pct_byte(s[0]) + (pct_encode(s.drop_first()) + pct_byte(
            b,
        )));
        assert(pct_byte(s[0]) + (pct_encode(s.drop_first()) + pct_byte(b)) =~= (pct_byte(s[0])
            + pct_encode(s.drop_first())) + pct_byte(b));
    }
}

/// Percent-encoded output is ASCII.
pub proof fn lemma_pct_encode_ascii(s: Seq<u8>)
    ensures
        forall|i: int| 0 <= i < pct_encode(s).len() ==> #[trigger] pct_encode(s)[i] < 0x80,
    decreases s.len(),
{
    if s.len() > 0 {
        lemma_pct_encode_ascii(s.drop_first());
        assert forall|i: int| 0 <= i < pct_encode(s).len() implies #[trigger] pct_encode(s)[i]
            < 0x80 by {
            let pb = pct_byte(s[0]);
            if i < pb.len() {
                assert(pct_encode(s)[i] == pb[i]);
            } else {
                assert(pct_encode(s)[i] == pct_encode(s.drop_first())[i - pb.len()]);
            }
        }
    }
}

/// Percent-encode a byte sequence.
pub fn percent_encode(input: &[u8]) -> (r: Vec<u8>)
    ensures
        r@ == pct_encode(input@),
{
    let mut out: Vec<u8> = Vec::new();
    let mut i: usize = 0;
    while i < input.len()
        invariant
            i <= input@.len(),
            out@ == pct_encode(input@.take(i as int)),
        decreases input@.len() - i,
    {
        let b = input[i];
        proof {
            lemma_pct_encode_push(input@.take(i as int), input@[i as int]);
            assert(input@.take(i as int).push(input@[i as int]) =~= input@.take(i as int + 1));
        }
        if unreserved(b) {
            out.push(b);
        } else {
            out.push(0x25);
            out.push(hex_digit(b / 16));
            out.push(hex_digit(b % 16));
            assert(out@ =~= pct_encode(input@.take(i as int)) + pct_byte(b));
        }
        i += 1;
    }
    proof {
        assert(input@.take(input@.len() as int) =~= input@);
    }
    out
}

// ---------------------------------------------------------------------
// Query-string unescaping
// ---------------------------------------------------------------------
/// Decoding of a query-string component: "%XX" with two hexadecimal
/// digits becomes the byte XX, "+" becomes a space, and any other byte
/// (including a "%" not followed by two hexadecimal digits) stands as
/// itself.
pub open spec fn query_unescape(s: Seq<u8>) -> Seq<u8>
    decreases s.len(),
{
    if s.len() == 0 {
        Seq::empty()
    } else if s[0] == 0x25 && s.len() >= 3 && is_hex_digit(s[1]) && is_hex_digit(s[2]) {
        seq![(hex_val(s[1]) * 16 + hex_val(s[2])) as u8] + query_unescape(s.skip(3))
    } else if s[0] == 0x2b {
        seq![0x20u8] + query_unescape(s.skip(1))
    } else {
        seq![s[0]] + query_unescape(s.skip(1))
    }
}

/// Unescape a query-string component.
pub fn unescape_component(input: &[u8]) -> (r: Vec<u8>)
    ensures
        r@ == query_unescape(input@),
{
    let mut out: Vec<u8> = Vec::new();
    let mut i: usize = 0;
    proof {
        assert(input@.skip(0) =~= input@);
        assert(Seq::<u8>::empty() + query_unescape(input@) =~= query_unescape(input@));
    }
    while i < input.len()
        invariant
            i <= input@.len(),
            query_unescape(input@) == out@ + query_unescape(input@.skip(i as int)),
        decreases input@.len() - i,
    {
        let b = input[i];
        let ghost rest = input@.skip(i as int);
        assert(rest[0] == input@[i as int]);
        if b == 0x25 && input.len() - i > 2 && hex_digit_test(input[i + 1]) && hex_digit_test(
            input[i + 2],
        ) {
            assert(rest[1] == input@[i as int + 1] && rest[2] == input@[i as int + 2]);
            let hi = hex_value(input[i + 1]);
            let lo = hex_value(input[i + 2]);
            out.push(hi * 16 + lo);
            proof {
                assert(rest.skip(3) =~= input@.skip(i as int + 3));
                assert(query_unescape(rest) == seq![(hex_val(rest[1]) * 16 + hex_val(rest[2])) as u8]
                    + query_unescape(rest.skip(3)));
                assert(out@ + query_unescape(input@.skip(i as int + 3)) =~= query_unescape(input@));
            }
            i += 3;
        } else {
            let decoded: u8 = if b == 0x2b {
                0x20
            } else {
                b
            };
            out.push(decoded);
            proof {
                assert(rest.skip(1) =~= input@.skip(i as int + 1));
                assert(out@ + query_unescape(input@.skip(i as int + 1)) =~= query_unescape(input@));
            }
            i += 1;
        }
    }
    proof {
        assert(input@.skip(input@.len() as int) =~= Seq::<u8>::empty());
        assert(out@ =~= query_unescape(input@));
    }
    out
}

/// A sequence of unreserved bytes unescapes to itself: it holds no
/// '%' and no '+'.
pub proof fn lemma_unescape_unreserved_identity(s: Seq<u8>)
    requires
        forall|i: int| 0 <= i < s.len() ==> is_unreserved(#[trigger] s[i]),
    ensures
        query_unescape(s) == s,
    decreases s.len(),
{
    if s.len() > 0 {
        assert(is_unreserved(s[0]));
        assert(s[0] != 0x25 && s[0] != 0x2b);
        assert(forall|i: int|
            0 <= i < s.skip(1).len() ==> is_unreserved(#[trigger] s.skip(1)[i]));
        lemma_unescape_unreserved_identity(s.skip(1));
        assert(query_unescape(s) == seq![s[0]] + s.skip(1));
        assert(seq![s[0]] + s.skip(1) =~= s);
    }
}

/// A sequence of unreserved bytes percent-encodes to itself.
pub proof fn lemma_pct_encode_unreserved_identity(s: Seq<u8>)
    requires
        forall|i: int| 0 <= i < s.len() ==> is_unreserved(#[trigger] s[i]),
    ensures
        pct_encode(s) == s,
    decreases s.len(),
{
    if s.len() > 0 {
        assert(forall|i: int|
            0 <= i < s.drop_first().len() ==> is_unreserved(#[trigger] s.drop_first()[i]));
        lemma_pct_encode_unreserved_identity(s.drop_first());
        assert(pct_encode(s) == seq![s[0]] + s.drop_first());
        assert(seq![s[0]] + s.drop_first() =~= s);
    }
}

/// Unescaping undoes percent-encoding: a value placed in a URL comes
/// back exactly when the query string echoes it verbatim.
pub proof fn lemma_pct_roundtrip(s: Seq<u8>)
    ensures
        query_unescape(pct_encode(s)) == s,
    decreases s.len(),
{
    if s.len() == 0 {
    } else {
        lemma_pct_roundtrip(s.drop_first());
        let b = s[0];
        let enc = pct_encode(s);
        if is_unreserved(b) {
            assert(enc == seq![b] + pct_encode(s.drop_first()));
            assert(enc[0] == b);
            assert(b != 0x25 && b != 0x2b);
            assert(enc.skip(1) =~= pct_encode(s.drop_first()));
            assert(query_unescape(enc) == seq![b] + s.drop_first());
            assert(seq![b] + s.drop_first() =~= s);
        } else {
            let h1 = hex_upper(b / 16);
            let h2 = hex_upper(b % 16);
            assert(enc == seq![0x25u8, h1, h2] + pct_encode(s.drop_first()));
            assert(enc[0] == 0x25 && enc[1] == h1 && enc[2] == h2);
            assert(is_hex_digit(h1) && is_hex_digit(h2));
            assert(hex_val(h1) == b / 16 && hex_val(h2) == b % 16);
            assert(enc.skip(3) =~= pct_encode(s.drop_first()));
            assert(query_unescape(enc) == seq![(hex_val(h1) * 16 + hex_val(h2)) as u8] + s.drop_first());
            assert((hex_val(h1) * 16 + hex_val(h2)) as u8 == b);
            assert(seq![b] + s.drop_first() =~= s);
        }
    }
}

// ---------------------------------------------------------------------
// Base64url without padding
// ---------------------------------------------------------------------
/// The base64url alphabet (RFC 4648 section 5): 'A'-'Z', 'a'-'z',
/// '0'-'9', '-', '_'.
pub open spec fn b64_char(n: u8) -> u8
    recommends
        n < 64,
{
    if n < 26 {
        (0x41 + n) as u8
    } else if n < 52 {
        (0x61 + (n - 26)) as u8
    } else if n < 62 {
        (0x30 + (n - 52)) as u8
    } else if n == 62 {
        0x2d
    } else {
        0x5f
    }
}

/// Runtime form of [`b64_char`].
pub fn b64_digit(n: u8) -> (r: u8)
    requires
        n < 64,
    ensures
        r == b64_char(n),
{
    if n < 26 {
        0x41 + n
    } else if n < 52 {
        0x61 + (n - 26)
    } else if n < 62 {
        0x30 + (n - 52)
    } else if n == 62 {
        0x2d
    } else {
        0x5f
    }
}

/// The four output bytes for a full three-byte group.
pub open spec fn b64_group3(b0: u8, b1: u8, b2: u8) -> Seq<u8> {
    seq![
        b64_char(b0 / 4),
        b64_char(((b0 % 4) * 16 + b1 / 16) as u8),
        b64_char(((b1 % 16) * 4 + b2 / 64) as u8),
        b64_char(b2 % 64),
    ]
}

/// The three output bytes for a trailing two-byte group.
pub open spec fn b64_tail2(b0: u8, b1: u8) -> Seq<u8> {
    seq![
        b64_char(b0 / 4),
        b64_char(((b0 % 4) * 16 + b1 / 16) as u8),
        b64_char(((b1 % 16) * 4) as u8),
    ]
}

/// The two output bytes for a trailing one-byte group.
pub open spec fn b64_tail1(b0: u8) -> Seq<u8> {
    seq![b64_char(b0 / 4), b64_char(((b0 % 4) * 16) as u8)]
}

/// Base64url encoding without padding of a byte sequence.
pub open spec fn b64url(s: Seq<u8>) -> Seq<u8>
    decreases s.len(),
{
    if s.len() >= 3 {
        b64_group3(s[0], s[1], s[2]) + b64url(s.skip(3))
    } else if s.len() == 2 {
        b64_tail2(s[0], s[1])
    } else if s.len() == 1 {
        b64_tail1(s[0])
    } else {
        Seq::empty()
    }
}

/// The unpadded encoding of n bytes has ceiling(4n/3) characters.
pub proof fn lemma_b64url_len(s: Seq<u8>)
    ensures
        b64url(s).len() == (s.len() * 4 + 2) / 3,
    decreases s.len(),
{
    if s.len() >= 3 {
        lemma_b64url_len(s.skip(3));
    }
}

/// Every byte of an encoding is an unreserved character.
pub proof fn lemma_b64url_unreserved(s: Seq<u8>)
    ensures
        forall|i: int| 0 <= i < b64url(s).len() ==> is_unreserved(#[trigger] b64url(s)[i]),
    decreases s.len(),
{
    if s.len() >= 3 {
        lemma_b64url_unreserved(s.skip(3));
        let g = b64_group3(s[0], s[1], s[2]);
        assert forall|i: int| 0 <= i < b64url(s).len() implies is_unreserved(
            #[trigger] b64url(s)[i],
        ) by {
            if i < 4 {
                assert(b64url(s)[i] == g[i]);
            } else {
                assert(b64url(s)[i] == b64url(s.skip(3))[i - 4]);
            }
        }
    }
}

/// Base64url-encode a byte sequence, without padding.
pub fn base64url_encode(input: &[u8]) -> (r: Vec<u8>)
    ensures
        r@ == b64url(input@),
{
    let mut out: Vec<u8> = Vec::new();
    let mut i: usize = 0;
    proof {
        assert(input@.skip(0) =~= input@);
        assert(Seq::<u8>::empty() + b64url(input@) =~= b64url(input@));
    }
    while input.len() - i >= 3
        invariant
            i <= input@.len(),
            b64url(input@) == out@ + b64url(input@.skip(i as int)),
        decreases input@.len() - i,
    {
        let b0 = input[i];
        let b1 = input[i + 1];
        let b2 = input[i + 2];
        let ghost rest = input@.skip(i as int);
        proof {
            assert(rest[0] == b0 && rest[1] == b1 && rest[2] == b2);
            assert(rest.skip(3) =~= input@.skip(i as int + 3));
        }
        out.push(b64_digit(b0 / 4));
        out.push(b64_digit((b0 % 4) * 16 + b1 / 16));
        out.push(b64_digit((b1 % 16) * 4 + b2 / 64));
        out.push(b64_digit(b2 % 64));
        proof {
            assert(out@ + b64url(input@.skip(i as int + 3)) =~= b64url(input@));
        }
        i += 3;
    }
    let ghost rest = input@.skip(i as int);
    if input.len() - i == 2 {
        let b0 = input[i];
        let b1 = input[i + 1];
        assert(rest[0] == b0 && rest[1] == b1);
        out.push(b64_digit(b0 / 4));
        out.push(b64_digit((b0 % 4) * 16 + b1 / 16));
        out.push(b64_digit((b1 % 16) * 4));
        proof {
            assert(out@ =~= b64url(input@));
        }
    } else if input.len() - i == 1 {
        let b0 = input[i];
        assert(rest[0] == b0);
        out.push(b64_digit(b0 / 4));
        out.push(b64_digit((b0 % 4) * 16));
        proof {
            assert(out@ =~= b64url(input@));
        }
    } else {
        proof {
            assert(rest.len() == 0);
            assert(out@ =~= b64url(input@));
        }
    }
    out
}

} // verus!
