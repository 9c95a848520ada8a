//! The provider-facing authorization URL.
//!
//! The URL carries the standard authorization-code-with-PKCE query
//! parameters: response type, client id, space-joined scope list,
//! redirect URI, code challenge with its method tag, and the
//! anti-forgery state value.  Every configured component is
//! percent-encoded; the verifier itself never appears here.

use vstd::prelude::*;

use crate::bytes::{
    all_ascii, append_bytes, ascii_bytes, ascii_string, bytes_of, chars_of, lemma_all_ascii_concat,
};
use crate::codec::{lemma_pct_encode_ascii, pct_encode, percent_encode};
use crate::config::{scope_views, AuthConfig};

verus! {

/// The scope list joined with single spaces, in configuration order.
pub open spec fn join_scopes(scopes: Seq<Seq<u8>>) -> Seq<u8>
    decreases scopes.len(),
{
    if scopes.len() == 0 {
        Seq::empty()
    } else {
        scopes[0] + tail_scopes(scopes.drop_first())
    }
}

/// The remaining scopes, each preceded by one space.
pub open spec fn tail_scopes(scopes: Seq<Seq<u8>>) -> Seq<u8>
    decreases scopes.len(),
{
    if scopes.len() == 0 {
        Seq::empty()
    } else {
        seq![0x20u8] + scopes[0] + tail_scopes(scopes.drop_first())
    }
}

/// Join a scope list with single spaces.
pub fn join_scope_list(scopes: &Vec<Vec<u8>>) -> (r: Vec<u8>)
    ensures
        r@ == join_scopes(scope_views(scopes@)),
{
    let ghost vs = scope_views(scopes@);
    let mut out: Vec<u8> = Vec::new();
    if scopes.len() == 0 {
        proof {
            assert(out@ =~= join_scopes(vs));
        }
        return out;
    }
    append_bytes(&mut out, scopes[0].as_slice());
    proof {
        assert(out@ =~= vs[0]);
        assert(vs.skip(1) =~= vs.drop_first());
    }
    let mut i: usize = 1;
    #[verifier::loop_isolation(false)]
    while i < scopes.len()
        invariant
            1 <= i <= vs.len(),
            join_scopes(vs) == out@ + tail_scopes(vs.skip(i as int)),
        decreases vs.len() - i,
    {
        let ghost out0 = out@;
        out.push(0x20);
        append_bytes(&mut out, scopes[i].as_slice());
        proof {
            let rest = vs.skip(i as int);
            assert(rest[0] == vs[i as int]);
            assert(rest.drop_first() =~= vs.skip(i as int + 1));
            assert(tail_scopes(rest) == seq![0x20u8] + vs[i as int] + tail_scopes(
                vs.skip(i as int + 1),
            ));
            assert(out@ =~= out0 + seq![0x20u8] + vs[i as int]);
            assert(out0 + (seq![0x20u8] + vs[i as int] + tail_scopes(vs.skip(i as int + 1))) =~= (
            out0 + seq![0x20u8] + vs[i as int]) + tail_scopes(vs.skip(i as int + 1)));
        }
        i += 1;
    }
    proof {
        assert(vs.skip(vs.len() as int) =~= Seq::<Seq<u8>>::empty());
        assert(out@ =~= join_scopes(vs));
    }
    out
}

/// The authorization URL for a client id, scope list, redirect URI,
/// code challenge and state value: the provider's authorize endpoint
/// with the standard PKCE query parameters, every configured component
/// percent-encoded.
pub open spec fn auth_url_bytes(
    client_id: Seq<u8>,
    scopes: Seq<Seq<u8>>,
    redirect_uri: Seq<u8>,
    challenge: Seq<u8>,
    state: Seq<u8>,
) -> Seq<u8> {
    bytes_of("https://accounts.spotify.com/authorize?response_type=code&client_id="@)
        + pct_encode(client_id) + bytes_of("&scope="@) + pct_encode(join_scopes(scopes))
        + bytes_of("&redirect_uri="@) + pct_encode(redirect_uri) + bytes_of(
        "&code_challenge_method=S256&code_challenge="@,
    ) + pct_encode(challenge) + bytes_of("&state="@) + pct_encode(state)
}

/// A URL-safe state value stands verbatim at the end of the
/// authorization URL: what the provider must echo back is the nonce
/// itself, byte for byte.
pub proof fn lemma_state_verbatim_in_url(
    client_id: Seq<u8>,
    scopes: Seq<Seq<u8>>,
    redirect_uri: Seq<u8>,
    challenge: Seq<u8>,
    state: Seq<u8>,
)
    requires
        forall|i: int| 0 <= i < state.len() ==> crate::codec::is_unreserved(#[trigger] state[i]),
    ensures
        ({
            let url = auth_url_bytes(client_id, scopes, redirect_uri, challenge, state);
            url.len() >= state.len() && url.skip(url.len() - state.len()) == state
        }),
{
    crate::codec::lemma_pct_encode_unreserved_identity(state);
    let url = auth_url_bytes(client_id, scopes, redirect_uri, challenge, state);
    assert(url.skip(url.len() - state.len()) =~= state);
}

/// Build the authorization URL for a validated configuration.  The
/// verifier never reaches this URL: only the challenge does.
pub fn build_authorization_url(cfg: &AuthConfig, challenge: &[u8], state: &[u8]) -> (r: String)
    ensures
        r@ == chars_of(
            auth_url_bytes(
                cfg.client_id@,
                scope_views(cfg.scopes@),
                cfg.redirect_uri@,
                challenge@,
                state@,
            ),
        ),
{
    proof {
        reveal_strlit("https://accounts.spotify.com/authorize?response_type=code&client_id=");
        reveal_strlit("&scope=");
        reveal_strlit("&redirect_uri=");
        reveal_strlit("&code_challenge_method=S256&code_challenge=");
        reveal_strlit("&state=");
        assert(("https://accounts.spotify.com/authorize?response_type=code&client_id=").is_ascii());
        assert(("&scope=").is_ascii());
        assert(("&redirect_uri=").is_ascii());
        assert(("&code_challenge_method=S256&code_challenge=").is_ascii());
        assert(("&state=").is_ascii());
    }
    let mut out: Vec<u8> = Vec::new();
    let s1 = ascii_bytes("https://accounts.spotify.com/authorize?response_type=code&client_id=");
    append_bytes(&mut out, s1);
    proof {
        assert(all_ascii(out@)) by {
            assert(out@ =~= s1@);
        }
    }
    let ghost a1 = out@;
    let e1 = percent_encode(cfg.client_id.as_slice());
    append_bytes(&mut out, e1.as_slice());
    proof {
        lemma_pct_encode_ascii(cfg.client_id@);
        lemma_all_ascii_concat(a1, e1@);
    }
    let ghost a2 = out@;
    let s2 = ascii_bytes("&scope=");
    append_bytes(&mut out, s2);
    proof {
        lemma_all_ascii_concat(a2, s2@);
    }
    let ghost a3 = out@;
    let joined = join_scope_list(&cfg.scopes);
    let e2 = percent_encode(joined.as_slice());
    append_bytes(&mut out, e2.as_slice());
    proof {
        lemma_pct_encode_ascii(joined@);
        lemma_all_ascii_concat(a3, e2@);
    }
    let ghost a4 = out@;
    let s3 = ascii_bytes("&redirect_uri=");
    append_bytes(&mut out, s3);
    proof {
        lemma_all_ascii_concat(a4, s3@);
    }
    let ghost a5 = out@;
    let e3 = percent_encode(cfg.redirect_uri.as_slice());
    append_bytes(&mut out, e3.as_slice());
    proof {
        lemma_pct_encode_ascii(cfg.redirect_uri@);
        lemma_all_ascii_concat(a5, e3@);
    }
    let ghost a6 = out@;
    let s4 = ascii_bytes("&code_challenge_method=S256&code_challenge=");
    append_bytes(&mut out, s4);
    proof {
        lemma_all_ascii_concat(a6, s4@);
    }
    let ghost a7 = out@;
    let e4 = percent_encode(challenge);
    append_bytes(&mut out, e4.as_slice());
    proof {
        lemma_pct_encode_ascii(challenge@);
        lemma_all_ascii_concat(a7, e4@);
    }
    let ghost a8 = out@;
    let s5 = ascii_bytes("&state=");
    append_bytes(&mut out, s5);
    proof {
        lemma_all_ascii_concat(a8, s5@);
    }
    let ghost a9 = out@;
    let e5 = percent_encode(state);
    append_bytes(&mut out, e5.as_slice());
    proof {
        lemma_pct_encode_ascii(state@);
        lemma_all_ascii_concat(a9, e5@);
    }
    ascii_string(out)
}

} // verus!
