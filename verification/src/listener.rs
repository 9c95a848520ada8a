//! Decision logic of the ephemeral single-shot callback listener.
//!
//! The listener answers every incoming request, but captures and hands
//! on at most one: the first whose query string carries both a `code`
//! and a `state` parameter.  Every other request — favicon fetches,
//! prefetches, duplicates, anything after delivery — is answered with a
//! neutral page and changes nothing.  The accept loop itself (sockets,
//! HTTP framing) runs outside and feeds this type one raw query string
//! per request.

use vstd::prelude::*;

use crate::codec::{is_unreserved, lemma_unescape_unreserved_identity, query_unescape};
use crate::query::{
    find_b, lemma_find_b_at, lookup_pairs, query_lookup, query_pairs, query_param, split_pair,
};

verus! {

/// The name of the authorization-code parameter, "code".
pub open spec fn code_key() -> Seq<u8> {
    seq![0x63u8, 0x6fu8, 0x64u8, 0x65u8]
}

/// The name of the anti-forgery parameter, "state".
pub open spec fn state_key() -> Seq<u8> {
    seq![0x73u8, 0x74u8, 0x61u8, 0x74u8, 0x65u8]
}

fn code_key_bytes() -> (r: Vec<u8>)
    ensures
        r@ == code_key(),
{
    let mut v: Vec<u8> = Vec::new();
    v.push(0x63);
    v.push(0x6f);
    v.push(0x64);
    v.push(0x65);
    proof {
        assert(v@ =~= code_key());
    }
    v
}

fn state_key_bytes() -> (r: Vec<u8>)
    ensures
        r@ == state_key(),
{
    let mut v: Vec<u8> = Vec::new();
    v.push(0x73);
    v.push(0x74);
    v.push(0x61);
    v.push(0x74);
    v.push(0x65);
    proof {
        assert(v@ =~= state_key());
    }
    v
}

/// Whether a query string carries both a `code` and a `state`
/// parameter.
pub open spec fn well_formed_callback(q: Seq<u8>) -> bool {
    query_param(q, code_key()) is Some && query_param(q, state_key()) is Some
}

/// The listener's transition for one incoming request with query
/// string `q`: the delivered flag afterwards, and what (if anything)
/// is handed to the waiting flow.
pub open spec fn listener_step(delivered: bool, q: Seq<u8>) -> (bool, Option<(Seq<u8>, Seq<u8>)>) {
    if !delivered && well_formed_callback(q) {
        (
            true,
            Some(
                (query_param(q, code_key()).unwrap(), query_param(q, state_key()).unwrap()),
            ),
        )
    } else {
        (delivered, None)
    }
}

/// The authorization code and echoed state of one accepted callback.
#[derive(Debug)]
pub struct CallbackResult {
    /// The provider-issued authorization code, decoded.
    pub code: Vec<u8>,
    /// The echoed state value, decoded.
    pub state: Vec<u8>,
}

/// What the listener decided for one incoming request.
#[derive(Debug)]
pub enum RequestOutcome {
    /// The first well-formed callback: captured, to be handed to the
    /// waiting flow exactly once.
    Delivered(CallbackResult),
    /// Any other request: answered and otherwise ignored.
    Ignored,
}

/// The listener's state: a single-use delivered flag.
#[derive(Debug)]
pub struct Listener {
    delivered: bool,
}

impl Listener {
    /// Whether the one callback was already delivered.
    pub closed spec fn spec_delivered(&self) -> bool {
        self.delivered
    }

    /// A fresh listener that has delivered nothing.
    pub fn new() -> (r: Listener)
        ensures
            !r.spec_delivered(),
    {
        Listener { delivered: false }
    }

    /// Runtime form of [`Listener::spec_delivered`].
    pub fn delivered(&self) -> (r: bool)
        ensures
            r == self.spec_delivered(),
    {
        self.delivered
    }

    /// Decide one incoming request, given the raw query string of its
    /// URL (the part after '?').  Exactly the first request carrying
    /// both `code` and `state` is delivered; everything else leaves the
    /// listener unchanged.
    pub fn handle_request(&mut self, raw_query: &[u8]) -> (r: RequestOutcome)
        ensures
            ({
                let (d2, out) = listener_step(old(self).spec_delivered(), raw_query@);
                final(self).spec_delivered() == d2 && (match r {
                    RequestOutcome::Delivered(cb) => out == Some((cb.code@, cb.state@)),
                    RequestOutcome::Ignored => out is None,
                })
            }),
    {
        if self.delivered {
            return RequestOutcome::Ignored;
        }
        let ck = code_key_bytes();
        let sk = state_key_bytes();
        let code = query_lookup(raw_query, ck.as_slice());
        let state = query_lookup(raw_query, sk.as_slice());
        match (code, state) {
            (Some(c), Some(s)) => {
                self.delivered = true;
                RequestOutcome::Delivered(CallbackResult { code: c, state: s })
            },
            (Some(_), None) => RequestOutcome::Ignored,
            (None, Some(_)) => RequestOutcome::Ignored,
            (None, None) => RequestOutcome::Ignored,
        }
    }
}

/// The fixed page for the one accepted callback: tells the user the
/// window may be closed and tries to close it.
pub fn success_page() -> (r: &'static str)
    ensures
        r@ == "<h1>You may close this page</h1><script>window.close()</script>"@,
{
    "<h1>You may close this page</h1><script>window.close()</script>"
}

/// The neutral page for every other request.
pub fn neutral_page() -> (r: &'static str)
    ensures
        r@ == "<h1>Waiting for authentication</h1>"@,
{
    "<h1>Waiting for authentication</h1>"
}

/// The page answering a request, chosen by its outcome.
pub fn response_page(r: &RequestOutcome) -> (page: &'static str)
    ensures
        (r is Delivered ==> page@ == "<h1>You may close this page</h1><script>window.close()</script>"@),
        (r is Ignored ==> page@ == "<h1>Waiting for authentication</h1>"@),
{
    match r {
        RequestOutcome::Delivered(_) => success_page(),
        RequestOutcome::Ignored => neutral_page(),
    }
}

/// Single shot: of two well-formed requests arriving in sequence, only
/// the first is delivered; the second is ignored and the flag stays
/// set.
pub proof fn lemma_single_shot(q1: Seq<u8>, q2: Seq<u8>)
    requires
        well_formed_callback(q1),
        well_formed_callback(q2),
    ensures
        ({
            let (d1, out1) = listener_step(false, q1);
            let (d2, out2) = listener_step(d1, q2);
            d1 && out1 is Some && d2 && out2 is None
        }),
{
}

/// The query string of a faithful redirect: "code=", the code,
/// "&state=", the echoed value.
pub open spec fn redirect_query(code: Seq<u8>, state: Seq<u8>) -> Seq<u8> {
    code_key() + seq![0x3du8] + code + seq![0x26u8] + state_key() + seq![0x3du8] + state
}

/// End to end through the listener: a redirect carrying a URL-safe
/// code and the nonce echoed verbatim is well formed, and a fresh
/// listener delivers exactly that code and that nonce.  Together with
/// the flow's validation contract, such a redirect — and only such a
/// redirect — reaches the token exchange.
pub proof fn lemma_echoed_redirect_delivers(code: Seq<u8>, nonce: Seq<u8>)
    requires
        forall|i: int| 0 <= i < code.len() ==> is_unreserved(#[trigger] code[i]),
        forall|i: int| 0 <= i < nonce.len() ==> is_unreserved(#[trigger] nonce[i]),
    ensures
        well_formed_callback(redirect_query(code, nonce)),
        listener_step(false, redirect_query(code, nonce)) == (
            true,
            Some((code, nonce)),
        ),
{
    let seg1 = code_key() + seq![0x3du8] + code;
    let seg2 = state_key() + seq![0x3du8] + nonce;
    let q = redirect_query(code, nonce);
    assert(q =~= seg1 + seq![0x26u8] + seg2);

    // the first '&' stands exactly between the two pairs
    assert forall|j: int| 0 <= j < seg1.len() implies q[j] != 0x26 by {
        assert(q[j] == seg1[j]);
        if j < 4 {
            assert(seg1[j] == code_key()[j]);
        } else if j == 4 {
            assert(seg1[4] == 0x3d);
        } else {
            assert(seg1[j] == code[j - 5]);
            assert(is_unreserved(code[j - 5]));
        }
    }
    assert(q[seg1.len() as int] == 0x26);
    lemma_find_b_at(q, 0x26, seg1.len() as int);
    assert(q.take(seg1.len() as int) =~= seg1);
    assert(q.skip(seg1.len() as int + 1) =~= seg2);
    assert(query_pairs(q) == seq![split_pair(seg1)] + query_pairs(seg2));

    // the first pair splits at "code="
    assert forall|j: int| 0 <= j < 4 implies seg1[j] != 0x3d by {
        assert(seg1[j] == code_key()[j]);
    }
    assert(seg1[4] == 0x3d);
    lemma_find_b_at(seg1, 0x3d, 4);
    assert(seg1.take(4) =~= code_key());
    assert(seg1.skip(5) =~= code);
    assert(split_pair(seg1) == (code_key(), code));

    // the second segment holds no '&' and splits at "state="
    assert forall|j: int| 0 <= j < seg2.len() implies seg2[j] != 0x26 by {
        if j < 5 {
            assert(seg2[j] == state_key()[j]);
        } else if j == 5 {
            assert(seg2[5] == 0x3d);
        } else {
            assert(seg2[j] == nonce[j - 6]);
            assert(is_unreserved(nonce[j - 6]));
        }
    }
    lemma_find_b_at(seg2, 0x26, seg2.len() as int);
    assert(query_pairs(seg2) == seq![split_pair(seg2)]);
    assert forall|j: int| 0 <= j < 5 implies seg2[j] != 0x3d by {
        assert(seg2[j] == state_key()[j]);
    }
    assert(seg2[5] == 0x3d);
    lemma_find_b_at(seg2, 0x3d, 5);
    assert(seg2.take(5) =~= state_key());
    assert(seg2.skip(6) =~= nonce);
    assert(split_pair(seg2) == (state_key(), nonce));

    // keys and values unescape to themselves
    assert forall|i: int| 0 <= i < code_key().len() implies is_unreserved(
        #[trigger] code_key()[i],
    ) by {}
    assert forall|i: int| 0 <= i < state_key().len() implies is_unreserved(
        #[trigger] state_key()[i],
    ) by {}
    lemma_unescape_unreserved_identity(code_key());
    lemma_unescape_unreserved_identity(state_key());
    lemma_unescape_unreserved_identity(code);
    lemma_unescape_unreserved_identity(nonce);

    // the lookups land on their pairs
    let ps = query_pairs(q);
    assert(ps[0] == (code_key(), code));
    assert(ps.drop_first() =~= query_pairs(seg2));
    assert(query_unescape(ps[0].0) == code_key());
    assert(query_param(q, code_key()) == Some(code));
    assert(code_key() != state_key()) by {
        assert(code_key().len() == 4 && state_key().len() == 5);
    }
    assert(query_pairs(seg2)[0] == (state_key(), nonce));
    assert(lookup_pairs(query_pairs(seg2), state_key()) == Some(nonce));
    assert(query_param(q, state_key()) == Some(nonce));
}

/// A request missing `code` or `state` never flips the delivered flag
/// and never delivers anything, whatever state the listener is in.
pub proof fn lemma_malformed_ignored(delivered: bool, q: Seq<u8>)
    requires
        !well_formed_callback(q),
    ensures
        listener_step(delivered, q) == (delivered, None::<(Seq<u8>, Seq<u8>)>),
{
}

} // verus!
