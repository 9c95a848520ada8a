//! Configuration of one authentication attempt, validated before any
//! network activity.
//!
//! The redirect URI must be syntactically valid and must carry an
//! explicit host and port — the listener binds to exactly that
//! address.  A malformed value is caller misconfiguration and is
//! rejected here, before any listener is created.

use vstd::prelude::*;

use crate::bytes::bytes_eq;
use crate::codec::is_digit_byte;
use crate::errors::AuthError;
use crate::query::{find_b, lemma_find_b_at};

verus! {

/// The scheme prefix "http://".
pub open spec fn http_prefix() -> Seq<u8> {
    seq![0x68u8, 0x74u8, 0x74u8, 0x70u8, 0x3au8, 0x2fu8, 0x2fu8]
}

/// The scheme prefix "https://".
pub open spec fn https_prefix() -> Seq<u8> {
    seq![0x68u8, 0x74u8, 0x74u8, 0x70u8, 0x73u8, 0x3au8, 0x2fu8, 0x2fu8]
}

/// Length of the recognized scheme prefix, or 0 when the URI carries
/// neither.
pub open spec fn scheme_len(u: Seq<u8>) -> int {
    if https_prefix().is_prefix_of(u) {
        8
    } else if http_prefix().is_prefix_of(u) {
        7
    } else {
        0
    }
}

/// A nonempty run of decimal digits.
pub open spec fn all_digits(s: Seq<u8>) -> bool {
    s.len() > 0 && forall|i: int| 0 <= i < s.len() ==> is_digit_byte(#[trigger] s[i])
}

/// The decimal value of a digit run.
pub open spec fn digits_val(s: Seq<u8>) -> int
    decreases s.len(),
{
    if s.len() == 0 {
        0
    } else {
        digits_val(s.drop_last()) * 10 + (s[s.len() - 1] - 0x30)
    }
}

/// A digit run has a nonnegative value.
pub proof fn lemma_digits_val_nonneg(s: Seq<u8>)
    requires
        forall|i: int| 0 <= i < s.len() ==> is_digit_byte(#[trigger] s[i]),
    ensures
        digits_val(s) >= 0,
    decreases s.len(),
{
    if s.len() > 0 {
        assert(forall|i: int|
            0 <= i < s.drop_last().len() ==> is_digit_byte(#[trigger] s.drop_last()[i]));
        lemma_digits_val_nonneg(s.drop_last());
    }
}

/// The value of a digit run is at least the value of any prefix.
pub proof fn lemma_digits_val_grow(s: Seq<u8>, i: int)
    requires
        forall|j: int| 0 <= j < s.len() ==> is_digit_byte(#[trigger] s[j]),
        0 <= i <= s.len(),
    ensures
        digits_val(s.take(i)) <= digits_val(s),
    decreases s.len() - i,
{
    if i < s.len() {
        lemma_digits_val_grow(s, i + 1);
        assert(s.take(i + 1).drop_last() =~= s.take(i));
        assert(s.take(i + 1)[i] == s[i]);
        lemma_digits_val_nonneg(s.take(i));
        assert(digits_val(s.take(i + 1)) == digits_val(s.take(i)) * 10 + (s[i] - 0x30));
    } else {
        assert(s.take(i) =~= s);
    }
}

/// The host, port and path of a redirect URI of the form
/// `http://host:port/path` (or https): the host is the nonempty run
/// after the scheme up to the first ':', which must come before any
/// '/'; the port is the nonempty digit run after the ':' up to the
/// first '/' or the end, with a value between 1 and 65535; the path is
/// the rest.  Anything else — in particular a URI without an explicit
/// port — has no parts.
pub open spec fn redirect_parts(u: Seq<u8>) -> Option<(Seq<u8>, int, Seq<u8>)> {
    let s = scheme_len(u);
    if s == 0 {
        None
    } else {
        let body = u.skip(s);
        let colon = find_b(body, 0x3a);
        let slash = find_b(body, 0x2f);
        if colon <= 0 || (0 <= slash && slash < colon) {
            None
        } else {
            let host = body.take(colon);
            let after = body.skip(colon + 1);
            let pslash = find_b(after, 0x2f);
            let port_run = if pslash < 0 {
                after
            } else {
                after.take(pslash)
            };
            let path = if pslash < 0 {
                Seq::<u8>::empty()
            } else {
                after.skip(pslash)
            };
            if all_digits(port_run) && 1 <= digits_val(port_run) <= 65535 {
                Some((host, digits_val(port_run), path))
            } else {
                None
            }
        }
    }
}

fn http_prefix_bytes() -> (r: Vec<u8>)
    ensures
        r@ == http_prefix(),
{
    let mut v: Vec<u8> = Vec::new();
    v.push(0x68);
    v.push(0x74);
    v.push(0x74);
    v.push(0x70);
    v.push(0x3a);
    v.push(0x2f);
    v.push(0x2f);
    proof {
        assert(v@ =~= http_prefix());
    }
    v
}

fn https_prefix_bytes() -> (r: Vec<u8>)
    ensures
        r@ == https_prefix(),
{
    let mut v: Vec<u8> = Vec::new();
    v.push(0x68);
    v.push(0x74);
    v.push(0x74);
    v.push(0x70);
    v.push(0x73);
    v.push(0x3a);
    v.push(0x2f);
    v.push(0x2f);
    proof {
        assert(v@ =~= https_prefix());
    }
    v
}

/// Runtime form of [`scheme_len`].
fn scheme_length(u: &[u8]) -> (r: usize)
    ensures
        r == scheme_len(u@),
{
    let hps = https_prefix_bytes();
    if u.len() >= 8 && bytes_eq(vstd::slice::slice_subrange(u, 0, 8), hps.as_slice()) {
        proof {
            assert(https_prefix().is_prefix_of(u@));
        }
        return 8;
    }
    proof {
        if https_prefix().is_prefix_of(u@) {
            assert(u@.subrange(0, 8) =~= https_prefix());
        }
    }
    let hp = http_prefix_bytes();
    if u.len() >= 7 && bytes_eq(vstd::slice::slice_subrange(u, 0, 7), hp.as_slice()) {
        proof {
            assert(http_prefix().is_prefix_of(u@));
        }
        return 7;
    }
    proof {
        if http_prefix().is_prefix_of(u@) {
            assert(u@.subrange(0, 7) =~= http_prefix());
        }
    }
    0
}

/// Parse a redirect URI into host and port, exactly as
/// [`redirect_parts`] names them.
pub fn parse_redirect(u: &[u8]) -> (r: Option<(Vec<u8>, u16)>)
    ensures
        (r matches Some(hp) ==> redirect_parts(u@) is Some && redirect_parts(u@).unwrap().0
            == hp.0@ && redirect_parts(u@).unwrap().1 == hp.1 as int),
        (r is None ==> redirect_parts(u@) is None),
{
    let s = scheme_length(u);
    if s == 0 {
        return None;
    }
    let ghost body = u@.skip(s as int);
    let colon_opt = crate::query::find_byte_index(u, s, u.len(), 0x3a);
    let slash_opt = crate::query::find_byte_index(u, s, u.len(), 0x2f);
    proof {
        let crel: int = (match colon_opt {
            Some(c) => c as int - s,
            None => body.len() as int,
        });
        assert forall|j: int| 0 <= j < crel implies body[j] != 0x3a by {
            assert(body[j] == u@[s + j]);
        }
        if colon_opt is Some {
            assert(body[crel] == u@[colon_opt.unwrap() as int]);
        }
        lemma_find_b_at(body, 0x3a, crel);
        let srel: int = (match slash_opt {
            Some(c) => c as int - s,
            None => body.len() as int,
        });
        assert forall|j: int| 0 <= j < srel implies body[j] != 0x2f by {
            assert(body[j] == u@[s + j]);
        }
        if slash_opt is Some {
            assert(body[srel] == u@[slash_opt.unwrap() as int]);
        }
        lemma_find_b_at(body, 0x2f, srel);
    }
    let colon = match colon_opt {
        Some(c) => c,
        None => {
            return None;
        },
    };
    if colon == s {
        // empty host
        return None;
    }
    match slash_opt {
        Some(sl) if sl < colon => {
            return None;
        },
        _ => {},
    }
    // port run: digits from colon+1 to the first '/' after it, or the end
    let pend = match crate::query::find_byte_index(u, colon + 1, u.len(), 0x2f) {
        Some(p) => p,
        None => u.len(),
    };
    let ghost after = body.skip(colon as int - s + 1);
    proof {
        let prel: int = pend as int - colon - 1;
        assert forall|j: int| 0 <= j < prel implies after[j] != 0x2f by {
            assert(after[j] == u@[colon + 1 + j]);
        }
        if pend < u.len() {
            assert(after[prel] == u@[pend as int]);
        }
        lemma_find_b_at(after, 0x2f, prel);
    }
    let ghost port_run = if pend < u.len() {
        after.take(pend as int - colon - 1)
    } else {
        after
    };
    proof {
        assert(port_run =~= u@.subrange(colon as int + 1, pend as int));
    }
    if pend == colon + 1 {
        // empty port run
        return None;
    }
    let mut i: usize = colon + 1;
    let mut val: u64 = 0;
    #[verifier::loop_isolation(false)]
    while i < pend
        invariant
            colon + 1 <= i <= pend <= u@.len(),
            port_run == u@.subrange(colon as int + 1, pend as int),
            pend > colon + 1,
            forall|j: int| 0 <= j < i - colon - 1 ==> is_digit_byte(#[trigger] port_run[j]),
            val <= 65535,
            val == digits_val(port_run.take(i as int - colon - 1)),
        decreases pend - i,
    {
        let b = u[i];
        proof {
            assert(port_run[i as int - colon - 1] == u@[i as int]);
        }
        if !(0x30 <= b && b <= 0x39) {
            proof {
                assert(!is_digit_byte(port_run[i as int - colon - 1]));
                assert(!all_digits(port_run));
            }
            return None;
        }
        let ghost k: int = i as int - colon - 1;
        let nv: u64 = val * 10 + (b - 0x30) as u64;
        proof {
            assert(port_run.take(k + 1).drop_last() =~= port_run.take(k));
            assert(port_run.take(k + 1)[k] == port_run[k]);
            assert(nv == digits_val(port_run.take(k + 1)));
        }
        if nv > 65535 {
            proof {
                if all_digits(port_run) {
                    lemma_digits_val_grow(port_run, k + 1);
                    assert(digits_val(port_run) > 65535);
                }
            }
            return None;
        }
        val = nv;
        i += 1;
    }
    proof {
        assert(port_run.take(pend as int - colon - 1) =~= port_run);
        assert(all_digits(port_run));
    }
    if val == 0 {
        return None;
    }
    let host = vstd::slice::slice_to_vec(vstd::slice::slice_subrange(u, s, colon));
    proof {
        assert(host@ =~= body.take(colon as int - s));
    }
    Some((host, val as u16))
}

/// The views of a scope list.
pub open spec fn scope_views(scopes: Seq<Vec<u8>>) -> Seq<Seq<u8>> {
    scopes.map_values(|s: Vec<u8>| s@)
}

/// Whether a scope list is free of duplicates.
fn scopes_unique(scopes: &Vec<Vec<u8>>) -> (r: bool)
    ensures
        r == scope_views(scopes@).no_duplicates(),
{
    let ghost vs = scope_views(scopes@);
    let n = scopes.len();
    let mut i: usize = 0;
    while i < n
        invariant
            i <= n == scopes@.len(),
            vs == scope_views(scopes@),
            forall|a: int, b: int| 0 <= a < i && a < b < n ==> vs[a] != vs[b],
        decreases n - i,
    {
        let mut j: usize = i + 1;
        while j < n
            invariant
                i < j <= n == scopes@.len(),
                vs == scope_views(scopes@),
                forall|a: int, b: int| 0 <= a < i && a < b < n ==> vs[a] != vs[b],
                forall|b: int| i < b < j ==> vs[i as int] != vs[b],
            decreases n - j,
        {
            if bytes_eq(scopes[i].as_slice(), scopes[j].as_slice()) {
                proof {
                    assert(vs[i as int] == vs[j as int]);
                    assert(!vs.no_duplicates());
                }
                return false;
            }
            j += 1;
        }
        i += 1;
    }
    proof {
        assert forall|a: int, b: int|
            0 <= a < vs.len() && 0 <= b < vs.len() && a != b implies vs[a] != vs[b] by {
            if a < b {
                assert(vs[a] != vs[b]);
            } else {
                assert(vs[b] != vs[a]);
            }
        }
    }
    true
}

/// The validated configuration of one authentication attempt.
#[derive(Debug)]
pub struct AuthConfig {
    /// The provider-issued client identifier.
    pub client_id: Vec<u8>,
    /// The full redirect URI, as it appears in the authorization
    /// request and the token request.
    pub redirect_uri: Vec<u8>,
    /// The host of the redirect URI, for the listener to bind.
    pub host: Vec<u8>,
    /// The explicit port of the redirect URI.
    pub port: u16,
    /// The requested permission scopes, in configuration order,
    /// without duplicates.
    pub scopes: Vec<Vec<u8>>,
    /// The bound, in milliseconds, on the wait for a callback.
    pub timeout_ms: u64,
}

impl AuthConfig {
    /// A well-formed configuration: nonempty client id, a redirect URI
    /// with an explicit host and port (recorded verbatim in `host` and
    /// `port`), and duplicate-free scopes.
    pub open spec fn wf(&self) -> bool {
        &&& self.client_id@.len() > 0
        &&& redirect_parts(self.redirect_uri@) is Some
        &&& self.host@ == redirect_parts(self.redirect_uri@).unwrap().0
        &&& self.port as int == redirect_parts(self.redirect_uri@).unwrap().1
        &&& scope_views(self.scopes@).no_duplicates()
    }

    /// Check a configuration, before any listener is created.  Fails
    /// with `ConfigError` exactly when the client id is empty, the
    /// redirect URI has no recognized scheme, host or explicit port,
    /// or the scope list contains a duplicate.
    pub fn validate(
        client_id: Vec<u8>,
        redirect_uri: Vec<u8>,
        scopes: Vec<Vec<u8>>,
        timeout_ms: u64,
    ) -> (r: Result<AuthConfig, AuthError>)
        ensures
            (r matches Ok(c) ==> c.wf() && c.client_id@ == client_id@ && c.redirect_uri@
                == redirect_uri@ && c.scopes@ == scopes@ && c.timeout_ms == timeout_ms),
            (r is Err <==> client_id@.len() == 0 || redirect_parts(redirect_uri@) is None
                || !scope_views(scopes@).no_duplicates()),
            (r matches Err(e) ==> e == AuthError::ConfigError),
    {
        if client_id.len() == 0 {
            return Err(AuthError::ConfigError);
        }
        if !scopes_unique(&scopes) {
            return Err(AuthError::ConfigError);
        }
        match parse_redirect(redirect_uri.as_slice()) {
            Some((host, port)) => Ok(
                AuthConfig { client_id, redirect_uri, host, port, scopes, timeout_ms },
            ),
            None => Err(AuthError::ConfigError),
        }
    }
}

} // verus!
