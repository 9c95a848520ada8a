//! Query-string parsing for the callback listener.
//!
//! A query string is a sequence of `key=value` pairs separated by `&`;
//! keys and values are unescaped before use.  The model below gives the
//! decoded value of the first pair carrying a given key, which is what
//! the listener reads.

use vstd::prelude::*;
use vstd::slice::slice_subrange;

use crate::bytes::bytes_eq;
use crate::codec::{query_unescape, unescape_component};

verus! {

// ---------------------------------------------------------------------
// Spec model
// ---------------------------------------------------------------------
/// Index of the first occurrence of `b`, or -1 when absent.
pub open spec fn find_b(s: Seq<u8>, b: u8) -> int
    decreases s.len(),
{
    if s.len() == 0 {
        -1
    } else if s[0] == b {
        0
    } else if find_b(s.drop_first(), b) < 0 {
        -1
    } else {
        find_b(s.drop_first(), b) + 1
    }
}

/// [`find_b`] names the first occurrence: the byte stands there and
/// nowhere earlier; -1 means the byte does not occur at all.
pub proof fn lemma_find_b(s: Seq<u8>, b: u8)
    ensures
        find_b(s, b) < 0 ==> forall|j: int| 0 <= j < s.len() ==> s[j] != b,
        find_b(s, b) >= 0 ==> find_b(s, b) < s.len() && s[find_b(s, b)] == b && forall|j: int|
            0 <= j < find_b(s, b) ==> s[j] != b,
    decreases s.len(),
{
    if s.len() == 0 {
    } else if s[0] == b {
    } else {
        let t = s.drop_first();
        lemma_find_b(t, b);
        let r = find_b(t, b);
        if r < 0 {
            assert forall|j: int| 0 <= j < s.len() implies s[j] != b by {
                if j > 0 {
                    assert(t[j - 1] == s[j]);
                }
            }
        } else {
            assert(t[r] == s[r + 1]);
            assert forall|j: int| 0 <= j < r + 1 implies s[j] != b by {
                if j > 0 {
                    assert(t[j - 1] == s[j]);
                }
            }
        }
    }
}

/// A witness for the first occurrence (or for absence, with
/// `i == s.len()`) pins down [`find_b`].
pub proof fn lemma_find_b_at(s: Seq<u8>, b: u8, i: int)
    requires
        0 <= i <= s.len(),
        i < s.len() ==> s[i] == b,
        forall|j: int| 0 <= j < i ==> s[j] != b,
    ensures
        i < s.len() ==> find_b(s, b) == i,
        i == s.len() ==> find_b(s, b) < 0,
{
    lemma_find_b(s, b);
}

/// The part before the first '=' and the part after it; a pair without
/// '=' has an empty value.
pub open spec fn split_pair(p: Seq<u8>) -> (Seq<u8>, Seq<u8>) {
    let eq = find_b(p, 0x3d);
    if eq < 0 {
        (p, Seq::empty())
    } else {
        (p.take(eq), p.skip(eq + 1))
    }
}

/// The raw `key=value` pairs of a query string, split on '&'.
pub open spec fn query_pairs(q: Seq<u8>) -> Seq<(Seq<u8>, Seq<u8>)>
    decreases q.len(),
{
    let amp = find_b(q, 0x26);
    if amp < 0 || amp >= q.len() {
        seq![split_pair(q)]
    } else {
        seq![split_pair(q.take(amp))] + query_pairs(q.skip(amp + 1))
    }
}

/// The decoded value of the first pair whose decoded key is `key`.
pub open spec fn lookup_pairs(ps: Seq<(Seq<u8>, Seq<u8>)>, key: Seq<u8>) -> Option<Seq<u8>>
    decreases ps.len(),
{
    if ps.len() == 0 {
        None
    } else if query_unescape(ps[0].0) == key {
        Some(query_unescape(ps[0].1))
    } else {
        lookup_pairs(ps.drop_first(), key)
    }
}

/// The decoded value of the first query parameter named `key`.
pub open spec fn query_param(q: Seq<u8>, key: Seq<u8>) -> Option<Seq<u8>> {
    lookup_pairs(query_pairs(q), key)
}

// ---------------------------------------------------------------------
// Executable parser
// ---------------------------------------------------------------------
/// First position of `b` in `s[from..to]`, scanning left to right.
pub(crate) fn find_byte_index(s: &[u8], from: usize, to: usize, b: u8) -> (r: Option<usize>)
    requires
        from <= to <= s@.len(),
    ensures
        (r matches Some(i) ==> from <= i < to && s@[i as int] == b && forall|j: int|
            from <= j < i ==> s@[j] != b),
        (r is None ==> forall|j: int| from <= j < to ==> s@[j] != b),
{
    let mut i = from;
    while i < to
        invariant
            from <= i <= to <= s@.len(),
            forall|j: int| from <= j < i ==> s@[j] != b,
        decreases to - i,
    {
        if s[i] == b {
            return Some(i);
        }
        i += 1;
    }
    None
}

/// Decoded value of the first query parameter named `key`, exactly as
/// [`query_param`] gives it.
pub fn query_lookup(q: &[u8], key: &[u8]) -> (r: Option<Vec<u8>>)
    ensures
        (r matches Some(v) ==> query_param(q@, key@) == Some(v@)),
        (r is None ==> query_param(q@, key@) is None),
{
    let mut pos: usize = 0;
    proof {
        assert(q@.skip(0) =~= q@);
    }
    loop
        invariant
            pos <= q@.len(),
            query_param(q@, key@) == lookup_pairs(query_pairs(q@.skip(pos as int)), key@),
        decreases q@.len() + 1 - pos,
    {
        let ghost rest = q@.skip(pos as int);
        let amp_opt = find_byte_index(q, pos, q.len(), 0x26);
        let seg_end = match amp_opt {
            Some(a) => a,
            None => q.len(),
        };
        let ghost rel: int = seg_end as int - pos as int;
        proof {
            assert forall|j: int| 0 <= j < rel implies rest[j] != 0x26 by {
                assert(rest[j] == q@[pos as int + j]);
            }
            if seg_end < q.len() {
                assert(rest[rel] == q@[seg_end as int]);
            }
            lemma_find_b_at(rest, 0x26, rel);
        }
        let ghost seg: Seq<u8> = rest.take(rel);
        proof {
            assert(seg =~= q@.subrange(pos as int, seg_end as int));
        }
        let eq_opt = find_byte_index(q, pos, seg_end, 0x3d);
        let key_end = match eq_opt {
            Some(e) => e,
            None => seg_end,
        };
        let val_start = match eq_opt {
            Some(e) => e + 1,
            None => seg_end,
        };
        let ghost erel: int = key_end as int - pos as int;
        proof {
            assert forall|j: int| 0 <= j < erel implies seg[j] != 0x3d by {
                assert(seg[j] == q@[pos as int + j]);
            }
            if key_end < seg_end {
                assert(seg[erel] == q@[key_end as int]);
            }
            lemma_find_b_at(seg, 0x3d, erel);
        }
        let key_slice = slice_subrange(q, pos, key_end);
        let val_slice = slice_subrange(q, val_start, seg_end);
        proof {
            assert(key_slice@ =~= seg.take(erel));
            if key_end < seg_end {
                assert(val_slice@ =~= seg.skip(erel + 1));
            } else {
                assert(val_slice@ =~= Seq::<u8>::empty());
                assert(key_slice@ =~= seg);
            }
            assert(split_pair(seg) == (key_slice@, val_slice@));
            // the head of the remaining pair list is this segment's pair
            if rel < rest.len() {
                assert(query_pairs(rest) == seq![split_pair(seg)] + query_pairs(
                    rest.skip(rel + 1),
                ));
                assert(query_pairs(rest)[0] == split_pair(seg));
            } else {
                assert(seg =~= rest);
                assert(query_pairs(rest) == seq![split_pair(rest)]);
                assert(query_pairs(rest)[0] == split_pair(seg));
            }
        }
        let decoded_key = unescape_component(key_slice);
        if bytes_eq(decoded_key.as_slice(), key) {
            let decoded_val = unescape_component(val_slice);
            proof {
                assert(lookup_pairs(query_pairs(rest), key@) == Some(decoded_val@));
            }
            return Some(decoded_val);
        }
        if seg_end == q.len() {
            proof {
                assert(query_pairs(rest).len() == 1);
                assert(query_unescape(query_pairs(rest)[0].0) == decoded_key@);
                assert(decoded_key@ != key@);
                let tail = query_pairs(rest).drop_first();
                assert(tail =~= Seq::<(Seq<u8>, Seq<u8>)>::empty());
                assert(lookup_pairs(tail, key@) is None);
                assert(lookup_pairs(query_pairs(rest), key@) is None);
            }
            return None;
        }
        proof {
            assert(query_pairs(rest).drop_first() =~= query_pairs(rest.skip(rel + 1)));
            assert(rest.skip(rel + 1) =~= q@.skip(seg_end as int + 1));
            assert(lookup_pairs(query_pairs(rest), key@) == lookup_pairs(
                query_pairs(q@.skip(seg_end as int + 1)),
                key@,
            ));
        }
        pos = seg_end + 1;
    }
}

} // verus!
