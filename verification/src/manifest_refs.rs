//! Digest extraction from manifest bytes: a shallow scan that collects every
//! string value of a `"digest"` key, wherever it sits in the document. In
//! the recognized manifest shapes the digest-valued fields are exactly
//! `config.digest`, `layers[].digest`, `manifests[].digest` and
//! `foreignLayers[].digest`, and each appears as a `"digest"` key, so the
//! scan collects all of them; a `"digest"` key anywhere else is collected
//! too. The over-approximation is deliberate and errs toward retention:
//! the collector treats everything collected as reachable, so it can only
//! keep a blob longer, never lose a referenced one. Pinning the scan to
//! those four paths alone would take a full document model; the chosen
//! grammar is the byte-level statement below.
use vstd::prelude::*;

verus! {

/// JSON insignificant whitespace.
pub open spec fn is_json_ws(b: u8) -> bool {
    b == 32 || b == 9 || b == 10 || b == 13
}

/// The first position at or after `i` that holds no whitespace.
pub open spec fn ws_end(s: Seq<u8>, i: int) -> int
    decreases s.len() - i when 0 <= i <= s.len()
{
    if i < s.len() && is_json_ws(s[i]) {
        ws_end(s, i + 1)
    } else {
        i
    }
}

pub proof fn lemma_ws_end(s: Seq<u8>, i: int)
    requires
        0 <= i <= s.len(),
    ensures
        i <= ws_end(s, i) <= s.len(),
        ws_end(s, i) < s.len() ==> !is_json_ws(s[ws_end(s, i)]),
        forall|j: int| i <= j < ws_end(s, i) ==> is_json_ws(#[trigger] s[j]),
    decreases s.len() - i,
{
    if i < s.len() && is_json_ws(s[i]) {
        lemma_ws_end(s, i + 1);
    }
}

/// The first position at or after `i` that holds a double quote; the length
/// when there is none.
pub open spec fn quote_end(s: Seq<u8>, i: int) -> int
    decreases s.len() - i when 0 <= i <= s.len()
{
    if i >= s.len() {
        s.len() as int
    } else if s[i] == 34 {
        i
    } else {
        quote_end(s, i + 1)
    }
}

pub proof fn lemma_quote_end(s: Seq<u8>, i: int)
    requires
        0 <= i <= s.len(),
    ensures
        i <= quote_end(s, i) <= s.len(),
        quote_end(s, i) < s.len() ==> s[quote_end(s, i)] == 34,
        forall|j: int| i <= j < quote_end(s, i) ==> s[j] != 34,
    decreases s.len() - i,
{
    if i < s.len() && s[i] != 34 {
        lemma_quote_end(s, i + 1);
    }
}

/// The key token the scan looks for: `"digest"`.
pub open spec fn digest_key() -> Seq<u8> {
    seq![34u8, 100u8, 105u8, 103u8, 101u8, 115u8, 116u8, 34u8]
}

/// Whether a complete `"digest"` key, colon and quoted value start at `i`.
pub open spec fn match_at(s: Seq<u8>, i: int) -> bool {
    &&& 0 <= i
    &&& i + 8 <= s.len()
    &&& s.subrange(i, i + 8) == digest_key()
    &&& ({
        let j = ws_end(s, i + 8);
        &&& j < s.len()
        &&& s[j] == 58
        &&& ({
            let k = ws_end(s, j + 1);
            &&& k < s.len()
            &&& s[k] == 34
            &&& quote_end(s, k + 1) < s.len()
        })
    })
}

/// The position of the opening quote of the value at a match.
pub open spec fn value_open(s: Seq<u8>, i: int) -> int {
    ws_end(s, ws_end(s, i + 8) + 1)
}

/// The value between the quotes at a match.
pub open spec fn value_at(s: Seq<u8>, i: int) -> Seq<u8> {
    s.subrange(value_open(s, i) + 1, quote_end(s, value_open(s, i) + 1))
}

/// Where the scan resumes after a match: past the closing quote.
pub open spec fn next_pos(s: Seq<u8>, i: int) -> int {
    quote_end(s, value_open(s, i) + 1) + 1
}

pub proof fn lemma_next_pos(s: Seq<u8>, i: int)
    requires
        match_at(s, i),
    ensures
        i + 8 < next_pos(s, i) <= s.len(),
{
    lemma_ws_end(s, i + 8);
    lemma_ws_end(s, ws_end(s, i + 8) + 1);
    lemma_quote_end(s, value_open(s, i) + 1);
}

/// Every `"digest"` value from position `i` on, in document order. The
/// scan resumes past each collected value, so a key inside a collected
/// value is not matched again; in the document shapes above, values hold
/// no quotes, so nothing is skipped.
pub open spec fn refs_from(s: Seq<u8>, i: int) -> Seq<Seq<u8>>
    decreases s.len() - i when 0 <= i <= s.len() via refs_from_decreases
{
    if i >= s.len() {
        Seq::empty()
    } else if match_at(s, i) {
        seq![value_at(s, i)] + refs_from(s, next_pos(s, i))
    } else {
        refs_from(s, i + 1)
    }
}

#[via_fn]
proof fn refs_from_decreases(s: Seq<u8>, i: int) {
    if 0 <= i <= s.len() && i < s.len() && match_at(s, i) {
        lemma_next_pos(s, i);
    }
}

/// All `"digest"` values of a document.
pub open spec fn digest_refs(s: Seq<u8>) -> Seq<Seq<u8>> {
    refs_from(s, 0)
}

fn skip_ws(data: &Vec<u8>, from: usize) -> (r: usize)
    requires
        from <= data@.len(),
    ensures
        r == ws_end(data@, from as int),
        from <= r <= data@.len(),
{
    proof {
        lemma_ws_end(data@, from as int);
    }
    let len = data.len();
    let mut i: usize = from;
    while i < len && (data[i] == 32 || data[i] == 9 || data[i] == 10 || data[i] == 13)
        invariant
            from <= i <= len,
            len == data@.len(),
            forall|j: int| from <= j < i ==> is_json_ws(#[trigger] data@[j]),
            i <= ws_end(data@, from as int),
        decreases len - i,
    {
        proof {
            lemma_ws_end(data@, from as int);
            if i + 1 > ws_end(data@, from as int) {
                assert(!is_json_ws(data@[ws_end(data@, from as int)]));
            }
        }
        i = i + 1;
    }
    proof {
        if i < ws_end(data@, from as int) {
            assert(is_json_ws(data@[i as int]));
        }
    }
    i
}

fn find_quote(data: &Vec<u8>, from: usize) -> (r: usize)
    requires
        from <= data@.len(),
    ensures
        r == quote_end(data@, from as int),
        from <= r <= data@.len(),
{
    proof {
        lemma_quote_end(data@, from as int);
    }
    let len = data.len();
    let mut i: usize = from;
    while i < len && data[i] != 34
        invariant
            from <= i <= len,
            len == data@.len(),
            forall|j: int| from <= j < i ==> data@[j] != 34,
            i <= quote_end(data@, from as int),
        decreases len - i,
    {
        proof {
            lemma_quote_end(data@, from as int);
            if i + 1 > quote_end(data@, from as int) {
                assert(data@[quote_end(data@, from as int)] == 34);
            }
        }
        i = i + 1;
    }
    proof {
        if i < quote_end(data@, from as int) {
            assert(data@[i as int] == 34);
        }
    }
    i
}

/// Collects every `"digest"` value of a manifest document, in order.
pub fn extract_digest_refs(data: &Vec<u8>) -> (r: Vec<Vec<u8>>)
    ensures
        r@.len() == digest_refs(data@).len(),
        forall|k: int| 0 <= k < r@.len() ==> (#[trigger] r@[k]@) == digest_refs(data@)[k],
{
    let len = data.len();
    let mut out: Vec<Vec<u8>> = Vec::new();
    let mut i: usize = 0;
    while i < len
        invariant
            i <= len,
            len == data@.len(),
            refs_from(data@, 0) =~= Seq::new(out@.len(), |k: int| out@[k]@) + refs_from(
                data@,
                i as int,
            ),
        decreases len - i,
    {
        let matched = len - i >= 8 && data[i] == 34 && data[i + 1] == 100 && data[i + 2] == 105
            && data[i + 3] == 103 && data[i + 4] == 101 && data[i + 5] == 115 && data[i + 6] == 116
            && data[i + 7] == 34;
        if !matched {
            proof {
                if i + 8 <= len {
                    assert(data@.subrange(i as int, i + 8) != digest_key()) by {
                        let sub = data@.subrange(i as int, i + 8);
                        if sub == digest_key() {
                            assert(sub[0] == 34 && sub[1] == 100 && sub[2] == 105 && sub[3] == 103
                                && sub[4] == 101 && sub[5] == 115 && sub[6] == 116 && sub[7] == 34);
                            assert(false);
                        }
                    }
                }
                assert(!match_at(data@, i as int));
                assert(refs_from(data@, i as int) == refs_from(data@, i + 1));
            }
            i = i + 1;
            continue;
        }
        proof {
            assert(data@.subrange(i as int, i + 8) =~= digest_key());
        }
        let j = skip_ws(data, i + 8);
        if !(j < len && data[j] == 58) {
            proof {
                assert(!match_at(data@, i as int));
            }
            i = i + 1;
            continue;
        }
        let k = skip_ws(data, j + 1);
        if !(k < len && data[k] == 34) {
            proof {
                assert(!match_at(data@, i as int));
            }
            i = i + 1;
            continue;
        }
        let e = find_quote(data, k + 1);
        if !(e < len) {
            proof {
                assert(!match_at(data@, i as int));
            }
            i = i + 1;
            continue;
        }
        proof {
            assert(match_at(data@, i as int));
            assert(value_open(data@, i as int) == k as int);
            assert(next_pos(data@, i as int) == e + 1);
        }
        let mut value: Vec<u8> = Vec::new();
        let mut p: usize = k + 1;
        while p < e
            invariant
                k + 1 <= p <= e,
                e < data@.len(),
                value@.len() == p - (k + 1),
                forall|q: int| 0 <= q < value@.len() ==> (#[trigger] value@[q]) == data@[
                    k + 1 + q
                ],
            decreases e - p,
        {
            value.push(data[p]);
            p = p + 1;
        }
        proof {
            assert(value@ =~= value_at(data@, i as int));
            let prev = Seq::new(out@.len(), |q: int| out@[q]@);
            assert(refs_from(data@, i as int) == seq![value_at(data@, i as int)] + refs_from(
                data@,
                e + 1,
            ));
            assert(prev.push(value@) =~= Seq::new(out@.len() + 1, |q: int| (out@.push(
                value,
            ))[q]@));
            assert(prev + refs_from(data@, i as int) =~= (prev.push(value@)) + refs_from(
                data@,
                e + 1,
            ));
        }
        out.push(value);
        i = e + 1;
    }
    proof {
        assert(refs_from(data@, len as int) =~= Seq::<Seq<u8>>::empty());
        assert(digest_refs(data@) =~= Seq::new(out@.len(), |k: int| out@[k]@));
    }
    out
}

/// The scan misses nothing it could see: every position where a complete
/// `"digest"` key-value occurrence starts has its value collected, unless
/// the occurrence begins inside the span of an earlier collected one. In
/// the recognized manifest shapes values hold no quotes, so no occurrence
/// begins inside another and every digest-valued field is collected.
pub proof fn lemma_refs_from_complete(s: Seq<u8>, i: int, p: int)
    requires
        0 <= i <= p,
        match_at(s, p),
    ensures
        refs_from(s, i).contains(value_at(s, p)) || exists|q: int|
            i <= q < p && #[trigger] match_at(s, q) && p < next_pos(s, q),
    decreases p - i,
{
    lemma_next_pos(s, p);
    if i == p {
        assert(refs_from(s, i)[0] == value_at(s, p));
    } else if match_at(s, i) {
        lemma_next_pos(s, i);
        if p < next_pos(s, i) {
            assert(match_at(s, i) && i <= i < p && p < next_pos(s, i));
        } else {
            lemma_refs_from_complete(s, next_pos(s, i), p);
            if refs_from(s, next_pos(s, i)).contains(value_at(s, p)) {
                let k = choose|k: int|
                    0 <= k < refs_from(s, next_pos(s, i)).len() && refs_from(s, next_pos(s, i))[k]
                        == value_at(s, p);
                assert(refs_from(s, i)[k + 1] == value_at(s, p));
            }
        }
    } else {
        lemma_refs_from_complete(s, i + 1, p);
    }
}

/// The containment at the document level: every complete `"digest"`
/// occurrence is in `digest_refs`, short of beginning inside an earlier
/// collected span.
pub proof fn lemma_digest_refs_complete(s: Seq<u8>, p: int)
    requires
        0 <= p,
        match_at(s, p),
    ensures
        digest_refs(s).contains(value_at(s, p)) || exists|q: int|
            0 <= q < p && #[trigger] match_at(s, q) && p < next_pos(s, q),
{
    lemma_refs_from_complete(s, 0, p);
}

} // verus!
