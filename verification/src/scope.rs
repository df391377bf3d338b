//! Scope derivation: which authorization scope each request path and method
//! requires.
use vstd::prelude::*;
use crate::strutil::str_eq;

verus! {

/// Whether `pat` occurs in `s` starting at `i`.
pub open spec fn is_match_at(s: Seq<char>, pat: Seq<char>, i: int) -> bool {
    0 <= i && i + pat.len() <= s.len() && s.subrange(i, i + pat.len()) == pat
}

/// The first position at or after `from` where `pat` occurs, or `-1`.
pub open spec fn first_match_from(s: Seq<char>, pat: Seq<char>, from: int) -> int
    decreases s.len() + 1 - from when 0 <= from
{
    if from + pat.len() > s.len() {
        -1
    } else if is_match_at(s, pat, from) {
        from
    } else {
        first_match_from(s, pat, from + 1)
    }
}

pub proof fn lemma_first_match_from(s: Seq<char>, pat: Seq<char>, from: int)
    requires
        0 <= from,
    ensures
        first_match_from(s, pat, from) == -1 || (from <= first_match_from(s, pat, from)
            && is_match_at(s, pat, first_match_from(s, pat, from))),
        first_match_from(s, pat, from) == -1 ==> forall|i: int|
            from <= i ==> !is_match_at(s, pat, i),
        forall|i: int| from <= i < first_match_from(s, pat, from) ==> !is_match_at(s, pat, i),
    decreases s.len() + 1 - from,
{
    if from + pat.len() > s.len() {
        assert forall|i: int| from <= i implies !is_match_at(s, pat, i) by {}
    } else if !is_match_at(s, pat, from) {
        lemma_first_match_from(s, pat, from + 1);
    }
}

/// Finds the first occurrence of `pat` in `s` at or after `from`.
pub fn find_from(s: &str, pat: &str, from: usize) -> (r: Option<usize>)
    requires
        from <= s@.len(),
        pat@.len() > 0,
    ensures
        match r {
            Some(i) => i == first_match_from(s@, pat@, from as int) && is_match_at(
                s@,
                pat@,
                i as int,
            ) && from <= i,
            None => first_match_from(s@, pat@, from as int) == -1,
        },
{
    proof {
        lemma_first_match_from(s@, pat@, from as int);
    }
    let s_len = s.unicode_len();
    let p_len = pat.unicode_len();
    if p_len > s_len - from {
        return None;
    }
    let mut i: usize = from;
    while i <= s_len - p_len
        invariant
            from <= i <= s_len - p_len + 1,
            1 <= p_len <= s_len - from,
            s_len == s@.len(),
            p_len == pat@.len(),
            forall|j: int| from <= j < i ==> !is_match_at(s@, pat@, j),
            first_match_from(s@, pat@, from as int) == -1 || (from <= first_match_from(
                s@,
                pat@,
                from as int,
            ) && is_match_at(s@, pat@, first_match_from(s@, pat@, from as int))),
            first_match_from(s@, pat@, from as int) == -1 ==> forall|j: int|
                from <= j ==> !is_match_at(s@, pat@, j),
            forall|j: int|
                from <= j < first_match_from(s@, pat@, from as int) ==> !is_match_at(s@, pat@, j),
        decreases s_len - p_len - i + 1,
    {
        let cand = s.substring_char(i, i + p_len);
        if str_eq(cand, pat) {
            proof {
                assert(is_match_at(s@, pat@, i as int));
                let fm = first_match_from(s@, pat@, from as int);
                if fm == -1 {
                    assert(!is_match_at(s@, pat@, i as int));
                }
                if fm < i {
                    assert(!is_match_at(s@, pat@, i as int));
                }
                if i < fm {
                    assert(!is_match_at(s@, pat@, i as int));
                }
            }
            return Some(i);
        }
        i = i + 1;
    }
    proof {
        let fm = first_match_from(s@, pat@, from as int);
        if fm != -1 {
            assert(is_match_at(s@, pat@, fm));
            assert(fm + pat@.len() <= s@.len());
            assert(false);
        }
    }
    None
}

/// The action a method implies: pull for reads, push for writes, delete
/// for deletions.
pub open spec fn spec_action_of(method: Seq<char>) -> Seq<char> {
    if method == "GET"@ || method == "HEAD"@ {
        "pull"@
    } else if method == "PUT"@ || method == "POST"@ || method == "PATCH"@ {
        "push"@
    } else if method == "DELETE"@ {
        "delete"@
    } else {
        "pull"@
    }
}

/// The scope a request needs. Upload paths always need push; manifest and
/// blob paths need the action their method implies; the catalog needs its
/// own scope; anything else needs the general registry scope.
pub open spec fn spec_required_scope(path: Seq<char>, method: Seq<char>) -> Seq<char> {
    if path == "/v2/_catalog"@ {
        "registry:catalog:*"@
    } else if path.len() >= 4 && path.subrange(0, 4) == "/v2/"@ {
        let up = first_match_from(path, "/blobs/uploads/"@, 4);
        let mf = first_match_from(path, "/manifests/"@, 4);
        let bl = first_match_from(path, "/blobs/"@, 4);
        if up >= 4 {
            "repository:"@ + path.subrange(4, up) + ":push"@
        } else if mf >= 4 {
            "repository:"@ + path.subrange(4, mf) + ":"@ + spec_action_of(method)
        } else if bl >= 4 {
            "repository:"@ + path.subrange(4, bl) + ":"@ + spec_action_of(method)
        } else {
            "registry:*"@
        }
    } else {
        "registry:*"@
    }
}

fn action_of(method: &str) -> (r: &'static str)
    ensures
        r@ == spec_action_of(method@),
{
    if str_eq(method, "GET") || str_eq(method, "HEAD") {
        "pull"
    } else if str_eq(method, "PUT") || str_eq(method, "POST") || str_eq(method, "PATCH") {
        "push"
    } else if str_eq(method, "DELETE") {
        "delete"
    } else {
        "pull"
    }
}

/// Derives the scope a request must hold.
pub fn determine_required_scope(path: &str, method: &str) -> (r: String)
    ensures
        r@ == spec_required_scope(path@, method@),
{
    if str_eq(path, "/v2/_catalog") {
        return "registry:catalog:*".to_owned();
    }
    let len = path.unicode_len();
    if len < 4 {
        return "registry:*".to_owned();
    }
    let prefix = path.substring_char(0, 4);
    if !str_eq(prefix, "/v2/") {
        return "registry:*".to_owned();
    }
    proof {
        reveal_strlit("/blobs/uploads/");
        reveal_strlit("/manifests/");
        reveal_strlit("/blobs/");
    }
    if let Some(up) = find_from(path, "/blobs/uploads/", 4) {
        let repo = path.substring_char(4, up);
        let mut s = "repository:".to_owned();
        s.append(repo);
        s.append(":push");
        return s;
    }
    if let Some(mf) = find_from(path, "/manifests/", 4) {
        let repo = path.substring_char(4, mf);
        let mut s = "repository:".to_owned();
        s.append(repo);
        s.append(":");
        s.append(action_of(method));
        return s;
    }
    if let Some(bl) = find_from(path, "/blobs/", 4) {
        let repo = path.substring_char(4, bl);
        let mut s = "repository:".to_owned();
        s.append(repo);
        s.append(":");
        s.append(action_of(method));
        return s;
    }
    "registry:*".to_owned()
}

/// The endpoints served without authentication.
pub open spec fn spec_public_path(path: Seq<char>) -> bool {
    ||| path == "/health"@
    ||| path == "/readyz"@
    ||| path == "/metrics"@
    ||| path == "/v2/"@
}

/// Whether a path is public: health, readiness, metrics, and the API probe.
pub fn is_public_path(path: &str) -> (r: bool)
    ensures
        r == spec_public_path(path@),
{
    str_eq(path, "/health") || str_eq(path, "/readyz") || str_eq(path, "/metrics") || str_eq(
        path,
        "/v2/",
    )
}

} // verus!
