//! Pagination over sorted listings: `n` caps the page, `last` seeks to the
//! first element strictly greater than it.
use vstd::prelude::*;
use crate::strutil::{lex_lt, str_lt};

verus! {

/// The views of a vector of strings.
pub open spec fn views_of(items: Seq<String>) -> Seq<Seq<char>> {
    Seq::new(items.len(), |i: int| items[i]@)
}

/// The first position whose element is strictly greater than `last`;
/// the length when there is none. Meaningful on sorted sequences.
pub open spec fn first_after(s: Seq<Seq<char>>, last: Seq<char>) -> int
    decreases s.len(),
{
    if s.len() == 0 {
        0
    } else if lex_lt(last, s[0]) {
        0
    } else {
        1 + first_after(s.skip(1), last)
    }
}

pub proof fn lemma_first_after(s: Seq<Seq<char>>, last: Seq<char>)
    ensures
        0 <= first_after(s, last) <= s.len(),
        forall|i: int| 0 <= i < first_after(s, last) ==> !lex_lt(last, s[i]),
        first_after(s, last) < s.len() ==> lex_lt(last, s[first_after(s, last)]),
    decreases s.len(),
{
    if s.len() > 0 && !lex_lt(last, s[0]) {
        lemma_first_after(s.skip(1), last);
        assert forall|i: int| 0 <= i < first_after(s, last) implies !lex_lt(last, s[i]) by {
            if i > 0 {
                assert(!lex_lt(last, s.skip(1)[i - 1]));
            }
        }
        if first_after(s, last) < s.len() {
            assert(s[first_after(s, last)] == s.skip(1)[first_after(s.skip(1), last)]);
        }
    }
}

/// Where a page starts: at the beginning, or just past `last`.
pub open spec fn page_start(s: Seq<Seq<char>>, last: Option<Seq<char>>) -> int {
    match last {
        None => 0,
        Some(l) => first_after(s, l),
    }
}

/// Takes the page after `last`, at most `n` long, from a sorted listing,
/// and says whether anything was left over.
pub fn paginate(items: &Vec<String>, n: usize, last: Option<&str>) -> (r: (Vec<String>, bool))
    requires
        forall|i: int, j: int|
            0 <= i < j < items@.len() ==> lex_lt(#[trigger] items@[i]@, #[trigger] items@[j]@),
    ensures
        ({
            let s = views_of(items@);
            let start = page_start(s, match last {
                Some(l) => Some(l@),
                None => None,
            });
            &&& r.0@.len() == if s.len() - start < n {
                s.len() - start
            } else {
                n as int
            }
            &&& forall|k: int| 0 <= k < r.0@.len() ==> (#[trigger] r.0@[k]@) == s[start + k]
            &&& r.1 == (s.len() - start > n)
        }),
{
    let ghost s = views_of(items@);
    let len = items.len();
    let mut start: usize = 0;
    match last {
        Some(l) => {
            proof {
                lemma_first_after(s, l@);
            }
            while start < len && !str_lt(l, items[start].as_str())
                invariant
                    start <= len,
                    len == items@.len(),
                    s == views_of(items@),
                    forall|j: int| 0 <= j < start ==> !lex_lt(l@, s[j]),
                    0 <= first_after(s, l@) <= s.len(),
                    forall|i: int| 0 <= i < first_after(s, l@) ==> !lex_lt(l@, s[i]),
                    first_after(s, l@) < s.len() ==> lex_lt(l@, s[first_after(s, l@)]),
                decreases len - start,
            {
                start = start + 1;
            }
            proof {
                let fa = first_after(s, l@);
                if start < fa {
                    assert(!lex_lt(l@, s[start as int]));
                    assert(start < len);
                }
                if fa < start {
                    assert(!lex_lt(l@, s[fa]));
                }
                assert(start == fa);
            }
        },
        None => {},
    }
    let mut page: Vec<String> = Vec::new();
    let mut k: usize = 0;
    while k < n && start + k < len
        invariant
            len == items@.len(),
            s == views_of(items@),
            start <= len,
            k <= n,
            start + k <= len,
            page@.len() == k,
            forall|j: int| 0 <= j < k ==> (#[trigger] page@[j]@) == s[start + j],
        decreases len - start - k,
    {
        page.push(items[start + k].clone());
        k = k + 1;
    }
    let truncated = len - start > n;
    (page, truncated)
}

} // verus!
