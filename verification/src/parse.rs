//! Wire-level parsing: decimal integers and the `Content-Range` header.
use vstd::prelude::*;
use crate::strutil::digit_char;

verus! {

/// Whether a character is a decimal digit.
pub open spec fn is_dec_char(c: char) -> bool {
    '0' <= c && c <= '9'
}

/// The numeric value of a digit character.
pub open spec fn dec_char_val(c: char) -> nat {
    (c as int - '0' as int) as nat
}

/// The value of a digit string, most significant first.
pub open spec fn dec_val(s: Seq<char>) -> nat
    decreases s.len(),
{
    if s.len() == 0 {
        0
    } else {
        dec_val(s.drop_last()) * 10 + dec_char_val(s.last())
    }
}

/// A non-empty, all-digit string.
pub open spec fn is_dec_string(s: Seq<char>) -> bool {
    s.len() > 0 && forall|i: int| 0 <= i < s.len() ==> is_dec_char(#[trigger] s[i])
}

/// Parses a decimal integer: the digits' value when the string is non-empty,
/// all digits, and the value fits in `u64`; `None` otherwise.
pub fn parse_dec_u64(s: &str) -> (r: Option<u64>)
    ensures
        r is Some <==> is_dec_string(s@) && dec_val(s@) <= u64::MAX,
        r is Some ==> r->Some_0 == dec_val(s@),
{
    let len = s.unicode_len();
    if len == 0 {
        return None;
    }
    let mut acc: u64 = 0;
    let mut i: usize = 0;
    while i < len
        invariant
            i <= len,
            len == s@.len(),
            forall|j: int| 0 <= j < i ==> is_dec_char(#[trigger] s@[j]),
            acc == dec_val(s@.take(i as int)),
            dec_val(s@.take(i as int)) <= u64::MAX,
        decreases len - i,
    {
        let c = s.get_char(i);
        if !('0' <= c && c <= '9') {
            return None;
        }
        let d: u64 = (c as u32 as u64) - 48;
        proof {
            assert(s@.take(i as int + 1).drop_last() =~= s@.take(i as int));
            assert(s@.take(i as int + 1).last() == s@[i as int]);
        }
        if acc > (u64::MAX - d) / 10 {
            // the value no longer fits; any further digits keep it too large
            proof {
                lemma_dec_val_monotone(s@, i as int + 1);
                assert(dec_val(s@.take(i as int + 1)) > u64::MAX);
            }
            return None;
        }
        acc = acc * 10 + d;
        i = i + 1;
    }
    proof {
        assert(s@.take(len as int) =~= s@);
    }
    Some(acc)
}

/// The value of a digit string is at least the value of any prefix scaled
/// out: once a prefix exceeds a bound, the whole string does.
proof fn lemma_dec_val_monotone(s: Seq<char>, i: int)
    requires
        0 <= i <= s.len(),
    ensures
        dec_val(s) >= dec_val(s.take(i)),
    decreases s.len() - i,
{
    if i < s.len() {
        lemma_dec_val_monotone(s, i + 1);
        assert(s.take(i + 1).drop_last() =~= s.take(i));
        assert(dec_val(s.take(i + 1)) == dec_val(s.take(i)) * 10 + dec_char_val(s.take(i + 1).last()));
        assert(dec_val(s.take(i)) * 10 >= dec_val(s.take(i)));
    } else {
        assert(s.take(i) =~= s);
    }
}

/// The first position of `c` in `s`, or the length when absent.
pub open spec fn first_index_of(s: Seq<char>, c: char) -> int
    decreases s.len(),
{
    if s.len() == 0 {
        0
    } else if s[0] == c {
        0
    } else {
        1 + first_index_of(s.skip(1), c)
    }
}

pub proof fn lemma_first_index_of(s: Seq<char>, c: char)
    ensures
        0 <= first_index_of(s, c) <= s.len(),
        forall|i: int| 0 <= i < first_index_of(s, c) ==> s[i] != c,
        first_index_of(s, c) < s.len() ==> s[first_index_of(s, c)] == c,
    decreases s.len(),
{
    if s.len() > 0 && s[0] != c {
        lemma_first_index_of(s.skip(1), c);
        assert forall|i: int| 0 <= i < first_index_of(s, c) implies s[i] != c by {
            if i > 0 {
                assert(s.skip(1)[i - 1] != c);
            }
        }
    }
}

/// Finds the first occurrence of a character.
pub fn find_char(s: &str, c: char) -> (r: Option<usize>)
    ensures
        match r {
            Some(i) => i == first_index_of(s@, c) && i < s@.len() && s@[i as int] == c,
            None => first_index_of(s@, c) == s@.len(),
        },
{
    proof {
        lemma_first_index_of(s@, c);
    }
    let len = s.unicode_len();
    let mut i: usize = 0;
    while i < len
        invariant
            i <= len,
            len == s@.len(),
            forall|j: int| 0 <= j < i ==> s@[j] != c,
            0 <= first_index_of(s@, c) <= s@.len(),
            forall|j: int| 0 <= j < first_index_of(s@, c) ==> s@[j] != c,
            first_index_of(s@, c) < s@.len() ==> s@[first_index_of(s@, c)] == c,
        decreases len - i,
    {
        if s.get_char(i) == c {
            proof {
                if i < first_index_of(s@, c) {
                    assert(s@[i as int] != c);
                }
                if (i as int) > first_index_of(s@, c) {
                    assert(s@[first_index_of(s@, c)] != c);
                }
            }
            return Some(i);
        }
        i = i + 1;
    }
    proof {
        if first_index_of(s@, c) < s@.len() {
            assert(s@[first_index_of(s@, c)] != c);
        }
    }
    None
}

/// What a `Content-Range` header denotes: the inclusive byte range
/// `start-end`, from `bytes <start>-<end>` optionally followed by
/// `/<anything>`. Anything else denotes nothing.
pub open spec fn spec_content_range(s: Seq<char>) -> Option<(nat, nat)> {
    if s.len() < 6 || s.subrange(0, 6) != "bytes "@ {
        None
    } else {
        let rest = s.skip(6);
        let slash = first_index_of(rest, '/');
        let range = rest.take(slash);
        let dash = first_index_of(range, '-');
        if dash == range.len() {
            None
        } else {
            let start = range.take(dash);
            let end = range.skip(dash + 1);
            if is_dec_string(start) && is_dec_string(end) && dec_val(start) <= u64::MAX && dec_val(
                end,
            ) <= u64::MAX {
                Some((dec_val(start), dec_val(end)))
            } else {
                None
            }
        }
    }
}

/// Parses a `Content-Range` header of the form `bytes <start>-<end>` with an
/// optional `/<total>` suffix. Returns the exclusive range `(start, end+1)`,
/// and `(0, 0)` when the header has any other form.
pub fn parse_content_range(range_str: &str) -> (r: (u64, u64))
    ensures
        match spec_content_range(range_str@) {
            Some(p) => p.1 + 1 <= u64::MAX ==> (r.0 == p.0 && r.1 == p.1 + 1),
            None => r == (0u64, 0u64),
        },
{
    let len = range_str.unicode_len();
    proof {
        reveal_strlit("bytes ");
    }
    if len < 6 {
        return (0, 0);
    }
    let prefix = range_str.substring_char(0, 6);
    if !crate::strutil::str_eq(prefix, "bytes ") {
        return (0, 0);
    }
    let rest = range_str.substring_char(6, len);
    proof {
        assert(rest@ =~= range_str@.skip(6));
    }
    let rest_len = rest.unicode_len();
    let slash = match find_char(rest, '/') {
        Some(i) => i,
        None => rest_len,
    };
    let range = rest.substring_char(0, slash);
    proof {
        assert(range@ =~= rest@.take(slash as int));
    }
    let dash = match find_char(range, '-') {
        Some(i) => i,
        None => {
            return (0, 0);
        },
    };
    let range_len = range.unicode_len();
    let start_str = range.substring_char(0, dash);
    let end_str = range.substring_char(dash + 1, range_len);
    proof {
        assert(start_str@ =~= range@.take(dash as int));
        assert(end_str@ =~= range@.skip(dash as int + 1));
    }
    let start = match parse_dec_u64(start_str) {
        Some(v) => v,
        None => {
            return (0, 0);
        },
    };
    let end = match parse_dec_u64(end_str) {
        Some(v) => v,
        None => {
            return (0, 0);
        },
    };
    if end == u64::MAX {
        return (0, 0);
    }
    (start, end + 1)
}

} // verus!
