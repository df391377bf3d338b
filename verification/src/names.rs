//! Digests, repository names, tags and references: the grammar of every
//! identifier the registry accepts, and its validators.
use vstd::prelude::*;
use crate::strutil::is_lower_hex_char;

verus! {

/// `a-z` or `0-9`: the characters a repository-name component is built from.
pub open spec fn is_name_char(c: char) -> bool {
    ('a' <= c && c <= 'z') || ('0' <= c && c <= '9')
}

/// `.`, `_` or `-`: the separators allowed inside a component.
pub open spec fn is_name_sep(c: char) -> bool {
    c == '.' || c == '_' || c == '-'
}

/// The characters of a repository name as a whole.
pub open spec fn is_repo_char(c: char) -> bool {
    is_name_char(c) || is_name_sep(c) || c == '/'
}

/// A valid repository name: 1 to 255 characters, slash-separated components,
/// where each component is lower-case alphanumeric runs joined by single
/// separators. Equivalently: every character is a name character, a
/// separator or a slash; the name starts and ends with a name character;
/// and every separator or slash has name characters on both sides.
pub open spec fn is_valid_repo_name(s: Seq<char>) -> bool {
    &&& 1 <= s.len() <= 255
    &&& forall|i: int| 0 <= i < s.len() ==> is_repo_char(#[trigger] s[i])
    &&& is_name_char(s[0])
    &&& is_name_char(s[s.len() - 1])
    &&& forall|i: int|
        0 < i < s.len() - 1 && !is_name_char(#[trigger] s[i]) ==> is_name_char(s[i - 1])
            && is_name_char(s[i + 1])
}

/// A tag character other than the first: letters, digits, `.`, `_`, `-`.
pub open spec fn is_tag_char(c: char) -> bool {
    ('a' <= c && c <= 'z') || ('A' <= c && c <= 'Z') || ('0' <= c && c <= '9') || c == '.' || c
        == '_' || c == '-'
}

/// A valid tag: 1 to 128 characters, starting with a letter, digit or
/// underscore, the rest tag characters.
pub open spec fn is_valid_tag(s: Seq<char>) -> bool {
    &&& 1 <= s.len() <= 128
    &&& (('a' <= s[0] && s[0] <= 'z') || ('A' <= s[0] && s[0] <= 'Z') || ('0' <= s[0] && s[0]
        <= '9') || s[0] == '_')
    &&& forall|i: int| 0 <= i < s.len() ==> is_tag_char(#[trigger] s[i])
}

/// The serialized digest prefix, `sha256:`.
pub open spec fn digest_prefix() -> Seq<char> {
    seq!['s', 'h', 'a', '2', '5', '6', ':']
}

/// A valid serialized digest: `sha256:` followed by exactly 64 lower-case
/// hexadecimal characters.
pub open spec fn is_valid_digest(s: Seq<char>) -> bool {
    &&& s.len() == 71
    &&& s.subrange(0, 7) == digest_prefix()
    &&& forall|i: int| 7 <= i < 71 ==> is_lower_hex_char(#[trigger] s[i])
}

/// A reference names a manifest either through a mutable tag or through an
/// immutable digest.
pub enum Reference {
    Tag,
    Digest,
}

/// Checks a serialized digest. Rejects upper-case hexadecimal and any
/// algorithm other than `sha256`.
pub fn validate_digest(s: &str) -> (r: bool)
    ensures
        r == is_valid_digest(s@),
{
    let len = s.unicode_len();
    if len != 71 {
        return false;
    }
    proof {
        reveal_strlit("sha256:");
        assert("sha256:"@ =~= digest_prefix());
    }
    let prefix = s.substring_char(0, 7);
    if !crate::strutil::str_eq(prefix, "sha256:") {
        return false;
    }
    let mut i: usize = 7;
    while i < 71
        invariant
            7 <= i <= 71,
            s@.len() == 71,
            forall|j: int| 7 <= j < i ==> is_lower_hex_char(#[trigger] s@[j]),
        decreases 71 - i,
    {
        let c = s.get_char(i);
        let ok = ('0' <= c && c <= '9') || ('a' <= c && c <= 'f');
        if !ok {
            return false;
        }
        i = i + 1;
    }
    true
}

/// Checks a repository name against the component grammar.
pub fn validate_repo_name(s: &str) -> (r: bool)
    ensures
        r == is_valid_repo_name(s@),
{
    let len = s.unicode_len();
    if len == 0 || len > 255 {
        return false;
    }
    let first = s.get_char(0);
    if !(('a' <= first && first <= 'z') || ('0' <= first && first <= '9')) {
        return false;
    }
    let last = s.get_char(len - 1);
    if !(('a' <= last && last <= 'z') || ('0' <= last && last <= '9')) {
        return false;
    }
    let mut i: usize = 0;
    while i < len
        invariant
            i <= len,
            len == s@.len(),
            1 <= len <= 255,
            is_name_char(s@[0]),
            is_name_char(s@[len - 1]),
            forall|j: int| 0 <= j < i ==> is_repo_char(#[trigger] s@[j]),
            forall|j: int|
                0 < j < i && j < len - 1 && !is_name_char(#[trigger] s@[j]) ==> is_name_char(
                    s@[j - 1],
                ) && is_name_char(s@[j + 1]),
        decreases len - i,
    {
        let c = s.get_char(i);
        let name = ('a' <= c && c <= 'z') || ('0' <= c && c <= '9');
        let sep = c == '.' || c == '_' || c == '-' || c == '/';
        if !name && !sep {
            return false;
        }
        if !name && i + 1 < len {
            // a separator or slash must be flanked by name characters
            let prev = s.get_char(i - 1);
            let next = s.get_char(i + 1);
            let prev_name = ('a' <= prev && prev <= 'z') || ('0' <= prev && prev <= '9');
            let next_name = ('a' <= next && next <= 'z') || ('0' <= next && next <= '9');
            if !prev_name || !next_name {
                return false;
            }
        }
        i = i + 1;
    }
    true
}

/// Checks a tag name.
pub fn validate_tag(s: &str) -> (r: bool)
    ensures
        r == is_valid_tag(s@),
{
    let len = s.unicode_len();
    if len == 0 || len > 128 {
        return false;
    }
    let first = s.get_char(0);
    if !(('a' <= first && first <= 'z') || ('A' <= first && first <= 'Z') || ('0' <= first && first
        <= '9') || first == '_') {
        return false;
    }
    let mut i: usize = 0;
    while i < len
        invariant
            i <= len,
            len == s@.len(),
            forall|j: int| 0 <= j < i ==> is_tag_char(#[trigger] s@[j]),
        decreases len - i,
    {
        let c = s.get_char(i);
        if !(('a' <= c && c <= 'z') || ('A' <= c && c <= 'Z') || ('0' <= c && c <= '9') || c == '.'
            || c == '_' || c == '-') {
            return false;
        }
        i = i + 1;
    }
    true
}

/// Classifies a reference as a digest or a tag; `None` when it is neither.
/// A digest can never parse as a tag, since tags do not contain `:`.
pub fn classify_reference(s: &str) -> (r: Option<Reference>)
    ensures
        r == Some(Reference::Digest) <==> is_valid_digest(s@),
        r == Some(Reference::Tag) <==> (!is_valid_digest(s@) && is_valid_tag(s@)),
        r is None <==> (!is_valid_digest(s@) && !is_valid_tag(s@)),
{
    if validate_digest(s) {
        Some(Reference::Digest)
    } else if validate_tag(s) {
        Some(Reference::Tag)
    } else {
        None
    }
}

} // verus!
