//! The manifest media types the registry recognizes. Matching is
//! case-insensitive; what is stored and served back is the verbatim value.
use vstd::prelude::*;
use crate::strutil::{seq_eq_nocase, str_eq_nocase};

verus! {

pub open spec fn media_oci_manifest() -> Seq<char> {
    "application/vnd.oci.image.manifest.v1+json"@
}

pub open spec fn media_oci_index() -> Seq<char> {
    "application/vnd.oci.image.index.v1+json"@
}

pub open spec fn media_docker_manifest() -> Seq<char> {
    "application/vnd.docker.distribution.manifest.v2+json"@
}

pub open spec fn media_docker_list() -> Seq<char> {
    "application/vnd.docker.distribution.manifest.list.v2+json"@
}

pub open spec fn media_docker_v1() -> Seq<char> {
    "application/vnd.docker.distribution.manifest.v1+json"@
}

/// The media types a manifest may be pushed with. The legacy v1 type is
/// recognized for reading only, so it is not here.
pub open spec fn is_push_media_type(s: Seq<char>) -> bool {
    ||| seq_eq_nocase(s, media_oci_manifest())
    ||| seq_eq_nocase(s, media_oci_index())
    ||| seq_eq_nocase(s, media_docker_manifest())
    ||| seq_eq_nocase(s, media_docker_list())
}

/// Any recognized manifest media type, the legacy one included.
pub open spec fn is_known_media_type(s: Seq<char>) -> bool {
    is_push_media_type(s) || seq_eq_nocase(s, media_docker_v1())
}

/// Checks a `Content-Type` against the pushable manifest media types.
pub fn check_push_media_type(s: &str) -> (r: bool)
    ensures
        r == is_push_media_type(s@),
{
    str_eq_nocase(s, "application/vnd.oci.image.manifest.v1+json") || str_eq_nocase(
        s,
        "application/vnd.oci.image.index.v1+json",
    ) || str_eq_nocase(s, "application/vnd.docker.distribution.manifest.v2+json")
        || str_eq_nocase(s, "application/vnd.docker.distribution.manifest.list.v2+json")
}

/// Checks a `Content-Type` against every recognized manifest media type.
pub fn check_known_media_type(s: &str) -> (r: bool)
    ensures
        r == is_known_media_type(s@),
{
    check_push_media_type(s) || str_eq_nocase(
        s,
        "application/vnd.docker.distribution.manifest.v1+json",
    )
}

} // verus!
