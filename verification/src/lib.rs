//! A content-addressed container image registry core: digests and references,
//! a storage model with content-addressing guarantees, a resumable upload
//! state machine, manifest and blob pipelines, pagination, authorization
//! scopes, and a mark-and-sweep garbage collector.
use vstd::prelude::*;

pub mod strutil;
pub mod kvmap;
pub mod store;
pub mod engine;
pub mod auth;
pub mod config;
pub mod signing;
pub mod cluster;
pub mod manifest_refs;
pub mod gc;
pub mod scope;
pub mod paths;
pub mod metrics;
pub mod api;
pub mod laws;
pub mod names;
pub mod parse;
pub mod media;
pub mod pagination;
pub mod hashing;

verus! {

/// Maps a wire error code to its HTTP status.
#[derive(Debug, Clone, Copy, PartialEq, Eq)]
pub enum ErrorCode {
    BlobUnknown,
    BlobUploadUnknown,
    BlobUploadInvalid,
    DigestInvalid,
    ManifestUnknown,
    ManifestInvalid,
    ManifestUnverified,
    NameUnknown,
    NameInvalid,
    TagInvalid,
    Unauthorized,
    Denied,
    Unsupported,
    SizeInvalid,
    RangeInvalid,
    Unknown,
}

impl ErrorCode {
    /// The HTTP status each error code is served with: unknown entities are
    /// 404, authorization failures 401/403, malformed input 400, an oversized
    /// body 413, a misaligned range 416, everything else 500.
    pub fn http_status(&self) -> (s: u16)
        ensures
            s == self.spec_http_status(),
    {
        match self {
            ErrorCode::BlobUnknown => 404,
            ErrorCode::BlobUploadUnknown => 404,
            ErrorCode::ManifestUnknown => 404,
            ErrorCode::NameUnknown => 404,
            ErrorCode::Unauthorized => 401,
            ErrorCode::Denied => 403,
            ErrorCode::Unsupported => 400,
            ErrorCode::BlobUploadInvalid => 400,
            ErrorCode::DigestInvalid => 400,
            ErrorCode::ManifestInvalid => 400,
            ErrorCode::ManifestUnverified => 400,
            ErrorCode::NameInvalid => 400,
            ErrorCode::TagInvalid => 400,
            ErrorCode::SizeInvalid => 413,
            ErrorCode::RangeInvalid => 416,
            ErrorCode::Unknown => 500,
        }
    }

    pub open spec fn spec_http_status(&self) -> u16 {
        match self {
            ErrorCode::BlobUnknown => 404,
            ErrorCode::BlobUploadUnknown => 404,
            ErrorCode::ManifestUnknown => 404,
            ErrorCode::NameUnknown => 404,
            ErrorCode::Unauthorized => 401,
            ErrorCode::Denied => 403,
            ErrorCode::Unsupported => 400,
            ErrorCode::BlobUploadInvalid => 400,
            ErrorCode::DigestInvalid => 400,
            ErrorCode::ManifestInvalid => 400,
            ErrorCode::ManifestUnverified => 400,
            ErrorCode::NameInvalid => 400,
            ErrorCode::TagInvalid => 400,
            ErrorCode::SizeInvalid => 413,
            ErrorCode::RangeInvalid => 416,
            ErrorCode::Unknown => 500,
        }
    }
}

} // verus!
