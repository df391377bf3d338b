//! The JSON bodies of the HTTP surface: listings, the error envelope, and
//! the request shapes of the administrative and peripheral endpoints.
use vstd::prelude::*;

verus! {

/// The catalog body: `{"repositories": [...]}`.
pub struct RepositoryList {
    pub repositories: Vec<String>,
}

/// The tag listing body: `{"name": ..., "tags": [...]}`.
pub struct TagList {
    pub name: String,
    pub tags: Vec<String>,
}

/// One error of the error envelope: `{"errors": [{code, message, detail}]}`.
pub struct RegistryError {
    pub code: String,
    pub message: String,
    pub detail: Option<String>,
}

/// The administrative request that triggers a collection run.
pub struct GarbageCollectionRequest {
    pub dry_run: Option<bool>,
}

/// A login request against the token endpoint.
pub struct LoginRequest {
    pub username: String,
    pub password: String,
}

/// An account creation request.
pub struct RegisterRequest {
    pub username: String,
    pub password: String,
    pub email: Option<String>,
}

impl crate::ErrorCode {
    /// The wire code of an error, as it appears in the envelope.
    pub fn code_str(&self) -> (r: &'static str)
        ensures
            r@ == self.spec_code_str(),
    {
        match self {
            crate::ErrorCode::BlobUnknown => "BLOB_UNKNOWN",
            crate::ErrorCode::BlobUploadUnknown => "BLOB_UPLOAD_UNKNOWN",
            crate::ErrorCode::BlobUploadInvalid => "BLOB_UPLOAD_INVALID",
            crate::ErrorCode::DigestInvalid => "DIGEST_INVALID",
            crate::ErrorCode::ManifestUnknown => "MANIFEST_UNKNOWN",
            crate::ErrorCode::ManifestInvalid => "MANIFEST_INVALID",
            crate::ErrorCode::ManifestUnverified => "MANIFEST_UNVERIFIED",
            crate::ErrorCode::NameUnknown => "NAME_UNKNOWN",
            crate::ErrorCode::NameInvalid => "NAME_INVALID",
            crate::ErrorCode::TagInvalid => "TAG_INVALID",
            crate::ErrorCode::Unauthorized => "UNAUTHORIZED",
            crate::ErrorCode::Denied => "DENIED",
            crate::ErrorCode::Unsupported => "UNSUPPORTED",
            crate::ErrorCode::SizeInvalid => "SIZE_INVALID",
            crate::ErrorCode::RangeInvalid => "RANGE_INVALID",
            crate::ErrorCode::Unknown => "UNKNOWN",
        }
    }

    pub open spec fn spec_code_str(&self) -> Seq<char> {
        match self {
            crate::ErrorCode::BlobUnknown => "BLOB_UNKNOWN"@,
            crate::ErrorCode::BlobUploadUnknown => "BLOB_UPLOAD_UNKNOWN"@,
            crate::ErrorCode::BlobUploadInvalid => "BLOB_UPLOAD_INVALID"@,
            crate::ErrorCode::DigestInvalid => "DIGEST_INVALID"@,
            crate::ErrorCode::ManifestUnknown => "MANIFEST_UNKNOWN"@,
            crate::ErrorCode::ManifestInvalid => "MANIFEST_INVALID"@,
            crate::ErrorCode::ManifestUnverified => "MANIFEST_UNVERIFIED"@,
            crate::ErrorCode::NameUnknown => "NAME_UNKNOWN"@,
            crate::ErrorCode::NameInvalid => "NAME_INVALID"@,
            crate::ErrorCode::TagInvalid => "TAG_INVALID"@,
            crate::ErrorCode::Unauthorized => "UNAUTHORIZED"@,
            crate::ErrorCode::Denied => "DENIED"@,
            crate::ErrorCode::Unsupported => "UNSUPPORTED"@,
            crate::ErrorCode::SizeInvalid => "SIZE_INVALID"@,
            crate::ErrorCode::RangeInvalid => "RANGE_INVALID"@,
            crate::ErrorCode::Unknown => "UNKNOWN"@,
        }
    }
}

} // verus!
