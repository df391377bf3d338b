//! The distribution engine: resumable uploads with digest-verified commit,
//! the blob and manifest pipelines, paginated listings, and the collection
//! trigger.
use vstd::prelude::*;
use crate::ErrorCode;
use crate::kvmap::StringMap;
use crate::names::{is_valid_repo_name, is_valid_digest, validate_repo_name, validate_digest};
use crate::hashing::{spec_digest_of, digest_of};
use crate::store::{RegistryStore, BlobView};

verus! {

/// The per-session state: open or receiving sessions accept bytes; a
/// committed session remembers the digest its bytes became.
pub enum UploadState {
    Open,
    Receiving,
    Committed(String),
    Cancelled,
    Expired,
}

pub ghost enum UploadStateView {
    Open,
    Receiving,
    Committed(Seq<char>),
    Cancelled,
    Expired,
}

impl View for UploadState {
    type V = UploadStateView;

    open spec fn view(&self) -> UploadStateView {
        match self {
            UploadState::Open => UploadStateView::Open,
            UploadState::Receiving => UploadStateView::Receiving,
            UploadState::Committed(d) => UploadStateView::Committed(d@),
            UploadState::Cancelled => UploadStateView::Cancelled,
            UploadState::Expired => UploadStateView::Expired,
        }
    }
}

/// One resumable upload: the repository it was opened for (authorization
/// scoping only; the blob itself is global), the bytes accepted so far in
/// order, and the time of the last request that touched it.
pub struct UploadSession {
    pub repo: String,
    pub buf: Vec<u8>,
    pub state: UploadState,
    pub last_activity: u64,
}

pub ghost struct SessionView {
    pub repo: Seq<char>,
    pub buf: Seq<u8>,
    pub state: UploadStateView,
    pub last_activity: u64,
}

impl View for UploadSession {
    type V = SessionView;

    open spec fn view(&self) -> SessionView {
        SessionView {
            repo: self.repo@,
            buf: self.buf@,
            state: self.state@,
            last_activity: self.last_activity,
        }
    }
}

/// Whether a session still accepts bytes.
pub open spec fn session_accepting(s: SessionView) -> bool {
    s.state is Open || s.state is Receiving
}

/// Relies on uuid::Uuid::new_v4 and its display form for a fresh upload
/// identifier; nothing is assumed of the value.
#[verifier::external_body]
fn new_upload_id() -> (r: String) {
    uuid::Uuid::new_v4().to_string()
}

/// Relies on chrono::Utc::now and DateTime::timestamp for the wall-clock
/// time in seconds; nothing is assumed of the value.
#[verifier::external_body]
pub fn current_epoch_seconds() -> (r: u64) {
    chrono::Utc::now().timestamp().unsigned_abs()
}

/// The registry engine: stored content, live upload sessions, and the
/// upload size cap in bytes.
pub struct Registry {
    pub store: RegistryStore,
    pub uploads: StringMap<UploadSession>,
    pub max_upload_bytes: u64,
}

impl Registry {
    pub open spec fn inv(&self) -> bool {
        &&& self.store.inv()
        &&& self.uploads.wf()
        &&& forall|s: UploadSession|
            #[trigger] self.uploads.has_value(s) ==> s.buf@.len() <= self.max_upload_bytes
    }

    pub fn new(max_upload_bytes: u64) -> (r: Self)
        ensures
            r.inv(),
            r.store.blobs@ =~= Map::<Seq<char>, BlobView>::empty(),
            r.store.repos@ =~= Map::<Seq<char>, crate::store::RepoView>::empty(),
            r.uploads@ =~= Map::<Seq<char>, SessionView>::empty(),
            r.max_upload_bytes == max_upload_bytes,
    {
        Registry {
            store: RegistryStore::new(),
            uploads: StringMap::new(),
            max_upload_bytes,
        }
    }

    /// Opens a new upload session. The returned identifier maps to a fresh
    /// open session; the stored content is untouched.
    pub fn start_upload(&mut self, repo: &str, now: u64) -> (r: Result<String, ErrorCode>)
        requires
            old(self).inv(),
        ensures
            final(self).inv(),
            final(self).store == old(self).store,
            final(self).max_upload_bytes == old(self).max_upload_bytes,
            r is Err <==> !is_valid_repo_name(repo@),
            match r {
                Ok(id) => final(self).uploads@ =~= old(self).uploads@.insert(
                    id@,
                    SessionView {
                        repo: repo@,
                        buf: Seq::empty(),
                        state: UploadStateView::Open,
                        last_activity: now,
                    },
                ),
                Err(e) => e == ErrorCode::NameInvalid && final(self).uploads@ == old(
                    self,
                ).uploads@,
            },
    {
        if !validate_repo_name(repo) {
            return Err(ErrorCode::NameInvalid);
        }
        let id = new_upload_id();
        let session = UploadSession {
            repo: repo.to_owned(),
            buf: Vec::new(),
            state: UploadState::Open,
            last_activity: now,
        };
        self.uploads.insert(id.clone(), session);
        Ok(id)
    }

    /// Accepts one chunk. With a `Content-Range`, its start must equal the
    /// current offset, or the chunk is refused with `RANGE_INVALID` and the
    /// offset is unchanged. The accepted bytes extend the session buffer in
    /// order, and the new offset is returned.
    pub fn upload_chunk(
        &mut self,
        upload_id: &str,
        range_start: Option<u64>,
        body: Vec<u8>,
        now: u64,
    ) -> (r: Result<u64, ErrorCode>)
        requires
            old(self).inv(),
        ensures
            final(self).inv(),
            final(self).store == old(self).store,
            final(self).max_upload_bytes == old(self).max_upload_bytes,
            ({
                let known = old(self).uploads@.contains_key(upload_id@);
                let s0 = old(self).uploads@[upload_id@];
                let range_ok = match range_start {
                    Some(st) => st == s0.buf.len(),
                    None => true,
                };
                let fits = s0.buf.len() + body@.len() <= old(self).max_upload_bytes;
                match r {
                    Ok(offset) => {
                        &&& known
                        &&& session_accepting(s0)
                        &&& range_ok
                        &&& fits
                        &&& offset == s0.buf.len() + body@.len()
                        &&& final(self).uploads@ =~= old(self).uploads@.insert(
                            upload_id@,
                            SessionView {
                                repo: s0.repo,
                                buf: s0.buf + body@,
                                state: UploadStateView::Receiving,
                                last_activity: now,
                            },
                        )
                    },
                    Err(e) => {
                        &&& final(self).uploads@ == old(self).uploads@
                        &&& (e == ErrorCode::BlobUploadUnknown <==> !known)
                        &&& (known ==> (e == ErrorCode::BlobUploadInvalid <==> !session_accepting(
                            s0,
                        )))
                        &&& (known && session_accepting(s0) ==> (e == ErrorCode::RangeInvalid
                            <==> !range_ok))
                        &&& (known && session_accepting(s0) && range_ok ==> e
                            == ErrorCode::SizeInvalid && !fits)
                    },
                }
            }),
    {
        let session = match self.uploads.take(upload_id) {
            Some(s) => s,
            None => {
                proof {
                    assert(old(self).uploads@.remove(upload_id@) =~= old(self).uploads@);
                }
                return Err(ErrorCode::BlobUploadUnknown);
            },
        };
        let accepting = match &session.state {
            UploadState::Open => true,
            UploadState::Receiving => true,
            _ => false,
        };
        if !accepting {
            self.uploads.insert(upload_id.to_owned(), session);
            proof {
                assert(self.uploads@ =~= old(self).uploads@);
            }
            return Err(ErrorCode::BlobUploadInvalid);
        }
        let offset = session.buf.len() as u64;
        let range_ok = match range_start {
            Some(st) => st == offset,
            None => true,
        };
        if !range_ok {
            self.uploads.insert(upload_id.to_owned(), session);
            proof {
                assert(self.uploads@ =~= old(self).uploads@);
            }
            return Err(ErrorCode::RangeInvalid);
        }
        let body_len = body.len() as u64;
        if body_len > self.max_upload_bytes - offset {
            self.uploads.insert(upload_id.to_owned(), session);
            proof {
                assert(self.uploads@ =~= old(self).uploads@);
            }
            return Err(ErrorCode::SizeInvalid);
        }
        let mut session = session;
        let mut body = body;
        session.buf.append(&mut body);
        session.state = UploadState::Receiving;
        session.last_activity = now;
        self.uploads.insert(upload_id.to_owned(), session);
        Ok(offset + body_len)
    }

    /// Commits a session: the optional trailing body is accepted as the last
    /// chunk first, then the digest of everything received must equal the
    /// claimed one. On a match the bytes become a blob under that digest; on
    /// a mismatch no blob is created and the session stays receiving.
    pub fn complete_upload(
        &mut self,
        upload_id: &str,
        expected_digest: &str,
        body: Vec<u8>,
        now: u64,
    ) -> (r: Result<String, ErrorCode>)
        requires
            old(self).inv(),
        ensures
            final(self).inv(),
            final(self).store.repos == old(self).store.repos,
            final(self).max_upload_bytes == old(self).max_upload_bytes,
            ({
                let known = old(self).uploads@.contains_key(upload_id@);
                let s0 = old(self).uploads@[upload_id@];
                let all = s0.buf + body@;
                let fits = all.len() <= old(self).max_upload_bytes;
                let digest_ok = spec_digest_of(all) == expected_digest@;
                match r {
                    Ok(d) => {
                        &&& known
                        &&& session_accepting(s0)
                        &&& is_valid_digest(expected_digest@)
                        &&& fits
                        &&& digest_ok
                        &&& d@ == expected_digest@
                        &&& final(self).uploads@ =~= old(self).uploads@.insert(
                            upload_id@,
                            SessionView {
                                repo: s0.repo,
                                buf: all,
                                state: UploadStateView::Committed(d@),
                                last_activity: now,
                            },
                        )
                        &&& final(self).store.blobs@ =~= if old(self).store.blobs@.contains_key(
                            d@,
                        ) {
                            old(self).store.blobs@
                        } else {
                            old(self).store.blobs@.insert(
                                d@,
                                BlobView { data: all, created_at: now },
                            )
                        }
                        &&& final(self).store.blobs@.contains_key(d@)
                        &&& spec_digest_of(final(self).store.blobs@[d@].data) == d@
                        &&& (!old(self).store.blobs@.contains_key(d@)
                            ==> final(self).store.blobs@[d@].data == all)
                    },
                    Err(e) => {
                        &&& final(self).store.blobs@ == old(self).store.blobs@
                        &&& (e == ErrorCode::BlobUploadUnknown <==> !known)
                        &&& (known ==> (e == ErrorCode::BlobUploadInvalid <==> !session_accepting(
                            s0,
                        )))
                        &&& (known && session_accepting(s0) && !is_valid_digest(expected_digest@)
                            ==> e == ErrorCode::DigestInvalid)
                        &&& (known && session_accepting(s0) && is_valid_digest(expected_digest@)
                            ==> (e == ErrorCode::SizeInvalid <==> !fits))
                        &&& (known && session_accepting(s0) && is_valid_digest(expected_digest@)
                            && fits ==> e == ErrorCode::DigestInvalid && !digest_ok
                            && final(self).uploads@ =~= old(self).uploads@.insert(
                            upload_id@,
                            SessionView {
                                repo: s0.repo,
                                buf: all,
                                state: UploadStateView::Receiving,
                                last_activity: now,
                            },
                        ))
                        &&& (!(known && session_accepting(s0) && is_valid_digest(expected_digest@)
                            && fits) ==> final(self).uploads@ == old(self).uploads@)
                    },
                }
            }),
            r is Ok <==> (old(self).uploads@.contains_key(upload_id@) && session_accepting(
                old(self).uploads@[upload_id@],
            ) && is_valid_digest(expected_digest@) && (old(self).uploads@[upload_id@].buf
                + body@).len() <= old(self).max_upload_bytes && spec_digest_of(
                old(self).uploads@[upload_id@].buf + body@,
            ) == expected_digest@),
    {
        let session = match self.uploads.take(upload_id) {
            Some(s) => s,
            None => {
                proof {
                    assert(old(self).uploads@.remove(upload_id@) =~= old(self).uploads@);
                }
                return Err(ErrorCode::BlobUploadUnknown);
            },
        };
        let accepting = match &session.state {
            UploadState::Open => true,
            UploadState::Receiving => true,
            _ => false,
        };
        if !accepting {
            self.uploads.insert(upload_id.to_owned(), session);
            proof {
                assert(self.uploads@ =~= old(self).uploads@);
            }
            return Err(ErrorCode::BlobUploadInvalid);
        }
        if !validate_digest(expected_digest) {
            self.uploads.insert(upload_id.to_owned(), session);
            proof {
                assert(self.uploads@ =~= old(self).uploads@);
            }
            return Err(ErrorCode::DigestInvalid);
        }
        let offset = session.buf.len() as u64;
        let body_len = body.len() as u64;
        if body_len > self.max_upload_bytes - offset {
            self.uploads.insert(upload_id.to_owned(), session);
            proof {
                assert(self.uploads@ =~= old(self).uploads@);
            }
            return Err(ErrorCode::SizeInvalid);
        }
        let mut session = session;
        let mut body = body;
        session.buf.append(&mut body);
        session.last_activity = now;
        let computed = digest_of(&session.buf);
        if !crate::strutil::str_eq(computed.as_str(), expected_digest) {
            session.state = UploadState::Receiving;
            self.uploads.insert(upload_id.to_owned(), session);
            return Err(ErrorCode::DigestInvalid);
        }
        let data = session.buf.clone();
        session.state = UploadState::Committed(computed.clone());
        self.uploads.insert(upload_id.to_owned(), session);
        self.store.put_blob(computed.clone(), data, now);
        Ok(computed)
    }

    /// Cancels a session. Cancelling an unknown or already cancelled session
    /// is the same success: afterwards the identifier holds no session.
    pub fn cancel_upload(&mut self, upload_id: &str)
        requires
            old(self).inv(),
        ensures
            final(self).inv(),
            final(self).store == old(self).store,
            final(self).max_upload_bytes == old(self).max_upload_bytes,
            final(self).uploads@ =~= old(self).uploads@.remove(upload_id@),
    {
        self.uploads.remove(upload_id);
    }

    /// The current offset of a live session.
    pub fn get_upload_status(&self, upload_id: &str) -> (r: Result<u64, ErrorCode>)
        requires
            self.inv(),
        ensures
            match r {
                Ok(offset) => self.uploads@.contains_key(upload_id@) && session_accepting(
                    self.uploads@[upload_id@],
                ) && offset == self.uploads@[upload_id@].buf.len(),
                Err(e) => e == ErrorCode::BlobUploadUnknown && !(self.uploads@.contains_key(
                    upload_id@,
                ) && session_accepting(self.uploads@[upload_id@])),
            },
    {
        match self.uploads.get(upload_id) {
            Some(s) => {
                let accepting = match &s.state {
                    UploadState::Open => true,
                    UploadState::Receiving => true,
                    _ => false,
                };
                if accepting {
                    Ok(s.buf.len() as u64)
                } else {
                    Err(ErrorCode::BlobUploadUnknown)
                }
            },
            None => Err(ErrorCode::BlobUploadUnknown),
        }
    }

    /// The single-request upload: create, upload and commit in one step,
    /// with the same checks as the chunked path.
    pub fn upload_monolithic(
        &mut self,
        repo: &str,
        expected_digest: &str,
        body: Vec<u8>,
        now: u64,
    ) -> (r: Result<String, ErrorCode>)
        requires
            old(self).inv(),
        ensures
            final(self).inv(),
            final(self).store.repos == old(self).store.repos,
            final(self).uploads == old(self).uploads,
            final(self).max_upload_bytes == old(self).max_upload_bytes,
            r is Ok <==> (is_valid_repo_name(repo@) && is_valid_digest(expected_digest@)
                && body@.len() <= old(self).max_upload_bytes && spec_digest_of(body@)
                == expected_digest@),
            match r {
                Ok(d) => {
                    &&& d@ == expected_digest@
                    &&& final(self).store.blobs@ =~= if old(self).store.blobs@.contains_key(d@) {
                        old(self).store.blobs@
                    } else {
                        old(self).store.blobs@.insert(
                            d@,
                            BlobView { data: body@, created_at: now },
                        )
                    }
                    &&& final(self).store.blobs@.contains_key(d@)
                    &&& spec_digest_of(final(self).store.blobs@[d@].data) == d@
                    &&& (!old(self).store.blobs@.contains_key(d@)
                        ==> final(self).store.blobs@[d@].data == body@)
                },
                Err(e) => {
                    &&& final(self).store.blobs@ == old(self).store.blobs@
                    &&& (!is_valid_repo_name(repo@) ==> e == ErrorCode::NameInvalid)
                    &&& (is_valid_repo_name(repo@) && !is_valid_digest(expected_digest@) ==> e
                        == ErrorCode::DigestInvalid)
                    &&& (is_valid_repo_name(repo@) && is_valid_digest(expected_digest@) && body@.len()
                        > old(self).max_upload_bytes ==> e == ErrorCode::SizeInvalid)
                    &&& (is_valid_repo_name(repo@) && is_valid_digest(expected_digest@) && body@.len()
                        <= old(self).max_upload_bytes ==> e == ErrorCode::DigestInvalid
                        && spec_digest_of(body@) != expected_digest@)
                },
            },
    {
        if !validate_repo_name(repo) {
            return Err(ErrorCode::NameInvalid);
        }
        if !validate_digest(expected_digest) {
            return Err(ErrorCode::DigestInvalid);
        }
        if body.len() as u64 > self.max_upload_bytes {
            return Err(ErrorCode::SizeInvalid);
        }
        let computed = digest_of(&body);
        if !crate::strutil::str_eq(computed.as_str(), expected_digest) {
            return Err(ErrorCode::DigestInvalid);
        }
        self.store.put_blob(computed.clone(), body, now);
        Ok(computed)
    }

    /// Serves a blob: the bytes under a valid digest, 404 when absent.
    pub fn get_blob(&self, digest: &str) -> (r: Result<&Vec<u8>, ErrorCode>)
        requires
            self.inv(),
        ensures
            match r {
                Ok(d) => is_valid_digest(digest@) && self.store.blobs@.contains_key(digest@) && d@
                    == self.store.blobs@[digest@].data,
                Err(e) => {
                    &&& (e == ErrorCode::DigestInvalid <==> !is_valid_digest(digest@))
                    &&& (is_valid_digest(digest@) ==> e == ErrorCode::BlobUnknown
                        && !self.store.blobs@.contains_key(digest@))
                },
            },
    {
        if !validate_digest(digest) {
            return Err(ErrorCode::DigestInvalid);
        }
        match self.store.get_blob(digest) {
            Some(d) => Ok(d),
            None => Err(ErrorCode::BlobUnknown),
        }
    }

    /// The headers of a blob response: its length, without the body.
    pub fn head_blob(&self, digest: &str) -> (r: Result<u64, ErrorCode>)
        requires
            self.inv(),
        ensures
            match r {
                Ok(n) => is_valid_digest(digest@) && self.store.blobs@.contains_key(digest@) && n
                    == self.store.blobs@[digest@].data.len(),
                Err(e) => {
                    &&& (e == ErrorCode::DigestInvalid <==> !is_valid_digest(digest@))
                    &&& (is_valid_digest(digest@) ==> e == ErrorCode::BlobUnknown
                        && !self.store.blobs@.contains_key(digest@))
                },
            },
    {
        if !validate_digest(digest) {
            return Err(ErrorCode::DigestInvalid);
        }
        match self.store.get_blob(digest) {
            Some(d) => Ok(d.len() as u64),
            None => Err(ErrorCode::BlobUnknown),
        }
    }

    /// Deletes a blob immediately; an absent digest is success.
    pub fn delete_blob(&mut self, digest: &str) -> (r: Result<(), ErrorCode>)
        requires
            old(self).inv(),
        ensures
            final(self).inv(),
            final(self).store.repos == old(self).store.repos,
            final(self).uploads == old(self).uploads,
            final(self).max_upload_bytes == old(self).max_upload_bytes,
            r is Err <==> !is_valid_digest(digest@),
            match r {
                Ok(()) => final(self).store.blobs@ =~= old(self).store.blobs@.remove(digest@),
                Err(e) => e == ErrorCode::DigestInvalid && final(self).store.blobs@ == old(
                    self,
                ).store.blobs@,
            },
    {
        if !validate_digest(digest) {
            return Err(ErrorCode::DigestInvalid);
        }
        self.store.delete_blob(digest);
        Ok(())
    }
}

/// A manifest read: body, stored media type, and canonical digest.
#[derive(Debug)]
pub struct ManifestResponse {
    pub data: Vec<u8>,
    pub media_type: String,
    pub digest: String,
}

/// A manifest HEAD: the same headers without the body.
#[derive(Debug)]
pub struct ManifestHead {
    pub media_type: String,
    pub content_length: u64,
    pub digest: String,
}

impl Registry {
    /// Ingests a manifest. The body must be non-empty, within the size cap,
    /// and carry a pushable media type; the reference must be a tag or the
    /// digest of the body. On success the manifest is stored under its
    /// digest, and a tag reference also writes the tag pointer.
    pub fn put_manifest(
        &mut self,
        repo: &str,
        reference: &str,
        media_type: &str,
        data: Vec<u8>,
        now: u64,
    ) -> (r: Result<String, ErrorCode>)
        requires
            old(self).inv(),
        ensures
            final(self).inv(),
            final(self).store.blobs == old(self).store.blobs,
            final(self).uploads == old(self).uploads,
            final(self).max_upload_bytes == old(self).max_upload_bytes,
            ({
                let c_repo = is_valid_repo_name(repo@);
                let c_nonempty = data@.len() > 0;
                let c_size = data@.len() <= old(self).max_upload_bytes;
                let c_media = crate::media::is_push_media_type(media_type@);
                let is_dig = is_valid_digest(reference@);
                let is_tag = crate::names::is_valid_tag(reference@);
                let d = spec_digest_of(data@);
                let rv0 = crate::store::repo_or_empty(old(self).store.repos@, repo@);
                match r {
                    Ok(dg) => {
                        &&& c_repo && c_nonempty && c_size && c_media
                        &&& (is_dig || is_tag)
                        &&& (is_dig ==> reference@ == d)
                        &&& dg@ == d
                        &&& is_valid_digest(dg@)
                        &&& final(self).store.repos@ =~= old(self).store.repos@.insert(
                            repo@,
                            crate::store::RepoView {
                                manifests: rv0.manifests.insert(
                                    d,
                                    crate::store::ManifestView {
                                        data: data@,
                                        media_type: media_type@,
                                        created_at: now,
                                    },
                                ),
                                tags: if is_dig {
                                    rv0.tags
                                } else {
                                    rv0.tags.insert(reference@, d)
                                },
                            },
                        )
                    },
                    Err(e) => {
                        &&& final(self).store.repos@ == old(self).store.repos@
                        &&& (!c_repo ==> e == ErrorCode::NameInvalid)
                        &&& (c_repo && !c_nonempty ==> e == ErrorCode::ManifestInvalid)
                        &&& (c_repo && c_nonempty && !c_size ==> e == ErrorCode::SizeInvalid)
                        &&& (c_repo && c_nonempty && c_size && !c_media ==> e
                            == ErrorCode::Unsupported)
                        &&& (c_repo && c_nonempty && c_size && c_media && !is_dig && !is_tag ==> e
                            == ErrorCode::TagInvalid)
                        &&& (c_repo && c_nonempty && c_size && c_media && is_dig && reference@ != d
                            ==> e == ErrorCode::ManifestUnverified)
                    },
                }
            }),
            r is Ok <==> (is_valid_repo_name(repo@) && data@.len() > 0 && data@.len() <= old(
                self,
            ).max_upload_bytes && crate::media::is_push_media_type(media_type@) && ((
            is_valid_digest(reference@) && reference@ == spec_digest_of(data@)) || (!is_valid_digest(
                reference@,
            ) && crate::names::is_valid_tag(reference@)))),
    {
        if !validate_repo_name(repo) {
            return Err(ErrorCode::NameInvalid);
        }
        if data.len() == 0 {
            return Err(ErrorCode::ManifestInvalid);
        }
        if data.len() as u64 > self.max_upload_bytes {
            return Err(ErrorCode::SizeInvalid);
        }
        if !crate::media::check_push_media_type(media_type) {
            return Err(ErrorCode::Unsupported);
        }
        match crate::names::classify_reference(reference) {
            Some(crate::names::Reference::Digest) => {
                let computed = digest_of(&data);
                if !crate::strutil::str_eq(computed.as_str(), reference) {
                    return Err(ErrorCode::ManifestUnverified);
                }
                let dg = self.store.put_manifest_at_digest(repo, data, media_type.to_owned(), now);
                Ok(dg)
            },
            Some(crate::names::Reference::Tag) => {
                let dg = self.store.put_manifest_at_tag(
                    repo,
                    reference,
                    data,
                    media_type.to_owned(),
                    now,
                );
                Ok(dg)
            },
            None => Err(ErrorCode::TagInvalid),
        }
    }

    /// Serves a manifest by tag or digest, with the headers it was stored
    /// under; unknown exactly when the reference resolves to nothing stored.
    pub fn get_manifest(&self, repo: &str, reference: &str) -> (r: Result<
        ManifestResponse,
        ErrorCode,
    >)
        requires
            self.inv(),
        ensures
            ({
                let rv = crate::store::repo_or_empty(self.store.repos@, repo@);
                match r {
                    Ok(m) => {
                        &&& crate::store::spec_resolve(rv, reference@) == Some(m.digest@)
                        &&& rv.manifests.contains_key(m.digest@)
                        &&& m.data@ == rv.manifests[m.digest@].data
                        &&& m.media_type@ == rv.manifests[m.digest@].media_type
                    },
                    Err(e) => e == ErrorCode::ManifestUnknown && (match crate::store::spec_resolve(
                        rv,
                        reference@,
                    ) {
                        Some(d) => !rv.manifests.contains_key(d),
                        None => true,
                    }),
                }
            }),
    {
        match self.store.get_manifest(repo, reference) {
            Some((entry, dg)) => Ok(
                ManifestResponse {
                    data: entry.data.clone(),
                    media_type: entry.media_type.clone(),
                    digest: dg,
                },
            ),
            None => Err(ErrorCode::ManifestUnknown),
        }
    }

    /// The headers of a manifest response, body omitted.
    pub fn head_manifest(&self, repo: &str, reference: &str) -> (r: Result<
        ManifestHead,
        ErrorCode,
    >)
        requires
            self.inv(),
        ensures
            ({
                let rv = crate::store::repo_or_empty(self.store.repos@, repo@);
                match r {
                    Ok(m) => {
                        &&& crate::store::spec_resolve(rv, reference@) == Some(m.digest@)
                        &&& rv.manifests.contains_key(m.digest@)
                        &&& m.content_length == rv.manifests[m.digest@].data.len()
                        &&& m.media_type@ == rv.manifests[m.digest@].media_type
                    },
                    Err(e) => e == ErrorCode::ManifestUnknown && (match crate::store::spec_resolve(
                        rv,
                        reference@,
                    ) {
                        Some(d) => !rv.manifests.contains_key(d),
                        None => true,
                    }),
                }
            }),
    {
        match self.store.get_manifest(repo, reference) {
            Some((entry, dg)) => Ok(
                ManifestHead {
                    media_type: entry.media_type.clone(),
                    content_length: entry.data.len() as u64,
                    digest: dg,
                },
            ),
            None => Err(ErrorCode::ManifestUnknown),
        }
    }

    /// Deletes by reference: a tag reference removes only the pointer, a
    /// digest reference removes the manifest entity, and either is success
    /// when nothing was there.
    pub fn delete_manifest(&mut self, repo: &str, reference: &str) -> (r: Result<(), ErrorCode>)
        requires
            old(self).inv(),
        ensures
            final(self).inv(),
            final(self).store.blobs == old(self).store.blobs,
            final(self).uploads == old(self).uploads,
            final(self).max_upload_bytes == old(self).max_upload_bytes,
            r is Err <==> (!is_valid_digest(reference@) && !crate::names::is_valid_tag(
                reference@,
            )),
            ({
                let known = old(self).store.repos@.contains_key(repo@);
                let rv0 = old(self).store.repos@[repo@];
                match r {
                    Ok(()) => final(self).store.repos@ =~= if !known {
                        old(self).store.repos@
                    } else if is_valid_digest(reference@) {
                        old(self).store.repos@.insert(
                            repo@,
                            crate::store::RepoView {
                                manifests: rv0.manifests.remove(reference@),
                                tags: rv0.tags,
                            },
                        )
                    } else {
                        old(self).store.repos@.insert(
                            repo@,
                            crate::store::RepoView {
                                manifests: rv0.manifests,
                                tags: rv0.tags.remove(reference@),
                            },
                        )
                    },
                    Err(e) => e == ErrorCode::TagInvalid && final(self).store.repos@ == old(
                        self,
                    ).store.repos@,
                }
            }),
    {
        match crate::names::classify_reference(reference) {
            Some(crate::names::Reference::Digest) => {
                self.store.delete_manifest_by_digest(repo, reference);
                Ok(())
            },
            Some(crate::names::Reference::Tag) => {
                self.store.delete_tag(repo, reference);
                Ok(())
            },
            None => Err(ErrorCode::TagInvalid),
        }
    }
}


/// The `Link` header value for the next catalog page.
pub open spec fn spec_catalog_link(n: nat, last: Seq<char>) -> Seq<char> {
    "</v2/_catalog?n="@ + crate::strutil::dec_of(n) + "&last="@ + last + ">; rel=\"next\""@
}

/// The `Link` header value for the next page of a tag listing.
pub open spec fn spec_tags_link(repo: Seq<char>, n: nat, last: Seq<char>) -> Seq<char> {
    "</v2/"@ + repo + "/tags/list?n="@ + crate::strutil::dec_of(n) + "&last="@ + last
        + ">; rel=\"next\""@
}

/// `all` lists exactly the keys of `m`, in increasing order.
pub open spec fn sorted_enumeration_of(all: Seq<Seq<char>>, m: Map<Seq<char>, Seq<char>>) -> bool {
    &&& forall|i: int, j: int|
        0 <= i < j < all.len() ==> crate::strutil::lex_lt(#[trigger] all[i], #[trigger] all[j])
    &&& forall|t: Seq<char>| m.contains_key(t) <==> (#[trigger] all.contains(t))
}

/// `page` is the cut of `all` that starts past `last` and holds at most `n`
/// elements.
pub open spec fn page_of(
    all: Seq<Seq<char>>,
    lastv: Option<Seq<char>>,
    n: int,
    page: Seq<String>,
) -> bool {
    let start = crate::pagination::page_start(all, lastv);
    &&& page.len() == if all.len() - start < n {
        all.len() - start
    } else {
        n
    }
    &&& forall|k: int| 0 <= k < page.len() ==> (#[trigger] page[k]@) == all[start + k]
}

fn build_catalog_link(n: usize, last: &str) -> (r: String)
    ensures
        r@ == spec_catalog_link(n as nat, last@),
{
    let mut s = "</v2/_catalog?n=".to_owned();
    let num = crate::strutil::u64_to_dec(n as u64);
    s.append(num.as_str());
    s.append("&last=");
    s.append(last);
    s.append(">; rel=\"next\"");
    s
}

fn build_tags_link(repo: &str, n: usize, last: &str) -> (r: String)
    ensures
        r@ == spec_tags_link(repo@, n as nat, last@),
{
    let mut s = "</v2/".to_owned();
    s.append(repo);
    s.append("/tags/list?n=");
    let num = crate::strutil::u64_to_dec(n as u64);
    s.append(num.as_str());
    s.append("&last=");
    s.append(last);
    s.append(">; rel=\"next\"");
    s
}

impl Registry {
    /// The repository catalog page after `last`, at most `n` entries, with
    /// the `Link` header value for the next page when the listing was
    /// truncated.
    pub fn catalog(&self, n: usize, last: Option<&str>) -> (r: (Vec<String>, Option<String>))
        requires
            self.inv(),
        ensures
            ({
                let keys = self.store.repos.key_seq();
                let lastv = match last {
                    Some(l) => Some(l@),
                    None => None,
                };
                let start = crate::pagination::page_start(keys, lastv);
                &&& r.0@.len() == if keys.len() - start < n {
                    keys.len() - start
                } else {
                    n as int
                }
                &&& forall|k: int| 0 <= k < r.0@.len() ==> (#[trigger] r.0@[k]@) == keys[start + k]
                &&& (r.1 is Some <==> keys.len() - start > n && n > 0)
                &&& (match r.1 {
                    Some(link) => link@ == spec_catalog_link(n as nat, keys[start + n - 1]),
                    None => true,
                })
            }),
    {
        let list = self.store.list_repositories();
        proof {
            self.store.repos.lemma_key_seq();
            assert(crate::pagination::views_of(list@) =~= self.store.repos.key_seq());
        }
        let (page, truncated) = crate::pagination::paginate(&list, n, last);
        if truncated && n > 0 {
            let link = build_catalog_link(n, page[n - 1].as_str());
            (page, Some(link))
        } else {
            (page, None)
        }
    }

    /// The tag listing page of a repository, with the next-page `Link`.
    /// The enumeration the page is cut from holds exactly the repository's
    /// tags, in increasing order.
    pub fn tags_list(&self, repo: &str, n: usize, last: Option<&str>) -> (r: (
        Vec<String>,
        Option<String>,
    ))
        requires
            self.inv(),
        ensures
            ({
                let rv = crate::store::repo_or_empty(self.store.repos@, repo@);
                let lastv = match last {
                    Some(l) => Some(l@),
                    None => None,
                };
                exists|all: Seq<Seq<char>>|
                    #[trigger] sorted_enumeration_of(all, rv.tags) && page_of(
                        all,
                        lastv,
                        n as int,
                        r.0@,
                    ) && (match r.1 {
                        Some(link) => all.len() - crate::pagination::page_start(all, lastv) > n
                            && n > 0 && link@ == spec_tags_link(
                            repo@,
                            n as nat,
                            all[crate::pagination::page_start(all, lastv) + n - 1],
                        ),
                        None => !(all.len() - crate::pagination::page_start(all, lastv) > n && n
                            > 0),
                    })
            }),
    {
        let list = self.store.list_tags(repo);
        let ghost all = crate::pagination::views_of(list@);
        let (page, truncated) = crate::pagination::paginate(&list, n, last);
        proof {
            assert forall|t: Seq<char>|
                crate::store::repo_or_empty(self.store.repos@, repo@).tags.contains_key(t)
                    <==> (#[trigger] all.contains(t)) by {
                if crate::store::repo_or_empty(self.store.repos@, repo@).tags.contains_key(t) {
                    let i = choose|i: int| 0 <= i < list@.len() && (#[trigger] list@[i]@) == t;
                    assert(all[i] == t);
                }
                if all.contains(t) {
                    let i = choose|i: int| 0 <= i < all.len() && all[i] == t;
                    assert(list@[i]@ == t);
                }
            }
            assert(sorted_enumeration_of(
                all,
                crate::store::repo_or_empty(self.store.repos@, repo@).tags,
            ));
        }
        if truncated && n > 0 {
            let link = build_tags_link(repo, n, page[n - 1].as_str());
            (page, Some(link))
        } else {
            (page, None)
        }
    }
}

impl Registry {
    /// Triggers one garbage collection over the stored content; sessions
    /// are untouched.
    pub fn run_gc(&mut self, cfg: &crate::config::GarbageCollectorConfig, now: u64) -> (m:
        crate::gc::GcMetrics)
        requires
            old(self).inv(),
        ensures
            final(self).inv(),
            final(self).uploads == old(self).uploads,
            final(self).max_upload_bytes == old(self).max_upload_bytes,
            m.blobs_deleted <= cfg.max_blobs_per_run,
            cfg.dry_run ==> final(self).store.blobs@ == old(self).store.blobs@ && final(self).store.repos@ == old(self).store.repos@,
            forall|d: Seq<char>|
                #[trigger] old(self).store.blobs@.contains_key(d) && crate::gc::blob_referenced(
                    old(self).store.repos@,
                    crate::gc::ascii_of(d),
                ) ==> final(self).store.blobs@.contains_key(d) && final(self).store.blobs@[d]
                    == old(self).store.blobs@[d],
            forall|d: Seq<char>|
                #[trigger] old(self).store.blobs@.contains_key(d) && !crate::gc::past_grace(
                    old(self).store.blobs@[d].created_at,
                    cfg.grace_period_hours,
                    now,
                ) ==> final(self).store.blobs@.contains_key(d),
            !cfg.dry_run ==> forall|d: Seq<char>|
                #[trigger] old(self).store.blobs@.contains_key(d) && !crate::gc::blob_referenced(
                    old(self).store.repos@,
                    crate::gc::ascii_of(d),
                ) && crate::gc::past_grace(
                    old(self).store.blobs@[d].created_at,
                    cfg.grace_period_hours,
                    now,
                ) ==> (!final(self).store.blobs@.contains_key(d) || m.blobs_deleted
                    == cfg.max_blobs_per_run),
            ({
                let t = crate::gc::sweep_tally(
                    old(self).store.blobs.key_seq(),
                    old(self).store.blobs@,
                    old(self).store.repos@,
                    cfg.grace_period_hours,
                    now,
                    cfg.max_blobs_per_run as u64,
                );
                &&& m.orphaned_blobs_found == t.0
                &&& m.blobs_deleted == t.1
                &&& m.bytes_freed == crate::gc::saturate_u64(t.2)
            }),
            m.blobs_deleted <= m.orphaned_blobs_found,
            m.manifests_deleted == m.orphaned_manifests_found,
            ({
                let orphans = Set::new(
                    |d: Seq<char>|
                        crate::gc::blob_orphaned(
                            old(self).store.blobs@,
                            old(self).store.repos@,
                            d,
                        ),
                );
                orphans.finite() && m.orphaned_blobs_found == orphans.len()
            }),
    {
        crate::gc::run_garbage_collection(&mut self.store, cfg, now)
    }
}

/// What a session becomes when the reaper visits it at `now`: expired when
/// it was still accepting bytes but idle past the ttl, unchanged otherwise.
pub open spec fn spec_reaped(s: SessionView, now: u64, ttl_seconds: u64) -> SessionView {
    if session_accepting(s) && s.last_activity + ttl_seconds <= now {
        SessionView {
            repo: s.repo,
            buf: s.buf,
            state: UploadStateView::Expired,
            last_activity: s.last_activity,
        }
    } else {
        s
    }
}

impl Registry {
    /// The reaper: marks every session idle past the ttl as expired, so it
    /// accepts no more bytes and its staging data is left for collection.
    pub fn expire_idle_sessions(&mut self, now: u64, ttl_seconds: u64)
        requires
            old(self).inv(),
        ensures
            final(self).inv(),
            final(self).store == old(self).store,
            final(self).max_upload_bytes == old(self).max_upload_bytes,
            forall|id: Seq<char>|
                #[trigger] final(self).uploads@.contains_key(id) <==> old(
                    self,
                ).uploads@.contains_key(id),
            forall|id: Seq<char>|
                #[trigger] old(self).uploads@.contains_key(id) ==> final(self).uploads@[id]
                    == spec_reaped(old(self).uploads@[id], now, ttl_seconds),
    {
        proof {
            self.uploads.lemma_key_seq();
        }
        let ids = self.uploads.keys();
        let ghost okeys = old(self).uploads.key_seq();
        let n = ids.len();
        let mut i: usize = 0;
        while i < n
            invariant
                i <= n,
                n == okeys.len(),
                n == ids@.len(),
                forall|x: int| 0 <= x < n ==> (#[trigger] ids@[x]@) == okeys[x],
                forall|x: int, y: int|
                    0 <= x < y < n ==> crate::strutil::lex_lt(okeys[x], okeys[y]),
                forall|id: Seq<char>|
                    old(self).uploads@.contains_key(id) <==> exists|x: int|
                        0 <= x < n && (#[trigger] okeys[x]) == id,
                self.inv(),
                self.store == old(self).store,
                self.max_upload_bytes == old(self).max_upload_bytes,
                forall|id: Seq<char>|
                    #[trigger] self.uploads@.contains_key(id) <==> old(
                        self,
                    ).uploads@.contains_key(id),
                forall|x: int|
                    i <= x < n ==> self.uploads@[#[trigger] okeys[x]] == old(
                        self,
                    ).uploads@[okeys[x]],
                forall|x: int|
                    0 <= x < i ==> self.uploads@[#[trigger] okeys[x]] == spec_reaped(
                        old(self).uploads@[okeys[x]],
                        now,
                        ttl_seconds,
                    ),
            decreases n - i,
        {
            let id = &ids[i];
            proof {
                assert(id@ == okeys[i as int]);
                assert(old(self).uploads@.contains_key(okeys[i as int]));
                assert(self.uploads@.contains_key(okeys[i as int]));
            }
            let session = match self.uploads.take(id.as_str()) {
                Some(s) => s,
                None => {
                    proof {
                        assert(false);
                    }
                    continue ;
                },
            };
            let accepting = match &session.state {
                UploadState::Open => true,
                UploadState::Receiving => true,
                _ => false,
            };
            let idle = ttl_seconds <= now && session.last_activity <= now - ttl_seconds;
            let mut session = session;
            if accepting && idle {
                session.state = UploadState::Expired;
            }
            self.uploads.insert(id.clone(), session);
            proof {
                assert forall|x: int| i + 1 <= x < n implies self.uploads@[#[trigger] okeys[x]]
                    == old(self).uploads@[okeys[x]] by {
                    crate::strutil::lemma_lex_trichotomy(okeys[i as int], okeys[x]);
                }
                assert forall|x: int| 0 <= x < i implies self.uploads@[#[trigger] okeys[x]]
                    == spec_reaped(old(self).uploads@[okeys[x]], now, ttl_seconds) by {
                    crate::strutil::lemma_lex_trichotomy(okeys[x], okeys[i as int]);
                }
                assert(self.uploads@[okeys[i as int]] == spec_reaped(
                    old(self).uploads@[okeys[i as int]],
                    now,
                    ttl_seconds,
                ));
            }
            i = i + 1;
        }
        proof {
            assert forall|id: Seq<char>|
                #[trigger] old(self).uploads@.contains_key(id) implies self.uploads@[id]
                == spec_reaped(old(self).uploads@[id], now, ttl_seconds) by {
                let x = choose|x: int| 0 <= x < n && (#[trigger] okeys[x]) == id;
            }
        }
    }
}

} // verus!
