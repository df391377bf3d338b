//! The storage surface: blobs keyed by digest, and per-repository manifests
//! and tags. Every stored blob and manifest hashes to its key, every write
//! is visible to the reads that follow, and listings come out in
//! lexicographic order.
use vstd::prelude::*;
use crate::kvmap::StringMap;
use crate::names::{is_valid_repo_name, is_valid_tag, is_valid_digest};
use crate::hashing::{spec_digest_of, digest_of};

verus! {

/// A stored blob: its bytes and the time it was committed.
pub struct BlobEntry {
    pub data: Vec<u8>,
    pub created_at: u64,
}

pub ghost struct BlobView {
    pub data: Seq<u8>,
    pub created_at: u64,
}

impl View for BlobEntry {
    type V = BlobView;

    open spec fn view(&self) -> BlobView {
        BlobView { data: self.data@, created_at: self.created_at }
    }
}

/// A stored manifest: its bytes, the media type it was uploaded with
/// (served back verbatim), and the time it was written.
pub struct ManifestEntry {
    pub data: Vec<u8>,
    pub media_type: String,
    pub created_at: u64,
}

pub ghost struct ManifestView {
    pub data: Seq<u8>,
    pub media_type: Seq<char>,
    pub created_at: u64,
}

impl View for ManifestEntry {
    type V = ManifestView;

    open spec fn view(&self) -> ManifestView {
        ManifestView {
            data: self.data@,
            media_type: self.media_type@,
            created_at: self.created_at,
        }
    }
}

/// One repository: manifests keyed by digest, and tag pointers. A tag may
/// dangle after its target is deleted by digest.
pub struct RepoData {
    pub manifests: StringMap<ManifestEntry>,
    pub tags: StringMap<String>,
}

pub ghost struct RepoView {
    pub manifests: Map<Seq<char>, ManifestView>,
    pub tags: Map<Seq<char>, Seq<char>>,
}

impl View for RepoData {
    type V = RepoView;

    open spec fn view(&self) -> RepoView {
        RepoView { manifests: self.manifests@, tags: self.tags@ }
    }
}

impl RepoData {
    pub open spec fn wf(&self) -> bool {
        self.manifests.wf() && self.tags.wf()
    }

    pub fn new() -> (r: Self)
        ensures
            r.wf(),
            r@.manifests =~= Map::<Seq<char>, ManifestView>::empty(),
            r@.tags =~= Map::<Seq<char>, Seq<char>>::empty(),
    {
        RepoData { manifests: StringMap::new(), tags: StringMap::new() }
    }
}

/// The empty repository view, what an unknown repository reads as.
pub open spec fn empty_repo() -> RepoView {
    RepoView {
        manifests: Map::<Seq<char>, ManifestView>::empty(),
        tags: Map::<Seq<char>, Seq<char>>::empty(),
    }
}

/// The view of a repository, empty when the repository does not exist.
pub open spec fn repo_or_empty(repos: Map<Seq<char>, RepoView>, r: Seq<char>) -> RepoView {
    if repos.contains_key(r) {
        repos[r]
    } else {
        empty_repo()
    }
}

/// Resolution of a reference within one repository: a digest names itself,
/// a tag names what its pointer holds.
pub open spec fn spec_resolve(rv: RepoView, refr: Seq<char>) -> Option<Seq<char>> {
    if is_valid_digest(refr) {
        Some(refr)
    } else if rv.tags.contains_key(refr) {
        Some(rv.tags[refr])
    } else {
        None
    }
}

/// The whole registry content: globally shared blobs, and repositories.
pub struct RegistryStore {
    pub blobs: StringMap<BlobEntry>,
    pub repos: StringMap<RepoData>,
}

impl RegistryStore {
    /// Structural well-formedness plus content addressing: every blob's key
    /// is the digest of its bytes, and every manifest's key is the digest
    /// of its bytes.
    pub open spec fn inv(&self) -> bool {
        &&& self.blobs.wf()
        &&& self.repos.wf()
        &&& forall|r: RepoData| #[trigger] self.repos.has_value(r) ==> r.wf()
        &&& forall|d: Seq<char>|
            #[trigger] self.blobs@.contains_key(d) ==> d == spec_digest_of(self.blobs@[d].data)
        &&& forall|r: Seq<char>, d: Seq<char>|
            self.repos@.contains_key(r) && #[trigger] self.repos@[r].manifests.contains_key(d)
                ==> d == spec_digest_of(self.repos@[r].manifests[d].data)
    }

    pub fn new() -> (r: Self)
        ensures
            r.inv(),
            r.blobs@ =~= Map::<Seq<char>, BlobView>::empty(),
            r.repos@ =~= Map::<Seq<char>, RepoView>::empty(),
    {
        RegistryStore { blobs: StringMap::new(), repos: StringMap::new() }
    }

    /// Commits a blob under its digest. Idempotent: a digest already present
    /// keeps its bytes and its creation time.
    pub fn put_blob(&mut self, digest: String, data: Vec<u8>, now: u64)
        requires
            old(self).inv(),
            digest@ == spec_digest_of(data@),
        ensures
            final(self).inv(),
            final(self).repos@ == old(self).repos@,
            final(self).repos == old(self).repos,
            final(self).blobs@ =~= if old(self).blobs@.contains_key(digest@) {
                old(self).blobs@
            } else {
                old(self).blobs@.insert(digest@, BlobView { data: data@, created_at: now })
            },
    {
        if self.blobs.contains_key(digest.as_str()) {
            return;
        }
        self.blobs.insert(digest, BlobEntry { data, created_at: now });
    }

    /// Reads a blob; `None` exactly when the digest holds nothing.
    pub fn get_blob(&self, digest: &str) -> (r: Option<&Vec<u8>>)
        requires
            self.inv(),
        ensures
            match r {
                Some(d) => self.blobs@.contains_key(digest@) && d@ == self.blobs@[digest@].data,
                None => !self.blobs@.contains_key(digest@),
            },
    {
        match self.blobs.get(digest) {
            Some(e) => Some(&e.data),
            None => None,
        }
    }

    pub fn blob_exists(&self, digest: &str) -> (r: bool)
        requires
            self.inv(),
        ensures
            r == self.blobs@.contains_key(digest@),
    {
        self.blobs.contains_key(digest)
    }

    /// Removes a blob; removing an absent digest is success.
    pub fn delete_blob(&mut self, digest: &str)
        requires
            old(self).inv(),
        ensures
            final(self).inv(),
            final(self).repos@ == old(self).repos@,
            final(self).repos == old(self).repos,
            final(self).blobs@ =~= old(self).blobs@.remove(digest@),
    {
        self.blobs.remove(digest);
    }

    /// Size and creation time of a blob.
    pub fn get_blob_metadata(&self, digest: &str) -> (r: Option<(u64, u64)>)
        requires
            self.inv(),
        ensures
            match r {
                Some(m) => self.blobs@.contains_key(digest@) && m.0
                    == self.blobs@[digest@].data.len() && m.1 == self.blobs@[digest@].created_at,
                None => !self.blobs@.contains_key(digest@),
            },
    {
        match self.blobs.get(digest) {
            Some(e) => Some((e.data.len() as u64, e.created_at)),
            None => None,
        }
    }

    /// All blob digests, in increasing order.
    pub fn list_all_blobs(&self) -> (r: Vec<String>)
        requires
            self.inv(),
        ensures
            r@.len() == self.blobs.key_seq().len(),
            forall|i: int| 0 <= i < r@.len() ==> (#[trigger] r@[i]@) == self.blobs.key_seq()[i],
    {
        self.blobs.keys()
    }

    /// Stores a manifest under the digest of its bytes, creating the
    /// repository if needed, and returns that digest. Tags are untouched.
    pub fn put_manifest_at_digest(
        &mut self,
        repo: &str,
        data: Vec<u8>,
        media_type: String,
        now: u64,
    ) -> (r: String)
        requires
            old(self).inv(),
            is_valid_repo_name(repo@),
        ensures
            final(self).inv(),
            final(self).blobs@ == old(self).blobs@,
            final(self).blobs == old(self).blobs,
            r@ == spec_digest_of(data@),
            is_valid_digest(r@),
            final(self).repos@ =~= old(self).repos@.insert(
                repo@,
                RepoView {
                    manifests: repo_or_empty(old(self).repos@, repo@).manifests.insert(
                        r@,
                        ManifestView { data: data@, media_type: media_type@, created_at: now },
                    ),
                    tags: repo_or_empty(old(self).repos@, repo@).tags,
                },
            ),
    {
        let mut rd = match self.repos.take(repo) {
            Some(rd) => rd,
            None => RepoData::new(),
        };
        let ghost s1 = *self;
        let ghost rd0 = rd;
        let dg = digest_of(&data);
        rd.manifests.insert(dg.clone(), ManifestEntry { data, media_type, created_at: now });
        let ghost rd1 = rd;
        self.repos.insert(repo.to_owned(), rd);
        proof {
            assert forall|r: RepoData| #[trigger] self.repos.has_value(r) implies r.wf() by {
                if r != rd1 {
                    assert(old(self).repos.has_value(r));
                }
            }
            assert(rd0@.manifests =~= repo_or_empty(old(self).repos@, repo@).manifests);
            assert(rd0@.tags =~= repo_or_empty(old(self).repos@, repo@).tags);
            assert forall|r: Seq<char>, d: Seq<char>|
                self.repos@.contains_key(r) && #[trigger] self.repos@[r].manifests.contains_key(
                    d,
                ) implies d == spec_digest_of(self.repos@[r].manifests[d].data) by {
                if r == repo@ {
                    if d != dg@ {
                        assert(repo_or_empty(old(self).repos@, repo@).manifests.contains_key(d));
                    }
                } else {
                    assert(old(self).repos@.contains_key(r));
                    assert(self.repos@[r] == old(self).repos@[r]);
                }
            }
        }
        dg
    }

    /// Stores a manifest as `put_manifest_at_digest` and points `tag` at it.
    pub fn put_manifest_at_tag(
        &mut self,
        repo: &str,
        tag: &str,
        data: Vec<u8>,
        media_type: String,
        now: u64,
    ) -> (r: String)
        requires
            old(self).inv(),
            is_valid_repo_name(repo@),
            is_valid_tag(tag@),
        ensures
            final(self).inv(),
            final(self).blobs@ == old(self).blobs@,
            final(self).blobs == old(self).blobs,
            r@ == spec_digest_of(data@),
            is_valid_digest(r@),
            final(self).repos@ =~= old(self).repos@.insert(
                repo@,
                RepoView {
                    manifests: repo_or_empty(old(self).repos@, repo@).manifests.insert(
                        r@,
                        ManifestView { data: data@, media_type: media_type@, created_at: now },
                    ),
                    tags: repo_or_empty(old(self).repos@, repo@).tags.insert(tag@, r@),
                },
            ),
    {
        let mut rd = match self.repos.take(repo) {
            Some(rd) => rd,
            None => RepoData::new(),
        };
        let ghost s1 = *self;
        let ghost rd0 = rd;
        let dg = digest_of(&data);
        rd.manifests.insert(dg.clone(), ManifestEntry { data, media_type, created_at: now });
        rd.tags.insert(tag.to_owned(), dg.clone());
        let ghost rd1 = rd;
        self.repos.insert(repo.to_owned(), rd);
        proof {
            assert forall|r: RepoData| #[trigger] self.repos.has_value(r) implies r.wf() by {
                if r != rd1 {
                    assert(old(self).repos.has_value(r));
                }
            }
            assert(rd0@.manifests =~= repo_or_empty(old(self).repos@, repo@).manifests);
            assert(rd0@.tags =~= repo_or_empty(old(self).repos@, repo@).tags);
            assert forall|r: Seq<char>, d: Seq<char>|
                self.repos@.contains_key(r) && #[trigger] self.repos@[r].manifests.contains_key(
                    d,
                ) implies d == spec_digest_of(self.repos@[r].manifests[d].data) by {
                if r == repo@ {
                    if d != dg@ {
                        assert(repo_or_empty(old(self).repos@, repo@).manifests.contains_key(d));
                    }
                } else {
                    assert(old(self).repos@.contains_key(r));
                    assert(self.repos@[r] == old(self).repos@[r]);
                }
            }
        }
        dg
    }

    /// The digest a tag points at, if the repository and tag exist.
    pub fn get_manifest_digest(&self, repo: &str, tag: &str) -> (r: Option<String>)
        requires
            self.inv(),
        ensures
            match r {
                Some(d) => self.repos@.contains_key(repo@)
                    && self.repos@[repo@].tags.contains_key(tag@) && d@
                    == self.repos@[repo@].tags[tag@],
                None => !(self.repos@.contains_key(repo@)
                    && self.repos@[repo@].tags.contains_key(tag@)),
            },
    {
        match self.repos.get(repo) {
            Some(rd) => match rd.tags.get(tag) {
                Some(d) => Some(d.clone()),
                None => None,
            },
            None => None,
        }
    }

    /// Reads a manifest by its digest.
    pub fn get_manifest_by_digest(&self, repo: &str, digest: &str) -> (r: Option<&ManifestEntry>)
        requires
            self.inv(),
        ensures
            match r {
                Some(m) => self.repos@.contains_key(repo@)
                    && self.repos@[repo@].manifests.contains_key(digest@) && m@
                    == self.repos@[repo@].manifests[digest@],
                None => !(self.repos@.contains_key(repo@)
                    && self.repos@[repo@].manifests.contains_key(digest@)),
            },
    {
        match self.repos.get(repo) {
            Some(rd) => rd.manifests.get(digest),
            None => None,
        }
    }

    /// Reads a manifest by tag or digest: the entry and the digest it is
    /// stored under. A tag pointing at a deleted manifest reads as absent.
    pub fn get_manifest(&self, repo: &str, reference: &str) -> (r: Option<(&ManifestEntry, String)>)
        requires
            self.inv(),
        ensures
            match r {
                Some(p) => {
                    let rv = repo_or_empty(self.repos@, repo@);
                    &&& spec_resolve(rv, reference@) == Some(p.1@)
                    &&& rv.manifests.contains_key(p.1@)
                    &&& p.0@ == rv.manifests[p.1@]
                    &&& p.0@.data == rv.manifests[p.1@].data
                },
                None => {
                    let rv = repo_or_empty(self.repos@, repo@);
                    match spec_resolve(rv, reference@) {
                        Some(d) => !rv.manifests.contains_key(d),
                        None => true,
                    }
                },
            },
            r is None <==> {
                let rv = repo_or_empty(self.repos@, repo@);
                match spec_resolve(rv, reference@) {
                    Some(d) => !rv.manifests.contains_key(d),
                    None => true,
                }
            },
    {
        if crate::names::validate_digest(reference) {
            match self.get_manifest_by_digest(repo, reference) {
                Some(m) => Some((m, reference.to_owned())),
                None => None,
            }
        } else {
            let dg = match self.get_manifest_digest(repo, reference) {
                Some(d) => d,
                None => {
                    return None;
                },
            };
            match self.get_manifest_by_digest(repo, dg.as_str()) {
                Some(m) => Some((m, dg)),
                None => None,
            }
        }
    }

    /// Removes a tag pointer; the manifest it pointed at stays addressable
    /// by digest.
    pub fn delete_tag(&mut self, repo: &str, tag: &str)
        requires
            old(self).inv(),
        ensures
            final(self).inv(),
            final(self).blobs == old(self).blobs,
            final(self).repos@ =~= if old(self).repos@.contains_key(repo@) {
                old(self).repos@.insert(
                    repo@,
                    RepoView {
                        manifests: old(self).repos@[repo@].manifests,
                        tags: old(self).repos@[repo@].tags.remove(tag@),
                    },
                )
            } else {
                old(self).repos@
            },
    {
        let mut rd = match self.repos.take(repo) {
            Some(rd) => rd,
            None => {
                proof {
                    assert(old(self).repos@.remove(repo@) =~= old(self).repos@);
                }
                return;
            },
        };
        let ghost rd0 = rd;
        rd.tags.remove(tag);
        let ghost rd1 = rd;
        self.repos.insert(repo.to_owned(), rd);
        proof {
            assert forall|r: RepoData| #[trigger] self.repos.has_value(r) implies r.wf() by {
                if r != rd1 {
                    assert(old(self).repos.has_value(r));
                }
            }
            assert(rd0@.manifests =~= old(self).repos@[repo@].manifests);
            assert forall|r: Seq<char>, d: Seq<char>|
                self.repos@.contains_key(r) && #[trigger] self.repos@[r].manifests.contains_key(
                    d,
                ) implies d == spec_digest_of(self.repos@[r].manifests[d].data) by {
                if r == repo@ {
                    assert(old(self).repos@[repo@].manifests.contains_key(d));
                } else {
                    assert(old(self).repos@.contains_key(r));
                    assert(self.repos@[r] == old(self).repos@[r]);
                }
            }
        }
    }

    /// Removes a manifest entity; tags that pointed at it dangle.
    pub fn delete_manifest_by_digest(&mut self, repo: &str, digest: &str)
        requires
            old(self).inv(),
        ensures
            final(self).inv(),
            final(self).blobs == old(self).blobs,
            final(self).repos@ =~= if old(self).repos@.contains_key(repo@) {
                old(self).repos@.insert(
                    repo@,
                    RepoView {
                        manifests: old(self).repos@[repo@].manifests.remove(digest@),
                        tags: old(self).repos@[repo@].tags,
                    },
                )
            } else {
                old(self).repos@
            },
    {
        let mut rd = match self.repos.take(repo) {
            Some(rd) => rd,
            None => {
                proof {
                    assert(old(self).repos@.remove(repo@) =~= old(self).repos@);
                }
                return;
            },
        };
        let ghost rd0 = rd;
        rd.manifests.remove(digest);
        let ghost rd1 = rd;
        self.repos.insert(repo.to_owned(), rd);
        proof {
            assert forall|r: RepoData| #[trigger] self.repos.has_value(r) implies r.wf() by {
                if r != rd1 {
                    assert(old(self).repos.has_value(r));
                }
            }
            assert(rd0@.manifests =~= old(self).repos@[repo@].manifests);
            assert forall|r: Seq<char>, d: Seq<char>|
                self.repos@.contains_key(r) && #[trigger] self.repos@[r].manifests.contains_key(
                    d,
                ) implies d == spec_digest_of(self.repos@[r].manifests[d].data) by {
                if r == repo@ {
                    assert(old(self).repos@[repo@].manifests.contains_key(d));
                } else {
                    assert(old(self).repos@.contains_key(r));
                    assert(self.repos@[r] == old(self).repos@[r]);
                }
            }
        }
    }

    /// All repository names, in increasing order.
    pub fn list_repositories(&self) -> (r: Vec<String>)
        requires
            self.inv(),
        ensures
            r@.len() == self.repos.key_seq().len(),
            forall|i: int| 0 <= i < r@.len() ==> (#[trigger] r@[i]@) == self.repos.key_seq()[i],
    {
        self.repos.keys()
    }

    /// All tags of a repository, in increasing order; empty when the
    /// repository does not exist.
    pub fn list_tags(&self, repo: &str) -> (r: Vec<String>)
        requires
            self.inv(),
        ensures
            ({
                let rv = repo_or_empty(self.repos@, repo@);
                &&& forall|i: int| 0 <= i < r@.len() ==> rv.tags.contains_key(#[trigger] r@[i]@)
                &&& forall|t: Seq<char>|
                    #[trigger] rv.tags.contains_key(t) ==> exists|i: int|
                        0 <= i < r@.len() && (#[trigger] r@[i]@) == t
                &&& forall|i: int, j: int|
                    0 <= i < j < r@.len() ==> crate::strutil::lex_lt(
                        #[trigger] r@[i]@,
                        #[trigger] r@[j]@,
                    )
            }),
    {
        match self.repos.get(repo) {
            Some(rd) => {
                let keys = rd.tags.keys();
                proof {
                    rd.tags.lemma_key_seq();
                    assert forall|t: Seq<char>|
                        #[trigger] repo_or_empty(self.repos@, repo@).tags.contains_key(
                            t,
                        ) implies exists|i: int|
                        0 <= i < keys@.len() && (#[trigger] keys@[i]@) == t by {
                        let i = choose|i: int|
                            0 <= i < rd.tags.key_seq().len() && (#[trigger] rd.tags.key_seq()[i])
                                == t;
                        assert(keys@[i]@ == t);
                    }
                }
                keys
            },
            None => Vec::new(),
        }
    }

    /// All manifest digests of a repository, in increasing order; empty when
    /// the repository does not exist.
    pub fn list_manifests(&self, repo: &str) -> (r: Vec<String>)
        requires
            self.inv(),
        ensures
            ({
                let rv = repo_or_empty(self.repos@, repo@);
                &&& forall|i: int|
                    0 <= i < r@.len() ==> rv.manifests.contains_key(#[trigger] r@[i]@)
                &&& forall|d: Seq<char>|
                    #[trigger] rv.manifests.contains_key(d) ==> exists|i: int|
                        0 <= i < r@.len() && (#[trigger] r@[i]@) == d
                &&& forall|i: int, j: int|
                    0 <= i < j < r@.len() ==> crate::strutil::lex_lt(
                        #[trigger] r@[i]@,
                        #[trigger] r@[j]@,
                    )
            }),
    {
        match self.repos.get(repo) {
            Some(rd) => {
                let keys = rd.manifests.keys();
                proof {
                    rd.manifests.lemma_key_seq();
                    assert forall|d: Seq<char>|
                        #[trigger] repo_or_empty(self.repos@, repo@).manifests.contains_key(
                            d,
                        ) implies exists|i: int|
                        0 <= i < keys@.len() && (#[trigger] keys@[i]@) == d by {
                        let i = choose|i: int|
                            0 <= i < rd.manifests.key_seq().len() && (
                            #[trigger] rd.manifests.key_seq()[i]) == d;
                        assert(keys@[i]@ == d);
                    }
                }
                keys
            },
            None => Vec::new(),
        }
    }
}

} // verus!
