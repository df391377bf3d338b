//! The registry's laws: content-addressing, manifest round trips, tag
//! replacement leaving history, idempotence of repeated writes and of
//! upload cancellation. Each is proved from the store model alone, so it
//! holds after any sequence of verified operations.
use vstd::prelude::*;
use crate::engine::Registry;
use crate::store::{RepoView, ManifestView, repo_or_empty, spec_resolve};
use crate::hashing::spec_digest_of;
use crate::names::{is_valid_digest, is_valid_tag};

verus! {

/// Every stored blob's bytes hash to the digest it is stored under: reading
/// any digest yields bytes whose digest it is.
pub proof fn lemma_blob_content_addressed(r: Registry, d: Seq<char>)
    requires
        r.inv(),
        r.store.blobs@.contains_key(d),
    ensures
        d == spec_digest_of(r.store.blobs@[d].data),
{
}

/// Every stored manifest's bytes hash to the digest it is stored under.
pub proof fn lemma_manifest_content_addressed(r: Registry, repo: Seq<char>, d: Seq<char>)
    requires
        r.inv(),
        r.store.repos@.contains_key(repo),
        r.store.repos@[repo].manifests.contains_key(d),
    ensures
        d == spec_digest_of(r.store.repos@[repo].manifests[d].data),
{
}

/// The repository state a manifest write at a tag leaves behind, as the
/// ingestion contract states it.
pub open spec fn after_put_at_tag(
    repos: Map<Seq<char>, RepoView>,
    repo: Seq<char>,
    tag: Seq<char>,
    data: Seq<u8>,
    media_type: Seq<char>,
    now: u64,
) -> Map<Seq<char>, RepoView> {
    repos.insert(
        repo,
        RepoView {
            manifests: repo_or_empty(repos, repo).manifests.insert(
                spec_digest_of(data),
                ManifestView { data, media_type, created_at: now },
            ),
            tags: repo_or_empty(repos, repo).tags.insert(tag, spec_digest_of(data)),
        },
    )
}

/// A manifest written at a tag reads back through both doors: the tag
/// resolves to the digest of the written bytes, and the digest holds
/// exactly those bytes.
pub proof fn lemma_manifest_round_trip(
    repos: Map<Seq<char>, RepoView>,
    repo: Seq<char>,
    tag: Seq<char>,
    data: Seq<u8>,
    media_type: Seq<char>,
    now: u64,
)
    requires
        is_valid_tag(tag),
        !is_valid_digest(tag),
        crate::hashing::sha256_of(data).len() == 32,
    ensures
        ({
            let rv = repo_or_empty(after_put_at_tag(repos, repo, tag, data, media_type, now), repo);
            &&& spec_resolve(rv, tag) == Some(spec_digest_of(data))
            &&& spec_resolve(rv, spec_digest_of(data)) == Some(spec_digest_of(data))
            &&& rv.manifests.contains_key(spec_digest_of(data))
            &&& rv.manifests[spec_digest_of(data)].data == data
        }),
{
    let post = after_put_at_tag(repos, repo, tag, data, media_type, now);
    assert(post.contains_key(repo));
    assert(repo_or_empty(post, repo) == post[repo]);
    crate::hashing::lemma_digest_of_valid(data);
}

/// Writing M1 then M2 at the same tag leaves the tag on M2, while M1 stays
/// addressable by its digest. This holds short of a digest collision: bytes
/// here hash alike only when they are alike.
pub proof fn lemma_tag_replacement_keeps_history(
    repos: Map<Seq<char>, RepoView>,
    repo: Seq<char>,
    tag: Seq<char>,
    m1: Seq<u8>,
    m2: Seq<u8>,
    media_type: Seq<char>,
    t1: u64,
    t2: u64,
)
    requires
        is_valid_tag(tag),
        !is_valid_digest(tag),
        crate::hashing::sha256_of(m1).len() == 32,
        spec_digest_of(m1) == spec_digest_of(m2) ==> m1 == m2,
    ensures
        ({
            let once = after_put_at_tag(repos, repo, tag, m1, media_type, t1);
            let twice = after_put_at_tag(once, repo, tag, m2, media_type, t2);
            let rv = repo_or_empty(twice, repo);
            &&& spec_resolve(rv, tag) == Some(spec_digest_of(m2))
            &&& rv.manifests.contains_key(spec_digest_of(m2))
            &&& rv.manifests[spec_digest_of(m2)].data == m2
            &&& spec_resolve(rv, spec_digest_of(m1)) == Some(spec_digest_of(m1))
            &&& rv.manifests.contains_key(spec_digest_of(m1))
            &&& rv.manifests[spec_digest_of(m1)].data == m1
        }),
{
    let once = after_put_at_tag(repos, repo, tag, m1, media_type, t1);
    let twice = after_put_at_tag(once, repo, tag, m2, media_type, t2);
    assert(once.contains_key(repo));
    assert(twice.contains_key(repo));
    crate::hashing::lemma_digest_of_valid(m1);
    if spec_digest_of(m1) == spec_digest_of(m2) {
        assert(m1 == m2);
    }
}

/// Writing the same manifest bytes at the same tag twice is idempotent:
/// the digest is the same, and with the same clock the state is the same.
pub proof fn lemma_put_manifest_idempotent(
    repos: Map<Seq<char>, RepoView>,
    repo: Seq<char>,
    tag: Seq<char>,
    data: Seq<u8>,
    media_type: Seq<char>,
    now: u64,
)
    ensures
        after_put_at_tag(
            after_put_at_tag(repos, repo, tag, data, media_type, now),
            repo,
            tag,
            data,
            media_type,
            now,
        ) =~= after_put_at_tag(repos, repo, tag, data, media_type, now),
{
    let once = after_put_at_tag(repos, repo, tag, data, media_type, now);
    let twice = after_put_at_tag(once, repo, tag, data, media_type, now);
    assert(once.contains_key(repo));
    assert(repo_or_empty(once, repo) == once[repo]);
    assert(twice[repo].manifests =~= once[repo].manifests);
    assert(twice[repo].tags =~= once[repo].tags);
}

/// The repository state a manifest write at its own digest reference
/// leaves behind: the manifest stored, the tags untouched.
pub open spec fn after_put_at_digest(
    repos: Map<Seq<char>, RepoView>,
    repo: Seq<char>,
    data: Seq<u8>,
    media_type: Seq<char>,
    now: u64,
) -> Map<Seq<char>, RepoView> {
    repos.insert(
        repo,
        RepoView {
            manifests: repo_or_empty(repos, repo).manifests.insert(
                spec_digest_of(data),
                ManifestView { data, media_type, created_at: now },
            ),
            tags: repo_or_empty(repos, repo).tags,
        },
    )
}

/// Writing the same manifest bytes at their digest reference twice is
/// idempotent: with the same clock the state is the same, and the stored
/// bytes read back by that digest.
pub proof fn lemma_put_by_digest_idempotent(
    repos: Map<Seq<char>, RepoView>,
    repo: Seq<char>,
    data: Seq<u8>,
    media_type: Seq<char>,
    now: u64,
)
    ensures
        after_put_at_digest(
            after_put_at_digest(repos, repo, data, media_type, now),
            repo,
            data,
            media_type,
            now,
        ) =~= after_put_at_digest(repos, repo, data, media_type, now),
        after_put_at_digest(repos, repo, data, media_type, now)[repo].manifests[spec_digest_of(
            data,
        )].data == data,
{
    let once = after_put_at_digest(repos, repo, data, media_type, now);
    let twice = after_put_at_digest(once, repo, data, media_type, now);
    assert(once.contains_key(repo));
    assert(repo_or_empty(once, repo) == once[repo]);
    assert(twice[repo].manifests =~= once[repo].manifests);
    assert(twice[repo].tags =~= once[repo].tags);
}

/// Cancelling an upload twice is cancelling it once: after either, the
/// identifier holds no session.
pub proof fn lemma_cancel_upload_idempotent(
    uploads: Map<Seq<char>, crate::engine::SessionView>,
    upload_id: Seq<char>,
)
    ensures
        uploads.remove(upload_id).remove(upload_id) =~= uploads.remove(upload_id),
        !uploads.remove(upload_id).contains_key(upload_id),
{
}

/// Chunks accumulate in order: accepting one chunk and then another leaves
/// the session holding the first buffer extended by both, so a commit
/// checks the digest of the full concatenation.
pub proof fn lemma_chunks_accumulate(buf: Seq<u8>, c1: Seq<u8>, c2: Seq<u8>)
    ensures
        (buf + c1) + c2 =~= buf + (c1 + c2),
{
}

} // verus!
