//! The on-disk and object-store key schemas: where a blob, manifest or
//! upload lives under each backend, and how listings map back to names.
use vstd::prelude::*;
use crate::strutil::str_eq;
use vstd::multiset::Multiset;

verus! {

/// The filesystem backend's layout under a configured root: blobs sharded
/// by the first two digest characters, manifests per repository, uploads
/// staged by session id.
pub struct FilesystemStorage {
    pub base_path: String,
}

impl FilesystemStorage {
    pub fn new(base_path: String) -> (r: Self)
        ensures
            r.base_path@ == base_path@,
    {
        FilesystemStorage { base_path }
    }

    /// `<root>/blobs/<first-two>/<digest>`.
    pub fn blob_path(&self, digest: &str) -> (r: String)
        requires
            digest@.len() >= 2,
        ensures
            r@ == self.base_path@ + "/blobs/"@ + digest@.subrange(0, 2) + "/"@ + digest@,
    {
        let prefix = digest.substring_char(0, 2);
        let mut s = self.base_path.clone();
        s.append("/blobs/");
        s.append(prefix);
        s.append("/");
        s.append(digest);
        s
    }

    /// `<root>/manifests/<repo>/<reference>`.
    pub fn manifest_path(&self, repo: &str, reference: &str) -> (r: String)
        ensures
            r@ == self.base_path@ + "/manifests/"@ + repo@ + "/"@ + reference@,
    {
        let mut s = self.base_path.clone();
        s.append("/manifests/");
        s.append(repo);
        s.append("/");
        s.append(reference);
        s
    }

    /// `<root>/uploads/<uuid>`.
    pub fn upload_path(&self, uuid: &str) -> (r: String)
        ensures
            r@ == self.base_path@ + "/uploads/"@ + uuid@,
    {
        let mut s = self.base_path.clone();
        s.append("/uploads/");
        s.append(uuid);
        s
    }
}

/// An object-store backend addressed through an S3-compatible HTTP surface;
/// the network client lives outside the verified core, which fixes the key
/// schema.
pub struct GhostBayStorage {
    pub endpoint: String,
    pub bucket: String,
}

impl GhostBayStorage {
    pub fn new(endpoint: String, bucket: String) -> (r: Self)
        ensures
            r.endpoint@ == endpoint@,
            r.bucket@ == bucket@,
    {
        GhostBayStorage { endpoint, bucket }
    }

    /// `blobs/sha256/<digest>`.
    pub fn blob_key(&self, digest: &str) -> (r: String)
        ensures
            r@ == "blobs/sha256/"@ + digest@,
    {
        let mut s = "blobs/sha256/".to_owned();
        s.append(digest);
        s
    }

    /// `manifests/<repo>/<reference>`.
    pub fn manifest_key(&self, repo: &str, reference: &str) -> (r: String)
        ensures
            r@ == "manifests/"@ + repo@ + "/"@ + reference@,
    {
        let mut s = "manifests/".to_owned();
        s.append(repo);
        s.append("/");
        s.append(reference);
        s
    }

    /// `uploads/<uuid>`.
    pub fn upload_key(&self, uuid: &str) -> (r: String)
        ensures
            r@ == "uploads/"@ + uuid@,
    {
        let mut s = "uploads/".to_owned();
        s.append(uuid);
        s
    }
}

/// `blobs/<first-two>/<digest>`: the S3 key of a blob, sharded like the
/// filesystem layout.
pub fn s3_blob_key(digest: &str) -> (r: String)
    requires
        digest@.len() >= 2,
    ensures
        r@ == "blobs/"@ + digest@.subrange(0, 2) + "/"@ + digest@,
{
    let prefix = digest.substring_char(0, 2);
    let mut s = "blobs/".to_owned();
    s.append(prefix);
    s.append("/");
    s.append(digest);
    s
}

/// `manifests/<repo>/`: the listing prefix of a repository's references.
pub fn s3_manifest_prefix(repo: &str) -> (r: String)
    ensures
        r@ == "manifests/"@ + repo@ + "/"@,
{
    let mut s = "manifests/".to_owned();
    s.append(repo);
    s.append("/");
    s
}

/// Recovers a repository name from a `manifests/<repo>/` listing prefix;
/// exactly the prefixes of that shape are accepted.
pub fn repo_from_prefix(prefix: &str) -> (r: Option<String>)
    ensures
        r is Some <==> (prefix@.len() >= 11 && prefix@.subrange(0, 10) == "manifests/"@
            && prefix@.last() == '/'),
        match r {
            Some(name) => prefix@ == "manifests/"@ + name@ + "/"@,
            None => true,
        },
{
    proof {
        reveal_strlit("manifests/");
        reveal_strlit("/");
    }
    let len = prefix.unicode_len();
    if len < 11 {
        return None;
    }
    let head = prefix.substring_char(0, 10);
    if !str_eq(head, "manifests/") {
        return None;
    }
    let last = prefix.substring_char(len - 1, len);
    if !str_eq(last, "/") {
        proof {
            if prefix@.last() == '/' {
                assert(last@ =~= "/"@);
            }
        }
        return None;
    }
    let name = prefix.substring_char(10, len - 1);
    proof {
        assert(prefix@.last() == '/') by {
            assert(last@ == "/"@);
            assert(last@[0] == prefix@[prefix@.len() - 1]);
        }
        assert(prefix@ =~= "manifests/"@ + name@ + "/"@);
    }
    Some(name.to_owned())
}

/// Strips a listing prefix from an object key: the remainder when the key
/// extends the prefix, `None` otherwise.
pub fn strip_key_prefix(key: &str, prefix: &str) -> (r: Option<String>)
    ensures
        match r {
            Some(rest) => key@ == prefix@ + rest@,
            None => !(key@.len() >= prefix@.len() && key@.subrange(0, prefix@.len() as int)
                == prefix@),
        },
{
    let klen = key.unicode_len();
    let plen = prefix.unicode_len();
    if klen < plen {
        return None;
    }
    let head = key.substring_char(0, plen);
    if !str_eq(head, prefix) {
        return None;
    }
    let rest = key.substring_char(plen, klen);
    proof {
        assert(key@ =~= prefix@ + rest@);
    }
    Some(rest.to_owned())
}

/// A ranged object read.
pub struct GetObjectRequest {
    pub bucket: String,
    pub key: String,
    pub range: Option<(u64, u64)>,
}

/// Opens a multipart assembly for a large blob.
pub struct CreateMultipartUploadRequest {
    pub bucket: String,
    pub key: String,
    pub content_type: String,
    pub metadata: Vec<(String, String)>,
}

/// One uploaded part of a multipart assembly.
pub struct MultipartUploadPart {
    pub part_number: i32,
    pub etag: String,
    pub size: u64,
}

/// Closes a multipart assembly; its parts must be sorted by part number.
pub struct CompleteMultipartUploadRequest {
    pub bucket: String,
    pub key: String,
    pub upload_id: String,
    pub parts: Vec<MultipartUploadPart>,
}

/// Orders parts by part number before a multipart completion: the result
/// holds exactly the given parts, sorted.
pub fn sort_parts(parts: Vec<MultipartUploadPart>) -> (r: Vec<MultipartUploadPart>)
    ensures
        r@.len() == parts@.len(),
        r@.to_multiset() == parts@.to_multiset(),
        forall|i: int, j: int|
            0 <= i < j < r@.len() ==> (#[trigger] r@[i]).part_number <= (
            #[trigger] r@[j]).part_number,
{
    broadcast use vstd::seq_lib::group_to_multiset_ensures;

    let mut rest = parts;
    let mut out: Vec<MultipartUploadPart> = Vec::new();
    proof {
        assert(out@.to_multiset().add(rest@.to_multiset()) =~= rest@.to_multiset());
    }
    while rest.len() > 0
        invariant
            out@.to_multiset().add(rest@.to_multiset()) =~= parts@.to_multiset(),
            out@.len() + rest@.len() == parts@.len(),
            forall|i: int, j: int|
                0 <= i < j < out@.len() ==> (#[trigger] out@[i]).part_number <= (
                #[trigger] out@[j]).part_number,
            forall|i: int, j: int|
                0 <= i < out@.len() && 0 <= j < rest@.len() ==> (#[trigger] out@[i]).part_number
                    <= (#[trigger] rest@[j]).part_number,
        decreases rest@.len(),
    {
        let n = rest.len();
        let mut m: usize = 0;
        let mut k: usize = 1;
        while k < n
            invariant
                m < k <= n,
                n == rest@.len(),
                forall|j: int| 0 <= j < k ==> rest@[m as int].part_number <= (
                #[trigger] rest@[j]).part_number,
            decreases n - k,
        {
            if rest[k].part_number < rest[m].part_number {
                m = k;
            }
            k = k + 1;
        }
        let ghost rest0 = rest@;
        let x = rest.remove(m);
        proof {
            broadcast use vstd::seq_lib::group_to_multiset_ensures;

            assert(rest0[m as int] == x);
            assert(rest0.contains(x));
            assert(rest@ == rest0.remove(m as int));
            assert(rest0.remove(m as int).to_multiset() =~= rest0.to_multiset().remove(x));
            assert(rest0.to_multiset().contains(x));
            assert(out@.push(x).to_multiset() =~= out@.to_multiset().insert(x));
            assert(out@.push(x).to_multiset().add(rest@.to_multiset()) =~= parts@.to_multiset());
            assert forall|j: int| 0 <= j < rest@.len() implies x.part_number <= (
            #[trigger] rest@[j]).part_number by {
                if j < m {
                    assert(rest@[j] == rest0[j]);
                } else {
                    assert(rest@[j] == rest0[j + 1]);
                }
            }
        }
        out.push(x);
    }
    proof {
        broadcast use vstd::seq_lib::group_to_multiset_ensures;

        assert(rest@ =~= Seq::<MultipartUploadPart>::empty());
        assert(rest@.to_multiset().len() == 0);
        assert(rest@.to_multiset() =~= Multiset::<MultipartUploadPart>::empty());
        assert(out@.to_multiset() =~= parts@.to_multiset());
    }
    out
}

} // verus!
