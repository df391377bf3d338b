//! The garbage collector: a mark phase over every manifest of every
//! repository, and a sweep of unreferenced blobs and untagged manifests,
//! both shielded by a grace period and the blob sweep bounded per run.
use vstd::prelude::*;
use crate::store::{RegistryStore, RepoData, RepoView};
use crate::manifest_refs::digest_refs;
use crate::kvmap::{lemma_map_of_index, lemma_map_of_contains};
use vstd::string::StringSliceAdditionalSpecFns;

verus! {

/// The bytes of an ASCII character sequence.
pub open spec fn ascii_of(s: Seq<char>) -> Seq<u8> {
    Seq::new(s.len(), |i: int| s[i] as u8)
}

/// Whether any manifest of any repository references these digest bytes.
pub open spec fn blob_referenced(repos: Map<Seq<char>, RepoView>, b: Seq<u8>) -> bool {
    exists|r: Seq<char>, d: Seq<char>|
        repos.contains_key(r) && #[trigger] repos[r].manifests.contains_key(d) && digest_refs(
            repos[r].manifests[d].data,
        ).contains(b)
}

/// Whether any reference among the manifests indexed before `(i, j)` (in
/// entry order: every repository before `i`, and the first `j` manifests of
/// repository `i`) holds these bytes.
pub open spec fn refs_before(repos: Seq<(String, RepoData)>, i: int, j: int, b: Seq<u8>) -> bool {
    exists|x: int, y: int|
        0 <= x < repos.len() && 0 <= y < repos[x].1.manifests.entries@.len() && (x < i || (x == i
            && y < j)) && #[trigger] digest_refs(repos[x].1.manifests.entries@[y].1.data@).contains(
            b,
        )
}

/// Compares a byte slice with a byte vector.
fn bytes_eq(a: &[u8], b: &Vec<u8>) -> (r: bool)
    ensures
        r == (a@ == b@),
{
    if a.len() != b.len() {
        proof {
            assert(a@.len() != b@.len());
        }
        return false;
    }
    let n = a.len();
    let mut i: usize = 0;
    while i < n
        invariant
            i <= n,
            n == a@.len(),
            n == b@.len(),
            forall|j: int| 0 <= j < i ==> a@[j] == b@[j],
        decreases n - i,
    {
        if a[i] != b[i] {
            return false;
        }
        i = i + 1;
    }
    proof {
        assert(a@ =~= b@);
    }
    true
}

/// Whether a digest string occurs in the collected reference list.
fn is_referenced(refs: &Vec<Vec<u8>>, digest: &str) -> (r: bool)
    ensures
        vstd::utf8::is_ascii_chars(digest@) ==> r == exists|k: int|
            0 <= k < refs@.len() && (#[trigger] refs@[k]@) == ascii_of(digest@),
{
    if !digest.is_ascii() {
        return false;
    }
    proof {
        vstd::string::is_ascii_spec_bytes(digest);
        assert(digest.spec_bytes() =~= ascii_of(digest@));
    }
    let bytes = digest.as_bytes();
    let n = refs.len();
    let mut k: usize = 0;
    while k < n
        invariant
            k <= n,
            n == refs@.len(),
            bytes@ == ascii_of(digest@),
            forall|j: int| 0 <= j < k ==> (#[trigger] refs@[j]@) != ascii_of(digest@),
        decreases n - k,
    {
        if bytes_eq(bytes, &refs[k]) {
            return true;
        }
        k = k + 1;
    }
    false
}

/// The mark phase: every digest value referenced from any stored manifest,
/// across all repositories.
fn collect_referenced(store: &RegistryStore) -> (r: Vec<Vec<u8>>)
    requires
        store.inv(),
    ensures
        forall|b: Seq<u8>|
            (exists|k: int| 0 <= k < r@.len() && (#[trigger] r@[k]@) == b) <==> blob_referenced(
                store.repos@,
                b,
            ),
{
    let ghost repos_entries = store.repos.entries@;
    let repo_count = store.repos.len();
    let mut out: Vec<Vec<u8>> = Vec::new();
    let mut i: usize = 0;
    while i < repo_count
        invariant
            i <= repo_count,
            store.inv(),
            repos_entries == store.repos.entries@,
            repo_count == repos_entries.len(),
            forall|b: Seq<u8>|
                (exists|k: int| 0 <= k < out@.len() && (#[trigger] out@[k]@) == b) <==> refs_before(
                    repos_entries,
                    i as int,
                    0,
                    b,
                ),
        decreases repo_count - i,
    {
        let rd = store.repos.value_at(i);
        proof {
            assert(store.repos.has_value(*rd));
        }
        let m_count = rd.manifests.len();
        let mut j: usize = 0;
        while j < m_count
            invariant
                j <= m_count,
                store.inv(),
                repos_entries == store.repos.entries@,
                repo_count == repos_entries.len(),
                i < repo_count,
                rd == repos_entries[i as int].1,
                rd.wf(),
                m_count == rd.manifests.entries@.len(),
                forall|b: Seq<u8>|
                    (exists|k: int| 0 <= k < out@.len() && (#[trigger] out@[k]@) == b)
                        <==> refs_before(repos_entries, i as int, j as int, b),
            decreases m_count - j,
        {
            let me = rd.manifests.value_at(j);
            let mut found = crate::manifest_refs::extract_digest_refs(&me.data);
            let ghost out0 = out@;
            let ghost found0 = found@;
            out.append(&mut found);
            proof {
                assert(me.data@ == repos_entries[i as int].1.manifests.entries@[j as int].1.data@);
                assert forall|b: Seq<u8>|
                    #![trigger refs_before(repos_entries, i as int, j as int + 1, b)]
                    (exists|k: int| 0 <= k < out@.len() && (#[trigger] out@[k]@) == b)
                        <==> refs_before(repos_entries, i as int, j as int + 1, b) by {
                    if exists|k: int| 0 <= k < out@.len() && (#[trigger] out@[k]@) == b {
                        let k = choose|k: int| 0 <= k < out@.len() && (#[trigger] out@[k]@) == b;
                        if k < out0.len() {
                            assert(out0[k]@ == b);
                            assert(refs_before(repos_entries, i as int, j as int, b));
                            let (x, y) = choose|x: int, y: int|
                                0 <= x < repos_entries.len() && 0 <= y
                                    < repos_entries[x].1.manifests.entries@.len() && (x < i as int
                                    || (x == i as int && y < j as int)) && #[trigger] digest_refs(
                                    repos_entries[x].1.manifests.entries@[y].1.data@,
                                ).contains(b);
                            assert(digest_refs(
                                repos_entries[x].1.manifests.entries@[y].1.data@,
                            ).contains(b));
                        } else {
                            assert(found0[k - out0.len()]@ == b);
                            assert(digest_refs(me.data@)[k - out0.len()] == b);
                            assert(digest_refs(
                                repos_entries[i as int].1.manifests.entries@[j as int].1.data@,
                            ).contains(b));
                        }
                    }
                    if refs_before(repos_entries, i as int, j as int + 1, b) {
                        let (x, y) = choose|x: int, y: int|
                            0 <= x < repos_entries.len() && 0 <= y
                                < repos_entries[x].1.manifests.entries@.len() && (x < i as int || (
                            x == i as int && y < j as int + 1)) && #[trigger] digest_refs(
                                repos_entries[x].1.manifests.entries@[y].1.data@,
                            ).contains(b);
                        if x == i as int && y == j as int {
                            let q = choose|q: int|
                                0 <= q < digest_refs(me.data@).len() && digest_refs(me.data@)[q]
                                    == b;
                            assert(out@[out0.len() + q]@ == b);
                        } else {
                            assert(refs_before(repos_entries, i as int, j as int, b));
                            let k = choose|k: int|
                                0 <= k < out0.len() && (#[trigger] out0[k]@) == b;
                            assert(out@[k]@ == b);
                        }
                    }
                }
            }
            j = j + 1;
        }
        proof {
            assert forall|b: Seq<u8>|
                #![trigger refs_before(repos_entries, i as int + 1, 0, b)]
                refs_before(repos_entries, i as int, m_count as int, b) <==> refs_before(
                    repos_entries,
                    i as int + 1,
                    0,
                    b,
                ) by {}
        }
        i = i + 1;
    }
    proof {
        assert forall|b: Seq<u8>|
            #![trigger blob_referenced(store.repos@, b)]
            refs_before(repos_entries, repo_count as int, 0, b) <==> blob_referenced(
                store.repos@,
                b,
            ) by {
            store.repos.lemma_key_seq();
            if refs_before(repos_entries, repo_count as int, 0, b) {
                let (x, y) = choose|x: int, y: int|
                    0 <= x < repos_entries.len() && 0 <= y
                        < repos_entries[x].1.manifests.entries@.len() && (x < repo_count as int || (
                    x == repo_count as int && y < 0)) && #[trigger] digest_refs(
                        repos_entries[x].1.manifests.entries@[y].1.data@,
                    ).contains(b);
                lemma_map_of_index(repos_entries, x);
                let rk = repos_entries[x].0@;
                assert(store.repos@[rk] == repos_entries[x].1@);
                assert(store.repos.has_value(repos_entries[x].1));
                assert(repos_entries[x].1.wf());
                lemma_map_of_index(repos_entries[x].1.manifests.entries@, y);
                let dk = repos_entries[x].1.manifests.entries@[y].0@;
                assert(store.repos@[rk].manifests.contains_key(dk));
                assert(store.repos@[rk].manifests[dk].data
                    == repos_entries[x].1.manifests.entries@[y].1.data@);
            }
            if blob_referenced(store.repos@, b) {
                let (r0, d0) = choose|r0: Seq<char>, d0: Seq<char>|
                    store.repos@.contains_key(r0) && #[trigger] store.repos@[r0
                    ].manifests.contains_key(d0) && digest_refs(
                        store.repos@[r0].manifests[d0].data,
                    ).contains(b);
                lemma_map_of_contains(repos_entries, r0);
                let x = choose|x: int|
                    0 <= x < repos_entries.len() && (#[trigger] repos_entries[x].0@) == r0;
                lemma_map_of_index(repos_entries, x);
                assert(store.repos@[r0] == repos_entries[x].1@);
                assert(store.repos.has_value(repos_entries[x].1));
                assert(repos_entries[x].1.wf());
                lemma_map_of_contains(repos_entries[x].1.manifests.entries@, d0);
                let y = choose|y: int|
                    0 <= y < repos_entries[x].1.manifests.entries@.len() && (
                    #[trigger] repos_entries[x].1.manifests.entries@[y].0@) == d0;
                lemma_map_of_index(repos_entries[x].1.manifests.entries@, y);
                assert(digest_refs(repos_entries[x].1.manifests.entries@[y].1.data@).contains(b));
            }
        }
    }
    out
}

/// Whether the grace period of a blob or manifest has passed.
pub open spec fn past_grace(created_at: u64, grace_hours: u64, now: u64) -> bool {
    created_at + grace_hours * 3600 <= now
}

fn past_grace_exec(created_at: u64, grace_hours: u64, now: u64) -> (r: bool)
    ensures
        r == past_grace(created_at, grace_hours, now),
{
    if grace_hours > u64::MAX / 3600 {
        proof {
            assert(grace_hours * 3600 > u64::MAX) by (nonlinear_arith)
                requires
                    grace_hours > u64::MAX / 3600,
            ;
        }
        return false;
    }
    proof {
        assert(grace_hours * 3600 <= u64::MAX) by (nonlinear_arith)
            requires
                grace_hours <= u64::MAX / 3600,
        ;
    }
    let g = grace_hours * 3600;
    now >= g && created_at <= now - g
}

/// A serialized digest of any bytes holds only ASCII.
pub proof fn lemma_digest_of_ascii(data: Seq<u8>)
    ensures
        vstd::utf8::is_ascii_chars(crate::hashing::spec_digest_of(data)),
{
    crate::strutil::lemma_hex_of_len(crate::hashing::sha256_of(data));
    let s = crate::hashing::spec_digest_of(data);
    assert forall|i: int| 0 <= i < s.len() implies '\0' <= #[trigger] s[i] <= '\u{7f}' by {
        if i >= 7 {
            assert(crate::strutil::is_lower_hex_char(
                crate::strutil::hex_of(crate::hashing::sha256_of(data))[i - 7],
            ));
        }
    }
}

/// A stored blob that no manifest references.
pub open spec fn blob_orphaned(
    blobs: Map<Seq<char>, crate::store::BlobView>,
    repos: Map<Seq<char>, RepoView>,
    d: Seq<char>,
) -> bool {
    blobs.contains_key(d) && !blob_referenced(repos, ascii_of(d))
}

/// Clamps a mathematical count into a `u64` counter.
pub open spec fn saturate_u64(v: int) -> u64 {
    if v > u64::MAX {
        u64::MAX
    } else if v < 0 {
        0
    } else {
        v as u64
    }
}

/// What one left-to-right blob sweep over the ordered enumeration `keys`
/// tallies: orphans found, deletions decided (dry runs decide the same
/// ones without performing them), and the bytes of the decided deletions.
pub open spec fn sweep_tally(
    keys: Seq<Seq<char>>,
    blobs: Map<Seq<char>, crate::store::BlobView>,
    repos: Map<Seq<char>, RepoView>,
    grace_hours: u64,
    now: u64,
    cap: u64,
) -> (int, int, int)
    decreases keys.len(),
{
    if keys.len() == 0 {
        (0, 0, 0)
    } else {
        let prior = sweep_tally(keys.drop_last(), blobs, repos, grace_hours, now, cap);
        let d = keys.last();
        if !blob_orphaned(blobs, repos, d) {
            prior
        } else if !past_grace(blobs[d].created_at, grace_hours, now) {
            (prior.0 + 1, prior.1, prior.2)
        } else if prior.1 >= cap {
            (prior.0 + 1, prior.1, prior.2)
        } else {
            (prior.0 + 1, prior.1 + 1, prior.2 + blobs[d].data.len())
        }
    }
}

pub proof fn lemma_sweep_tally_bounds(
    keys: Seq<Seq<char>>,
    blobs: Map<Seq<char>, crate::store::BlobView>,
    repos: Map<Seq<char>, RepoView>,
    grace_hours: u64,
    now: u64,
    cap: u64,
)
    ensures
        ({
            let t = sweep_tally(keys, blobs, repos, grace_hours, now, cap);
            &&& 0 <= t.1 <= t.0 <= keys.len()
            &&& t.1 <= cap
            &&& 0 <= t.2
        }),
    decreases keys.len(),
{
    if keys.len() > 0 {
        lemma_sweep_tally_bounds(keys.drop_last(), blobs, repos, grace_hours, now, cap);
    }
}

/// Over distinct keys, the orphan tally is a plain count: the number of
/// keys that hold an unreferenced blob.
pub proof fn lemma_sweep_tally_orphan_count(
    keys: Seq<Seq<char>>,
    blobs: Map<Seq<char>, crate::store::BlobView>,
    repos: Map<Seq<char>, RepoView>,
    grace_hours: u64,
    now: u64,
    cap: u64,
)
    requires
        forall|x: int, y: int| 0 <= x < y < keys.len() ==> keys[x] != keys[y],
    ensures
        ({
            let orphans = Set::new(
                |d: Seq<char>| keys.contains(d) && blob_orphaned(blobs, repos, d),
            );
            &&& orphans.finite()
            &&& sweep_tally(keys, blobs, repos, grace_hours, now, cap).0 == orphans.len()
        }),
    decreases keys.len(),
{
    let orphans = Set::new(|d: Seq<char>| keys.contains(d) && blob_orphaned(blobs, repos, d));
    if keys.len() == 0 {
        assert(orphans =~= Set::<Seq<char>>::empty());
    } else {
        let dl = keys.drop_last();
        let d = keys.last();
        lemma_sweep_tally_orphan_count(dl, blobs, repos, grace_hours, now, cap);
        let prior = Set::new(|e: Seq<char>| dl.contains(e) && blob_orphaned(blobs, repos, e));
        assert forall|e: Seq<char>| #[trigger] keys.contains(e) implies (dl.contains(e) || e
            == d) by {
            let x = choose|x: int| 0 <= x < keys.len() && keys[x] == e;
            if x < keys.len() - 1 {
                assert(dl[x] == e);
            }
        }
        assert forall|e: Seq<char>| #[trigger] dl.contains(e) implies keys.contains(e) by {
            let x = choose|x: int| 0 <= x < dl.len() && dl[x] == e;
            assert(keys[x] == e);
        }
        assert(keys[keys.len() - 1] == d);
        assert(keys.contains(d));
        if blob_orphaned(blobs, repos, d) {
            assert(!dl.contains(d)) by {
                if dl.contains(d) {
                    let x = choose|x: int| 0 <= x < dl.len() && dl[x] == d;
                    assert(keys[x] == keys[keys.len() - 1]);
                }
            }
            assert(orphans =~= prior.insert(d));
        } else {
            assert(orphans =~= prior);
        }
    }
}

/// The blob sweep: walks every stored blob and removes those that no
/// manifest references and whose grace period has passed, up to the per-run
/// bound; a dry run decides and accounts the same deletions without
/// performing them. Returns exactly the sweep tally: orphans found, blobs
/// deleted (or decided, on a dry run), and bytes freed.
fn sweep_blobs(
    store: &mut RegistryStore,
    referenced: &Vec<Vec<u8>>,
    grace_hours: u64,
    now: u64,
    dry_run: bool,
    max_per_run: u64,
) -> (r: (u64, u64, u64))
    requires
        old(store).inv(),
        forall|b: Seq<u8>|
            (exists|k: int| 0 <= k < referenced@.len() && (#[trigger] referenced@[k]@) == b)
                <==> blob_referenced(old(store).repos@, b),
    ensures
        final(store).inv(),
        final(store).repos == old(store).repos,
        forall|d: Seq<char>|
            #[trigger] final(store).blobs@.contains_key(d) ==> old(store).blobs@.contains_key(d)
                && final(store).blobs@[d] == old(store).blobs@[d],
        forall|d: Seq<char>|
            #[trigger] old(store).blobs@.contains_key(d) && blob_referenced(
                old(store).repos@,
                ascii_of(d),
            ) ==> final(store).blobs@.contains_key(d),
        forall|d: Seq<char>|
            #[trigger] old(store).blobs@.contains_key(d) && !past_grace(
                old(store).blobs@[d].created_at,
                grace_hours,
                now,
            ) ==> final(store).blobs@.contains_key(d),
        dry_run ==> final(store).blobs@ == old(store).blobs@,
        !dry_run ==> forall|d: Seq<char>|
            #[trigger] old(store).blobs@.contains_key(d) && !blob_referenced(
                old(store).repos@,
                ascii_of(d),
            ) && past_grace(old(store).blobs@[d].created_at, grace_hours, now)
                ==> (!final(store).blobs@.contains_key(d) || r.1 == max_per_run),
        r.1 <= max_per_run,
        !dry_run ==> old(store).blobs@.dom().len() == final(store).blobs@.dom().len() + r.1,
        ({
            let t = sweep_tally(
                old(store).blobs.key_seq(),
                old(store).blobs@,
                old(store).repos@,
                grace_hours,
                now,
                max_per_run,
            );
            &&& r.0 == t.0
            &&& r.1 == t.1
            &&& r.2 == saturate_u64(t.2)
            &&& r.1 <= r.0
        }),
{
    let ghost okeys = old(store).blobs.key_seq();
    proof {
        crate::kvmap::lemma_map_of_finite(store.blobs.entries@);
        store.blobs.lemma_key_seq();
        assert(okeys.take(0) =~= Seq::<Seq<char>>::empty());
    }
    let keys = store.list_all_blobs();
    let n = keys.len();
    let mut orphans: u64 = 0;
    let mut deleted: u64 = 0;
    let mut bytes: u64 = 0;
    let mut i: usize = 0;
    while i < n
        invariant
            i <= n,
            n == okeys.len(),
            n == keys@.len(),
            forall|x: int| 0 <= x < n ==> (#[trigger] keys@[x]@) == okeys[x],
            forall|x: int, y: int|
                0 <= x < y < n ==> crate::strutil::lex_lt(okeys[x], okeys[y]),
            forall|d: Seq<char>|
                old(store).blobs@.contains_key(d) <==> exists|x: int|
                    0 <= x < n && (#[trigger] okeys[x]) == d,
            store.inv(),
            store.repos == old(store).repos,
            forall|b: Seq<u8>|
                (exists|k: int| 0 <= k < referenced@.len() && (#[trigger] referenced@[k]@) == b)
                    <==> blob_referenced(old(store).repos@, b),
            forall|d: Seq<char>|
                #[trigger] store.blobs@.contains_key(d) ==> old(store).blobs@.contains_key(d)
                    && store.blobs@[d] == old(store).blobs@[d],
            forall|x: int| i <= x < n ==> store.blobs@.contains_key(#[trigger] okeys[x]),
            forall|x: int|
                0 <= x < i && !(!blob_referenced(old(store).repos@, ascii_of(#[trigger] okeys[x]))
                    && past_grace(
                    old(store).blobs@[okeys[x]].created_at,
                    grace_hours,
                    now,
                )) ==> store.blobs@.contains_key(okeys[x]),
            !dry_run ==> forall|x: int|
                0 <= x < i && !blob_referenced(
                    old(store).repos@,
                    ascii_of(#[trigger] okeys[x]),
                ) && past_grace(
                    old(store).blobs@[okeys[x]].created_at,
                    grace_hours,
                    now,
                ) ==> (!store.blobs@.contains_key(okeys[x]) || deleted == max_per_run),
            dry_run ==> store.blobs@ == old(store).blobs@,
            deleted <= max_per_run,
            !dry_run ==> old(store).blobs@.dom().len() == store.blobs@.dom().len() + deleted,
            store.blobs@.dom().finite(),
            ({
                let t = sweep_tally(
                    okeys.take(i as int),
                    old(store).blobs@,
                    old(store).repos@,
                    grace_hours,
                    now,
                    max_per_run,
                );
                orphans == t.0 && deleted == t.1 && bytes == saturate_u64(t.2)
            }),
        decreases n - i,
    {
        let dg = &keys[i];
        proof {
            assert(dg@ == okeys[i as int]);
            assert(store.blobs@.contains_key(okeys[i as int]));
            assert(old(store).blobs@.contains_key(okeys[i as int]));
            lemma_digest_of_ascii(old(store).blobs@[okeys[i as int]].data);
            assert(okeys[i as int] == crate::hashing::spec_digest_of(
                old(store).blobs@[okeys[i as int]].data,
            ));
        }
        proof {
            assert(okeys.take(i as int + 1).drop_last() =~= okeys.take(i as int));
            assert(okeys.take(i as int + 1).last() == okeys[i as int]);
            lemma_sweep_tally_bounds(
                okeys.take(i as int),
                old(store).blobs@,
                old(store).repos@,
                grace_hours,
                now,
                max_per_run,
            );
        }
        let referenced_here = is_referenced(referenced, dg.as_str());
        if !referenced_here {
            orphans = orphans + 1;
            let meta = store.get_blob_metadata(dg.as_str());
            let (size, created_at) = match meta {
                Some(m) => m,
                None => {
                    proof {
                        assert(false);
                    }
                    (0, 0)
                },
            };
            if past_grace_exec(created_at, grace_hours, now) {
                if deleted < max_per_run {
                    deleted = deleted + 1;
                    if size > u64::MAX - bytes {
                        bytes = u64::MAX;
                    } else {
                        bytes = bytes + size;
                    }
                    if !dry_run {
                        let ghost predom = store.blobs@.dom();
                        proof {
                            assert(predom.contains(okeys[i as int]));
                        }
                        store.delete_blob(dg.as_str());
                        proof {
                            assert(store.blobs@.dom() =~= predom.remove(okeys[i as int]));
                        }
                    }
                }
            }
        }
        proof {
            assert forall|x: int| i + 1 <= x < n implies store.blobs@.contains_key(
                #[trigger] okeys[x],
            ) by {
                crate::strutil::lemma_lex_trichotomy(okeys[i as int], okeys[x]);
            }
        }
        i = i + 1;
    }
    proof {
        assert(okeys.take(n as int) =~= okeys);
        lemma_sweep_tally_bounds(
            okeys,
            old(store).blobs@,
            old(store).repos@,
            grace_hours,
            now,
            max_per_run,
        );
        if !dry_run {
            assert forall|d: Seq<char>|
                old(store).blobs@.contains_key(d) && !blob_referenced(
                    old(store).repos@,
                    ascii_of(d),
                ) && past_grace(old(store).blobs@[d].created_at, grace_hours, now) implies (
            !store.blobs@.contains_key(d) || deleted == max_per_run) by {
                let x = choose|x: int| 0 <= x < n && (#[trigger] okeys[x]) == d;
            }
        }
        assert forall|d: Seq<char>|
            old(store).blobs@.contains_key(d) && blob_referenced(
                old(store).repos@,
                ascii_of(d),
            ) implies store.blobs@.contains_key(d) by {
            let x = choose|x: int| 0 <= x < n && (#[trigger] okeys[x]) == d;
        }
        assert forall|d: Seq<char>|
            old(store).blobs@.contains_key(d) && !past_grace(
                old(store).blobs@[d].created_at,
                grace_hours,
                now,
            ) implies store.blobs@.contains_key(d) by {
            let x = choose|x: int| 0 <= x < n && (#[trigger] okeys[x]) == d;
        }
    }
    (orphans, deleted, bytes)
}

/// Whether some tag of the repository points at this digest.
pub open spec fn tag_referenced(rv: RepoView, d: Seq<char>) -> bool {
    exists|t: Seq<char>| #[trigger] rv.tags.contains_key(t) && rv.tags[t] == d
}

/// Whether a manifest is due for collection: stored, pointed at by no tag,
/// and past its grace period.
pub open spec fn manifest_swept(rv: RepoView, d: Seq<char>, grace_hours: u64, now: u64) -> bool {
    rv.manifests.contains_key(d) && !tag_referenced(rv, d) && past_grace(
        rv.manifests[d].created_at,
        grace_hours,
        now,
    )
}

fn tag_referenced_exec(rd: &RepoData, digest: &str) -> (r: bool)
    requires
        rd.wf(),
    ensures
        r == tag_referenced(rd@, digest@),
{
    proof {
        rd.tags.lemma_key_seq();
    }
    let n = rd.tags.len();
    let mut j: usize = 0;
    while j < n
        invariant
            j <= n,
            rd.wf(),
            n == rd.tags.key_seq().len(),
            forall|x: int| 0 <= x < j ==> (#[trigger] rd.tags.val_seq()[x]) != digest@,
            forall|x: int|
                0 <= x < n ==> rd@.tags.contains_key(#[trigger] rd.tags.key_seq()[x])
                    && rd@.tags[rd.tags.key_seq()[x]] == rd.tags.val_seq()[x],
            forall|t: Seq<char>|
                rd@.tags.contains_key(t) <==> exists|x: int|
                    0 <= x < n && (#[trigger] rd.tags.key_seq()[x]) == t,
        decreases n - j,
    {
        let v = rd.tags.value_at(j);
        if crate::strutil::str_eq(v.as_str(), digest) {
            proof {
                assert(rd@.tags.contains_key(rd.tags.key_seq()[j as int]));
                assert(rd@.tags[rd.tags.key_seq()[j as int]] == digest@);
            }
            return true;
        }
        j = j + 1;
    }
    proof {
        if tag_referenced(rd@, digest@) {
            let t = choose|t: Seq<char>|
                #[trigger] rd@.tags.contains_key(t) && rd@.tags[t] == digest@;
            let x = choose|x: int| 0 <= x < n && (#[trigger] rd.tags.key_seq()[x]) == t;
            assert(rd.tags.val_seq()[x] == digest@);
        }
    }
    false
}

/// Sweeps one repository: removes every manifest due for collection, keeps
/// the tags, and reports how many were due and how many were removed (on a
/// dry run, how many would have been).
fn sweep_repo_manifests(
    store: &mut RegistryStore,
    repo: &str,
    grace_hours: u64,
    now: u64,
    dry_run: bool,
) -> (r: (u64, u64))
    requires
        old(store).inv(),
    ensures
        final(store).inv(),
        final(store).blobs == old(store).blobs,
        !old(store).repos@.contains_key(repo@) ==> final(store).repos@ == old(store).repos@,
        old(store).repos@.contains_key(repo@) ==> ({
            let rv0 = old(store).repos@[repo@];
            &&& final(store).repos@.contains_key(repo@)
            &&& final(store).repos@[repo@].tags == rv0.tags
            &&& forall|q: Seq<char>|
                q != repo@ ==> ((#[trigger] final(store).repos@.contains_key(q) <==> old(store).repos@.contains_key(q)) && (old(store).repos@.contains_key(q)
                    ==> final(store).repos@[q] == old(store).repos@[q]))
            &&& forall|d: Seq<char>|
                #[trigger] final(store).repos@[repo@].manifests.contains_key(d) <==> (
                rv0.manifests.contains_key(d) && !(manifest_swept(rv0, d, grace_hours, now)
                    && !dry_run))
            &&& forall|d: Seq<char>|
                #[trigger] final(store).repos@[repo@].manifests.contains_key(d)
                    ==> final(store).repos@[repo@].manifests[d] == rv0.manifests[d]
            &&& (!dry_run ==> rv0.manifests.dom().len()
                == final(store).repos@[repo@].manifests.dom().len() + r.1)
            &&& r.0 == r.1
        }),
        !old(store).repos@.contains_key(repo@) ==> r == (0u64, 0u64),
        dry_run ==> final(store).repos@ == old(store).repos@,
{
    let mut rd = match store.repos.take(repo) {
        Some(rd) => rd,
        None => {
            proof {
                assert(old(store).repos@.remove(repo@) =~= old(store).repos@);
            }
            return (0, 0);
        },
    };
    let ghost rv0 = rd@;
    let ghost m_entries0 = rd.manifests.entries@;
    proof {
        rd.manifests.lemma_key_seq();
        crate::kvmap::lemma_map_of_finite(rd.manifests.entries@);
    }
    let m_count = rd.manifests.len();
    let mut cands: Vec<String> = Vec::new();
    let mut j: usize = 0;
    while j < m_count
        invariant
            j <= m_count,
            rd.wf(),
            rd@ == rv0,
            rd.manifests.entries@ == m_entries0,
            m_count == rd.manifests.key_seq().len(),
            forall|x: int|
                0 <= x < m_count ==> rv0.manifests.contains_key(
                    #[trigger] rd.manifests.key_seq()[x],
                ) && rv0.manifests[rd.manifests.key_seq()[x]] == rd.manifests.val_seq()[x],
            forall|d: Seq<char>|
                rv0.manifests.contains_key(d) <==> exists|x: int|
                    0 <= x < m_count && (#[trigger] rd.manifests.key_seq()[x]) == d,
            forall|x: int, y: int|
                0 <= x < y < m_count ==> crate::strutil::lex_lt(
                    #[trigger] rd.manifests.key_seq()[x],
                    #[trigger] rd.manifests.key_seq()[y],
                ),
            forall|a: int, b: int|
                0 <= a < b < cands@.len() ==> crate::strutil::lex_lt(
                    #[trigger] cands@[a]@,
                    #[trigger] cands@[b]@,
                ),
            forall|a: int|
                0 <= a < cands@.len() ==> manifest_swept(rv0, #[trigger] cands@[a]@, grace_hours, now)
                    && (exists|x: int|
                    0 <= x < j && (#[trigger] rd.manifests.key_seq()[x]) == cands@[a]@),
            forall|x: int|
                0 <= x < j && manifest_swept(
                    rv0,
                    #[trigger] rd.manifests.key_seq()[x],
                    grace_hours,
                    now,
                ) ==> exists|a: int| 0 <= a < cands@.len() && (#[trigger] cands@[a]@)
                    == rd.manifests.key_seq()[x],
        decreases m_count - j,
    {
        let key = rd.manifests.key_at(j);
        let me = rd.manifests.value_at(j);
        let due = !tag_referenced_exec(&rd, key.as_str()) && past_grace_exec(
            me.created_at,
            grace_hours,
            now,
        );
        if due {
            let ghost cands0 = cands@;
            let key_copy = key.clone();
            cands.push(key_copy);
            proof {
                assert(cands@[cands@.len() - 1]@ == rd.manifests.key_seq()[j as int]);
                assert forall|a: int, b: int|
                    0 <= a < b < cands@.len() implies crate::strutil::lex_lt(
                    #[trigger] cands@[a]@,
                    #[trigger] cands@[b]@,
                ) by {
                    if b == cands@.len() - 1 {
                        let x = choose|x: int|
                            0 <= x < j && (#[trigger] rd.manifests.key_seq()[x]) == cands@[a]@;
                        assert(crate::strutil::lex_lt(
                            rd.manifests.key_seq()[x],
                            rd.manifests.key_seq()[j as int],
                        ));
                    }
                }
                assert forall|x: int|
                    0 <= x < j + 1 && manifest_swept(
                        rv0,
                        #[trigger] rd.manifests.key_seq()[x],
                        grace_hours,
                        now,
                    ) implies exists|a: int|
                    0 <= a < cands@.len() && (#[trigger] cands@[a]@)
                        == rd.manifests.key_seq()[x] by {
                    if x < j {
                        let a = choose|a: int|
                            0 <= a < cands0.len() && (#[trigger] cands0[a]@)
                                == rd.manifests.key_seq()[x];
                        assert(cands@[a]@ == rd.manifests.key_seq()[x]);
                    } else {
                        assert(cands@[cands@.len() - 1]@ == rd.manifests.key_seq()[x]);
                    }
                }
            }
        } else {
            proof {
                assert(rv0.manifests[rd.manifests.key_seq()[j as int]]
                    == rd.manifests.val_seq()[j as int]);
                assert(!manifest_swept(rv0, rd.manifests.key_seq()[j as int], grace_hours, now));
            }
        }
        j = j + 1;
    }
    let found = cands.len() as u64;
    if dry_run {
        let ghost pre = *store;
        store.repos.insert(repo.to_owned(), rd);
        proof {
            assert(store.repos@ =~= old(store).repos@);
            assert forall|x: RepoData| #[trigger] store.repos.has_value(x) implies x.wf() by {
                if x != rd {
                    assert(old(store).repos.has_value(x));
                }
            }
            assert forall|q: Seq<char>, d: Seq<char>|
                store.repos@.contains_key(q) && #[trigger] store.repos@[q].manifests.contains_key(
                    d,
                ) implies d == crate::hashing::spec_digest_of(
                store.repos@[q].manifests[d].data,
            ) by {
                assert(old(store).repos@.contains_key(q));
                assert(store.repos@[q] == old(store).repos@[q]);
            }
        }
        return (found, found);
    }
    proof {
        assert forall|d: Seq<char>|
            manifest_swept(rv0, d, grace_hours, now) <==> exists|a: int|
                0 <= a < cands@.len() && (#[trigger] cands@[a]@) == d by {
            if manifest_swept(rv0, d, grace_hours, now) {
                let x = choose|x: int|
                    0 <= x < m_count && (#[trigger] rd.manifests.key_seq()[x]) == d;
            }
        }
    }
    let ghost tags0 = rd.tags;
    let c_count = cands.len();
    let ghost m0 = rd.manifests@;
    let mut p: usize = 0;
    while p < c_count
        invariant
            p <= c_count,
            c_count == cands@.len(),
            rd.manifests.wf(),
            rd.tags == tags0,
            m0 == rv0.manifests,
            m0.dom().finite(),
            forall|a: int, b: int|
                0 <= a < b < c_count ==> crate::strutil::lex_lt(
                    #[trigger] cands@[a]@,
                    #[trigger] cands@[b]@,
                ),
            forall|d: Seq<char>|
                manifest_swept(rv0, d, grace_hours, now) <==> exists|a: int|
                    0 <= a < cands@.len() && (#[trigger] cands@[a]@) == d,
            forall|d: Seq<char>|
                #[trigger] rd.manifests@.contains_key(d) <==> (m0.contains_key(d) && !(exists|a: int|
                    0 <= a < p && (#[trigger] cands@[a]@) == d)),
            forall|d: Seq<char>|
                #[trigger] rd.manifests@.contains_key(d) ==> rd.manifests@[d] == m0[d],
            m0.dom().len() == rd.manifests@.dom().len() + p,
        decreases c_count - p,
    {
        let ghost pre = rd.manifests@;
        proof {
            assert(manifest_swept(rv0, cands@[p as int]@, grace_hours, now));
            assert(m0.contains_key(cands@[p as int]@));
            assert forall|a: int| 0 <= a < p implies (#[trigger] cands@[a]@) != cands@[
                p as int
            ]@ by {
                crate::strutil::lemma_lex_trichotomy(cands@[a]@, cands@[p as int]@);
            }
            assert(pre.contains_key(cands@[p as int]@));
            assert(pre.dom().finite()) by {
                assert(pre.dom() =~= m0.dom().filter(
                    |d: Seq<char>|
                        !(exists|a: int| 0 <= a < p && (#[trigger] cands@[a]@) == d),
                ));
            }
        }
        rd.manifests.remove(cands[p].as_str());
        proof {
            assert(rd.manifests@.dom() =~= pre.dom().remove(cands@[p as int]@));
            assert forall|d: Seq<char>|
                #[trigger] rd.manifests@.contains_key(d) <==> (m0.contains_key(d) && !(exists|
                a: int|
                    0 <= a < p + 1 && (#[trigger] cands@[a]@) == d)) by {
                if rd.manifests@.contains_key(d) {
                    assert(pre.contains_key(d) && d != cands@[p as int]@);
                }
                if m0.contains_key(d) && !(exists|a: int|
                    0 <= a < p + 1 && (#[trigger] cands@[a]@) == d) {
                    assert(!(exists|a: int| 0 <= a < p && (#[trigger] cands@[a]@) == d));
                    assert(cands@[p as int]@ != d);
                }
            }
        }
        p = p + 1;
    }
    let ghost rd1 = rd;
    store.repos.insert(repo.to_owned(), rd);
    proof {
        assert forall|x: RepoData| #[trigger] store.repos.has_value(x) implies x.wf() by {
            if x != rd1 {
                assert(old(store).repos.has_value(x));
            }
        }
        assert forall|q: Seq<char>, d: Seq<char>|
            store.repos@.contains_key(q) && #[trigger] store.repos@[q].manifests.contains_key(
                d,
            ) implies d == crate::hashing::spec_digest_of(store.repos@[q].manifests[d].data) by {
            if q == repo@ {
                assert(rd1.manifests@.contains_key(d));
                assert(rd1.manifests@[d] == rv0.manifests[d]);
                assert(old(store).repos@[repo@].manifests.contains_key(d));
            } else {
                assert(old(store).repos@.contains_key(q));
                assert(store.repos@[q] == old(store).repos@[q]);
            }
        }
        assert forall|d: Seq<char>|
            #[trigger] store.repos@[repo@].manifests.contains_key(d) <==> (old(store).repos@[repo@].manifests.contains_key(d) && !(manifest_swept(
                old(store).repos@[repo@],
                d,
                grace_hours,
                now,
            ) && !dry_run)) by {}
    }
    (found, found)
}

/// What one garbage collection run found and did. A dry run decides and
/// accounts the same deletions and bytes without performing them.
pub struct GcMetrics {
    pub orphaned_blobs_found: u64,
    pub orphaned_manifests_found: u64,
    pub blobs_deleted: u64,
    pub manifests_deleted: u64,
    pub bytes_freed: u64,
}

/// The manifest sweep across every repository.
fn sweep_manifests(store: &mut RegistryStore, grace_hours: u64, now: u64, dry_run: bool) -> (r: (
    u64,
    u64,
))
    requires
        old(store).inv(),
    ensures
        final(store).inv(),
        final(store).blobs == old(store).blobs,
        forall|q: Seq<char>|
            #[trigger] final(store).repos@.contains_key(q) <==> old(store).repos@.contains_key(q),
        forall|q: Seq<char>|
            #[trigger] old(store).repos@.contains_key(q) ==> final(store).repos@[q].tags == old(store).repos@[q].tags,
        forall|q: Seq<char>, d: Seq<char>|
            old(store).repos@.contains_key(q) && #[trigger] old(store).repos@[q].manifests.contains_key(d) && !(manifest_swept(
                old(store).repos@[q],
                d,
                grace_hours,
                now,
            ) && !dry_run) ==> final(store).repos@[q].manifests.contains_key(d)
                && final(store).repos@[q].manifests[d] == old(store).repos@[q].manifests[d],
        !dry_run ==> forall|q: Seq<char>, d: Seq<char>|
            old(store).repos@.contains_key(q) && #[trigger] manifest_swept(
                old(store).repos@[q],
                d,
                grace_hours,
                now,
            ) ==> !final(store).repos@[q].manifests.contains_key(d),
        forall|q: Seq<char>, d: Seq<char>|
            final(store).repos@.contains_key(q) && #[trigger] final(store).repos@[q].manifests.contains_key(d) ==> old(store).repos@.contains_key(q) && old(store).repos@[q].manifests.contains_key(d) && final(store).repos@[q].manifests[d] == old(store).repos@[q].manifests[d],
        dry_run ==> final(store).repos@ == old(store).repos@,
        r.0 == r.1,
{
    proof {
        store.repos.lemma_key_seq();
    }
    let names = store.list_repositories();
    let ghost okeys = old(store).repos.key_seq();
    let n = names.len();
    let mut found: u64 = 0;
    let mut deleted: u64 = 0;
    let mut i: usize = 0;
    while i < n
        invariant
            i <= n,
            n == okeys.len(),
            n == names@.len(),
            forall|x: int| 0 <= x < n ==> (#[trigger] names@[x]@) == okeys[x],
            forall|x: int, y: int|
                0 <= x < y < n ==> crate::strutil::lex_lt(okeys[x], okeys[y]),
            forall|q: Seq<char>|
                old(store).repos@.contains_key(q) <==> exists|x: int|
                    0 <= x < n && (#[trigger] okeys[x]) == q,
            store.inv(),
            store.blobs == old(store).blobs,
            forall|q: Seq<char>|
                #[trigger] store.repos@.contains_key(q) <==> old(store).repos@.contains_key(q),
            forall|q: Seq<char>|
                #[trigger] old(store).repos@.contains_key(q) ==> store.repos@[q].tags == old(store).repos@[q].tags,
            forall|x: int|
                i <= x < n ==> store.repos@[#[trigger] okeys[x]] == old(store).repos@[okeys[x]],
            forall|x: int, d: Seq<char>|
                0 <= x < i && #[trigger] old(store).repos@[okeys[x]].manifests.contains_key(d)
                    && !(manifest_swept(old(store).repos@[okeys[x]], d, grace_hours, now)
                    && !dry_run) ==> store.repos@[okeys[x]].manifests.contains_key(d)
                    && store.repos@[okeys[x]].manifests[d] == old(store).repos@[okeys[x]].manifests[d],
            !dry_run ==> forall|x: int, d: Seq<char>|
                0 <= x < i && #[trigger] manifest_swept(
                    old(store).repos@[okeys[x]],
                    d,
                    grace_hours,
                    now,
                ) ==> !store.repos@[okeys[x]].manifests.contains_key(d),
            forall|x: int, d: Seq<char>|
                0 <= x < i && #[trigger] store.repos@[okeys[x]].manifests.contains_key(d) ==> old(store).repos@[okeys[x]].manifests.contains_key(d) && store.repos@[okeys[x]].manifests[d]
                    == old(store).repos@[okeys[x]].manifests[d],
            dry_run ==> store.repos@ == old(store).repos@,
            found == deleted,
        decreases n - i,
    {
        let name = &names[i];
        proof {
            assert(name@ == okeys[i as int]);
            assert(old(store).repos@.contains_key(okeys[i as int]));
            assert(store.repos@[okeys[i as int]] == old(store).repos@[okeys[i as int]]);
        }
        let ghost mid = *store;
        let (f, d) = sweep_repo_manifests(store, name.as_str(), grace_hours, now, dry_run);
        if f > u64::MAX - found {
            found = u64::MAX;
        } else {
            found = found + f;
        }
        if d > u64::MAX - deleted {
            deleted = u64::MAX;
        } else {
            deleted = deleted + d;
        }
        proof {
            let ghost repo_k = okeys[i as int];
            assert(mid.repos@.contains_key(repo_k));
            assert(mid.repos@[repo_k] == old(store).repos@[repo_k]);
            assert forall|x: int|
                0 <= x < n && x != i implies store.repos@.contains_key(#[trigger] okeys[x])
                && store.repos@[okeys[x]] == mid.repos@[okeys[x]] by {
                if x < i {
                    crate::strutil::lemma_lex_trichotomy(okeys[x], repo_k);
                } else {
                    crate::strutil::lemma_lex_trichotomy(repo_k, okeys[x]);
                }
                assert(okeys[x] != repo_k);
                assert(mid.repos@.contains_key(okeys[x]));
                assert(store.repos@.contains_key(okeys[x]));
            }
            assert(store.repos@.contains_key(repo_k));
            assert forall|d: Seq<char>|
                #[trigger] store.repos@[repo_k].manifests.contains_key(d) implies old(
                store,
            ).repos@[repo_k].manifests.contains_key(d) && store.repos@[repo_k].manifests[d]
                == old(store).repos@[repo_k].manifests[d] by {}
            assert forall|d: Seq<char>|
                #[trigger] old(store).repos@[repo_k].manifests.contains_key(d) && !(manifest_swept(
                    old(store).repos@[repo_k],
                    d,
                    grace_hours,
                    now,
                ) && !dry_run) implies store.repos@[repo_k].manifests.contains_key(d)
                && store.repos@[repo_k].manifests[d] == old(store).repos@[repo_k].manifests[d] by {}
            if !dry_run {
                assert forall|d: Seq<char>|
                    #[trigger] manifest_swept(
                        old(store).repos@[repo_k],
                        d,
                        grace_hours,
                        now,
                    ) implies !store.repos@[repo_k].manifests.contains_key(d) by {}
            }
            assert forall|x: int, d: Seq<char>|
                0 <= x < i + 1 && #[trigger] store.repos@[okeys[x]].manifests.contains_key(
                    d,
                ) implies old(store).repos@[okeys[x]].manifests.contains_key(d)
                && store.repos@[okeys[x]].manifests[d]
                == old(store).repos@[okeys[x]].manifests[d] by {
                if x < i {
                    assert(store.repos@[okeys[x]] == mid.repos@[okeys[x]]);
                    assert(mid.repos@[okeys[x]].manifests.contains_key(d));
                }
            }
            assert forall|x: int, d: Seq<char>|
                0 <= x < i + 1 && #[trigger] old(store).repos@[okeys[x]].manifests.contains_key(
                    d,
                ) && !(manifest_swept(old(store).repos@[okeys[x]], d, grace_hours, now)
                    && !dry_run) implies store.repos@[okeys[x]].manifests.contains_key(d)
                && store.repos@[okeys[x]].manifests[d]
                == old(store).repos@[okeys[x]].manifests[d] by {
                if x < i {
                    assert(store.repos@[okeys[x]] == mid.repos@[okeys[x]]);
                }
            }
            if !dry_run {
                assert forall|x: int, d: Seq<char>|
                    0 <= x < i + 1 && #[trigger] manifest_swept(
                        old(store).repos@[okeys[x]],
                        d,
                        grace_hours,
                        now,
                    ) implies !store.repos@[okeys[x]].manifests.contains_key(d) by {
                    if x < i {
                        assert(store.repos@[okeys[x]] == mid.repos@[okeys[x]]);
                    }
                }
            }
        }
        i = i + 1;
    }
    proof {
        assert forall|q: Seq<char>, d: Seq<char>|
            old(store).repos@.contains_key(q) && #[trigger] old(store).repos@[q].manifests.contains_key(d) && !(manifest_swept(
                old(store).repos@[q],
                d,
                grace_hours,
                now,
            ) && !dry_run) implies store.repos@[q].manifests.contains_key(d)
            && store.repos@[q].manifests[d] == old(store).repos@[q].manifests[d] by {
            let x = choose|x: int| 0 <= x < n && (#[trigger] okeys[x]) == q;
        }
        if !dry_run {
            assert forall|q: Seq<char>, d: Seq<char>|
                old(store).repos@.contains_key(q) && #[trigger] manifest_swept(
                    old(store).repos@[q],
                    d,
                    grace_hours,
                    now,
                ) implies !store.repos@[q].manifests.contains_key(d) by {
                let x = choose|x: int| 0 <= x < n && (#[trigger] okeys[x]) == q;
            }
        }
        assert forall|q: Seq<char>, d: Seq<char>|
            store.repos@.contains_key(q) && #[trigger] store.repos@[q].manifests.contains_key(
                d,
            ) implies old(store).repos@.contains_key(q) && old(store).repos@[q].manifests.contains_key(d) && store.repos@[q].manifests[d] == old(store).repos@[q].manifests[d] by {
            let x = choose|x: int| 0 <= x < n && (#[trigger] okeys[x]) == q;
        }
    }
    (found, deleted)
}

/// One garbage collection cycle: mark every blob referenced from any
/// manifest, sweep unreferenced blobs past their grace period up to the
/// per-run bound, then sweep untagged manifests past their grace period.
/// A dry run changes nothing and accounts what a real run would have done.
/// The returned metrics are pinned exactly: the blob numbers equal the
/// sweep tally over the ordered blob enumeration, and the manifest numbers
/// match each other as every due manifest is swept.
pub fn run_garbage_collection(
    store: &mut RegistryStore,
    cfg: &crate::config::GarbageCollectorConfig,
    now: u64,
) -> (m: GcMetrics)
    requires
        old(store).inv(),
    ensures
        final(store).inv(),
        // every blob some manifest referenced at the start survives, with its bytes
        forall|d: Seq<char>|
            #[trigger] old(store).blobs@.contains_key(d) && blob_referenced(
                old(store).repos@,
                ascii_of(d),
            ) ==> final(store).blobs@.contains_key(d) && final(store).blobs@[d] == old(store).blobs@[d],
        // every blob still inside its grace period survives
        forall|d: Seq<char>|
            #[trigger] old(store).blobs@.contains_key(d) && !past_grace(
                old(store).blobs@[d].created_at,
                cfg.grace_period_hours,
                now,
            ) ==> final(store).blobs@.contains_key(d) && final(store).blobs@[d] == old(store).blobs@[d],
        // every unreferenced blob past its grace period is gone, unless the
        // per-run bound was reached
        !cfg.dry_run ==> forall|d: Seq<char>|
            #[trigger] old(store).blobs@.contains_key(d) && !blob_referenced(
                old(store).repos@,
                ascii_of(d),
            ) && past_grace(old(store).blobs@[d].created_at, cfg.grace_period_hours, now)
                ==> (!final(store).blobs@.contains_key(d) || m.blobs_deleted
                == cfg.max_blobs_per_run),
        // no blob appears, and kept blobs keep their bytes
        forall|d: Seq<char>|
            #[trigger] final(store).blobs@.contains_key(d) ==> old(store).blobs@.contains_key(d)
                && final(store).blobs@[d] == old(store).blobs@[d],
        m.blobs_deleted <= cfg.max_blobs_per_run,
        // the deletion count is the real difference
        !cfg.dry_run ==> old(store).blobs@.dom().len() == final(store).blobs@.dom().len()
            + m.blobs_deleted,
        // repositories and tags survive untouched
        forall|q: Seq<char>|
            #[trigger] final(store).repos@.contains_key(q) <==> old(store).repos@.contains_key(q),
        forall|q: Seq<char>|
            #[trigger] old(store).repos@.contains_key(q) ==> final(store).repos@[q].tags == old(store).repos@[q].tags,
        // every tagged or fresh manifest survives with its bytes
        forall|q: Seq<char>, d: Seq<char>|
            old(store).repos@.contains_key(q) && #[trigger] old(store).repos@[q].manifests.contains_key(d) && !(manifest_swept(
                old(store).repos@[q],
                d,
                cfg.grace_period_hours,
                now,
            ) && !cfg.dry_run) ==> final(store).repos@[q].manifests.contains_key(d)
                && final(store).repos@[q].manifests[d] == old(store).repos@[q].manifests[d],
        // every untagged manifest past its grace period is gone
        !cfg.dry_run ==> forall|q: Seq<char>, d: Seq<char>|
            old(store).repos@.contains_key(q) && #[trigger] manifest_swept(
                old(store).repos@[q],
                d,
                cfg.grace_period_hours,
                now,
            ) ==> !final(store).repos@[q].manifests.contains_key(d),
        // a dry run changes nothing
        cfg.dry_run ==> final(store).blobs@ == old(store).blobs@ && final(store).repos@ == old(store).repos@,
        // the metrics are the sweep's exact accounting
        ({
            let t = sweep_tally(
                old(store).blobs.key_seq(),
                old(store).blobs@,
                old(store).repos@,
                cfg.grace_period_hours,
                now,
                cfg.max_blobs_per_run as u64,
            );
            &&& m.orphaned_blobs_found == t.0
            &&& m.blobs_deleted == t.1
            &&& m.bytes_freed == saturate_u64(t.2)
        }),
        m.blobs_deleted <= m.orphaned_blobs_found,
        m.manifests_deleted == m.orphaned_manifests_found,
        // the orphan metric is a plain count: how many stored blobs no
        // manifest referenced at the start of the run
        ({
            let orphans = Set::new(
                |d: Seq<char>| blob_orphaned(old(store).blobs@, old(store).repos@, d),
            );
            &&& orphans.finite()
            &&& m.orphaned_blobs_found == orphans.len()
        }),
{
    let ghost okeys = old(store).blobs.key_seq();
    proof {
        store.blobs.lemma_key_seq();
        assert forall|x: int, y: int| 0 <= x < y < okeys.len() implies okeys[x] != okeys[y] by {
            crate::strutil::lemma_lex_trichotomy(okeys[x], okeys[y]);
        }
        lemma_sweep_tally_orphan_count(
            okeys,
            old(store).blobs@,
            old(store).repos@,
            cfg.grace_period_hours,
            now,
            cfg.max_blobs_per_run as u64,
        );
        assert(Set::new(|d: Seq<char>| okeys.contains(d) && blob_orphaned(old(store).blobs@, old(store).repos@, d)) =~= Set::new(
            |d: Seq<char>| blob_orphaned(old(store).blobs@, old(store).repos@, d),
        )) by {
            assert forall|d: Seq<char>|
                #[trigger] blob_orphaned(old(store).blobs@, old(store).repos@, d) implies okeys.contains(
                d,
            ) by {
                let x = choose|x: int| 0 <= x < okeys.len() && (#[trigger] okeys[x]) == d;
                assert(okeys[x] == d);
            }
        }
    }
    let referenced = collect_referenced(store);
    let max_per_run: u64 = cfg.max_blobs_per_run as u64;
    let (orphaned_blobs_found, blobs_deleted, bytes_freed) = sweep_blobs(
        store,
        &referenced,
        cfg.grace_period_hours,
        now,
        cfg.dry_run,
        max_per_run,
    );
    let (orphaned_manifests_found, manifests_deleted) = sweep_manifests(
        store,
        cfg.grace_period_hours,
        now,
        cfg.dry_run,
    );
    GcMetrics {
        orphaned_blobs_found,
        orphaned_manifests_found,
        blobs_deleted,
        manifests_deleted,
        bytes_freed,
    }
}

} // verus!
