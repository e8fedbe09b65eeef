//! Re-verification of an installed file set.
//!
//! `verify_files` walks a manifest against what is on disk — handed in as
//! path/contents pairs, read without any network access — and reports which
//! entries are missing or carry the wrong digest. A freshly and fully
//! installed file set always passes: that is proved here, not assumed.

use vstd::prelude::*;

use crate::digest::{check_bytes, digest_of, DigestCheck};
use crate::install::FileModel;
use crate::install::StagedFile;
use crate::manifest::{EntryModel, Manifest};

verus! {

/// Byte-for-byte equality of two slices.
#[verifier::loop_isolation(false)]
pub fn bytes_eq(a: &[u8], b: &[u8]) -> (r: bool)
    ensures
        r <==> a@ == b@,
{
    if a.len() != b.len() {
        return false;
    }
    let mut i: usize = 0;
    while i < a.len()
        invariant
            i <= a.len(),
            a@.len() == b@.len(),
            forall|j: int| 0 <= j < i ==> a@[j] == b@[j],
        decreases a.len() - i,
    {
        if a[i] != b[i] {
            return false;
        }
        i += 1;
    }
    assert(a@ =~= b@);
    true
}

/// Index of the first file at `path`, if any.
pub open spec fn find_file(files: Seq<FileModel>, path: Seq<u8>) -> Option<int>
    decreases files.len(),
{
    if files.len() == 0 {
        None
    } else if files[0].path == path {
        Some(0)
    } else {
        match find_file(files.drop_first(), path) {
            Some(j) => Some(j + 1),
            None => None,
        }
    }
}

/// The entry is present on disk and its contents carry the declared digest.
pub open spec fn entry_verified(entry: EntryModel, files: Seq<FileModel>) -> bool {
    match find_file(files, entry.path) {
        Some(j) => digest_of(files[j].data) == entry.digest,
        None => false,
    }
}

/// If `files[i]` is at `path` and no earlier file is, the lookup finds `i`.
pub proof fn lemma_find_file_hits(files: Seq<FileModel>, path: Seq<u8>, i: int)
    requires
        0 <= i < files.len(),
        files[i].path == path,
        forall|j: int| 0 <= j < i ==> (#[trigger] files[j]).path != path,
    ensures
        find_file(files, path) == Some(i),
    decreases i,
{
    if i > 0 {
        assert(files[0].path != path);
        lemma_find_file_hits(files.drop_first(), path, i - 1);
    }
}

/// If no file is at `path`, the lookup finds nothing.
pub proof fn lemma_find_file_misses(files: Seq<FileModel>, path: Seq<u8>)
    requires
        forall|j: int| 0 <= j < files.len() ==> (#[trigger] files[j]).path != path,
    ensures
        find_file(files, path) is None,
    decreases files.len(),
{
    if files.len() > 0 {
        lemma_find_file_misses(files.drop_first(), path);
    }
}

/// Outcome of re-verifying an install: an aggregate pass flag and the
/// entries that were missing or mismatched, in manifest order.
#[derive(Debug)]
pub struct VerifyReport {
    /// Every entry was present with the declared digest.
    pub passed: bool,
    /// Indices of the entries that were missing or mismatched.
    pub bad: Vec<usize>,
}

/// Re-verify installed files against a manifest with the digest checker
/// alone: passes exactly when every entry is present under its path with
/// contents bearing the declared digest; `bad` lists exactly the entries
/// that are not, in order.
#[verifier::loop_isolation(false)]
pub fn verify_files(manifest: &Manifest, files: &Vec<StagedFile>) -> (r: VerifyReport)
    ensures
        ({
            let fs = files@.map_values(|f: StagedFile| f@);
            &&& (r.passed <==> forall|i: int| 0 <= i < manifest@.len()
                ==> entry_verified(#[trigger] manifest@[i], fs))
            &&& forall|k: int| 0 <= k < r.bad@.len() ==> #[trigger] r.bad@[k] < manifest@.len()
                && !entry_verified(manifest@[r.bad@[k] as int], fs)
            &&& forall|i: int| 0 <= i < manifest@.len()
                && !entry_verified(#[trigger] manifest@[i], fs) ==> r.bad@.contains(i as usize)
            &&& forall|k1: int, k2: int| 0 <= k1 < k2 < r.bad@.len()
                ==> #[trigger] r.bad@[k1] < #[trigger] r.bad@[k2]
        }),
{
    let ghost fs = files@.map_values(|f: StagedFile| f@);
    let n = manifest.entries.len();
    let mut bad: Vec<usize> = Vec::new();
    let mut i: usize = 0;
    while i < n
        invariant
            i <= n,
            forall|k: int| 0 <= k < bad@.len() ==> #[trigger] bad@[k] < i
                && !entry_verified(manifest@[bad@[k] as int], fs),
            forall|j: int| 0 <= j < i && !entry_verified(#[trigger] manifest@[j], fs)
                ==> bad@.contains(j as usize),
            forall|k1: int, k2: int| 0 <= k1 < k2 < bad@.len()
                ==> #[trigger] bad@[k1] < #[trigger] bad@[k2],
        decreases n - i,
    {
        let ghost old_bad = bad@;
        assert(manifest.entries[i as int]@ == manifest@[i as int]);
        let entry = &manifest.entries[i];
        let mut j: usize = 0;
        let mut found: Option<usize> = None;
        while j < files.len()
            invariant
                j <= files.len(),
                found is None,
                forall|j2: int| 0 <= j2 < j ==> (#[trigger] fs[j2]).path != entry@.path,
            decreases files.len() - j,
        {
            assert(fs[j as int] == files@[j as int]@);
            if bytes_eq(files[j].path.as_slice(), entry.path.as_slice()) {
                found = Some(j);
                break;
            }
            j += 1;
        }
        let ok: bool = match found {
            Some(jj) => {
                proof {
                    lemma_find_file_hits(fs, entry@.path, jj as int);
                }
                match check_bytes(files[jj].data.as_slice(), entry.digest) {
                    DigestCheck::Match => true,
                    DigestCheck::Mismatch { .. } => false,
                }
            },
            None => {
                proof {
                    lemma_find_file_misses(fs, entry@.path);
                }
                false
            },
        };
        if !ok {
            bad.push(i);
        }
        proof {
            assert forall|j2: int|
                0 <= j2 <= i && !entry_verified(#[trigger] manifest@[j2], fs)
                implies bad@.contains(j2 as usize) by {
                if j2 < i {
                    let k = choose|k: int| 0 <= k < old_bad.len() && old_bad[k] == j2 as usize;
                    assert(bad@[k] == j2 as usize);
                } else {
                    assert(bad@[bad@.len() - 1] == i as usize);
                }
            }
        }
        i += 1;
    }
    let passed = bad.len() == 0;
    if !passed {
        assert(!entry_verified(manifest@[bad@[0] as int], fs));
    }
    VerifyReport { passed, bad }
}

/// No two entries share a path.
pub open spec fn paths_distinct(es: Seq<EntryModel>) -> bool {
    forall|i: int, j: int| 0 <= i < j < es.len()
        ==> (#[trigger] es[i]).path != (#[trigger] es[j]).path
}

/// A full, fresh install passes verification: if the files on disk are
/// exactly the staged files of a completed install — the manifest's paths
/// in order, each with contents bearing the declared digest — then every
/// entry of a manifest with distinct paths verifies.
pub proof fn lemma_fresh_install_verifies(es: Seq<EntryModel>, fs: Seq<FileModel>)
    requires
        fs.len() == es.len(),
        forall|i: int| 0 <= i < fs.len() ==> (#[trigger] fs[i]).path == es[i].path,
        forall|i: int| 0 <= i < fs.len() ==> digest_of((#[trigger] fs[i]).data) == es[i].digest,
        paths_distinct(es),
    ensures
        forall|i: int| 0 <= i < es.len() ==> entry_verified(#[trigger] es[i], fs),
{
    assert forall|i: int| 0 <= i < es.len() implies entry_verified(#[trigger] es[i], fs) by {
        assert forall|j: int| 0 <= j < i implies (#[trigger] fs[j]).path != es[i].path by {
            assert(fs[j].path == es[j].path);
        }
        lemma_find_file_hits(fs, es[i].path, i);
    }
}

} // verus!
