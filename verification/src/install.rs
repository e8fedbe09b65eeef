//! Install and update orchestration.
//!
//! The orchestrator judges a whole install pass. When every entry of the
//! manifest assembles from its fetched chunks and carries the declared
//! digest, the staged files and the install record are returned to the
//! caller; when any entry fails, the failing entries are listed and nothing
//! is kept (all-or-nothing at the product level, even though work proceeds
//! per file).
//!
//! Writing and deleting happen outside the engine; their effect on the file
//! tree is modelled here as a map from path to contents, and the laws about
//! interrupted runs and rollback are proved over that model.

use vstd::prelude::*;

use crate::digest::{check_bytes, digest_of, DigestCheck};
use crate::fetch::FetchFailure;
use crate::manifest::{chunk_sum, entry_wf, manifest_wf, Chunk, EntryModel, Manifest, ManifestEntry};

verus! {

/// Persisted record of one installed product.
#[derive(Clone, Debug)]
pub struct InstallInfo {
    /// The product's stable identifier.
    pub slug: String,
    /// The installed version label.
    pub version: String,
    /// The target platform of the installed build.
    pub platform: String,
    /// Absolute directory the product is installed under.
    pub install_path: String,
    /// Relative path of the executable used for launch, if known.
    pub exe_path: Option<String>,
}

/// One file the orchestrator staged: where it goes and what it holds.
#[derive(Clone, Debug)]
pub struct StagedFile {
    /// Install path relative to the destination root, as bytes.
    pub path: Vec<u8>,
    /// The file's assembled contents.
    pub data: Vec<u8>,
}

/// Mathematical model of a staged file.
#[verifier::ext_equal]
pub ghost struct FileModel {
    /// Install path relative to the destination root.
    pub path: Seq<u8>,
    /// The file's contents.
    pub data: Seq<u8>,
}

impl View for StagedFile {
    type V = FileModel;

    open spec fn view(&self) -> FileModel {
        FileModel { path: self.path@, data: self.data@ }
    }
}

/// Why one entry could not be materialized.
#[derive(Clone, Copy, PartialEq, Eq, Structural, Debug)]
pub enum EntryFailure {
    /// The fetcher abandoned the entry.
    Fetch { reason: FetchFailure },
    /// The fetcher delivered the wrong number of chunks.
    ChunkCount,
    /// A chunk's byte count differs from its descriptor.
    ChunkLength { index: usize },
    /// A chunk's digest differs from its descriptor.
    ChunkDigest { index: usize },
    /// The assembled file's digest differs from the manifest's.
    FileDigest { actual: u64 },
}

/// The orchestrator's conclusion for one whole install pass.
#[derive(Debug)]
pub enum InstallVerdict {
    /// Every entry assembled and verified: write these files, then persist
    /// the install record.
    Complete { files: Vec<StagedFile> },
    /// At least one entry failed: write nothing, remove anything partial,
    /// persist nothing. The failing entries, in manifest order.
    Failed { failed: Vec<usize> },
}

/// Concatenation of a sequence of byte sequences, in order.
pub open spec fn concat_seqs(ss: Seq<Seq<u8>>) -> Seq<u8>
    decreases ss.len(),
{
    if ss.len() == 0 {
        Seq::empty()
    } else {
        concat_seqs(ss.drop_last()) + ss.last()
    }
}

/// The views of a vector of chunk byte buffers.
pub open spec fn chunk_views(d: Vec<Vec<u8>>) -> Seq<Seq<u8>> {
    d@.map_values(|c: Vec<u8>| c@)
}

/// Chunk `j` of the delivered data matches its descriptor in length
/// and digest.
pub open spec fn chunk_good(entry: EntryModel, ds: Seq<Seq<u8>>, j: int) -> bool {
    &&& ds[j].len() == entry.chunks[j].length
    &&& digest_of(ds[j]) == entry.chunks[j].digest
}

/// The delivered data has one buffer per chunk descriptor and each
/// matches its descriptor.
pub open spec fn chunks_fit(entry: EntryModel, ds: Seq<Seq<u8>>) -> bool {
    &&& ds.len() == entry.chunks.len()
    &&& forall|j: int| 0 <= j < ds.len() ==> chunk_good(entry, ds, j)
}

/// The delivered data assembles into the declared file: every chunk fits
/// and the concatenation carries the declared whole-file digest.
pub open spec fn assemble_ok(entry: EntryModel, ds: Seq<Seq<u8>>) -> bool {
    &&& chunks_fit(entry, ds)
    &&& digest_of(concat_seqs(ds)) == entry.digest
}

/// What a given assembly failure asserts of the delivered data: the named
/// check refused, and every check before it passed.
pub open spec fn assemble_failure_explains(entry: EntryModel, ds: Seq<Seq<u8>>, e: EntryFailure) -> bool {
    match e {
        EntryFailure::ChunkCount => ds.len() != entry.chunks.len(),
        EntryFailure::ChunkLength { index } => {
            &&& ds.len() == entry.chunks.len()
            &&& 0 <= index < ds.len()
            &&& ds[index as int].len() != entry.chunks[index as int].length
            &&& forall|j: int| 0 <= j < index ==> chunk_good(entry, ds, j)
        },
        EntryFailure::ChunkDigest { index } => {
            &&& ds.len() == entry.chunks.len()
            &&& 0 <= index < ds.len()
            &&& ds[index as int].len() == entry.chunks[index as int].length
            &&& digest_of(ds[index as int]) != entry.chunks[index as int].digest
            &&& forall|j: int| 0 <= j < index ==> chunk_good(entry, ds, j)
        },
        EntryFailure::FileDigest { actual } => {
            &&& chunks_fit(entry, ds)
            &&& actual == digest_of(concat_seqs(ds))
            &&& actual != entry.digest
        },
        EntryFailure::Fetch { .. } => false,
    }
}

/// Append `src`'s bytes to `out`.
#[verifier::loop_isolation(false)]
fn append_bytes(out: &mut Vec<u8>, src: &[u8])
    ensures
        final(out)@ == old(out)@ + src@,
{
    let mut i: usize = 0;
    while i < src.len()
        invariant
            i <= src.len(),
            out@ == old(out)@ + src@.take(i as int),
        decreases src.len() - i,
    {
        out.push(src[i]);
        assert(src@.take(i as int + 1) =~= src@.take(i as int).push(src@[i as int]));
        assert(old(out)@ + src@.take(i as int + 1)
            =~= (old(out)@ + src@.take(i as int)).push(src@[i as int]));
        i += 1;
    }
    assert(src@.take(src.len() as int) =~= src@);
}

/// Assemble one entry's delivered chunk bytes into the whole file,
/// checking each chunk and then the whole file against the manifest.
///
/// Succeeds exactly when the data assembles as declared; the result is the
/// concatenation, whose digest and length are the entry's. A failure names
/// the first check that refused: chunk count, then per chunk in order its
/// length then digest, then the whole-file digest.
#[verifier::loop_isolation(false)]
pub fn assemble_entry(entry: &ManifestEntry, data: &Vec<Vec<u8>>) -> (r: Result<
    Vec<u8>,
    EntryFailure,
>)
    requires
        entry_wf(entry@),
    ensures
        r is Ok <==> assemble_ok(entry@, chunk_views(*data)),
        r matches Ok(bytes) ==> bytes@ == concat_seqs(chunk_views(*data))
            && digest_of(bytes@) == entry.digest && bytes@.len() == entry.size,
        r matches Err(e) ==> assemble_failure_explains(entry@, chunk_views(*data), e),
{
    let ghost ds = chunk_views(*data);
    if data.len() != entry.chunks.len() {
        return Err(EntryFailure::ChunkCount);
    }
    let mut out: Vec<u8> = Vec::new();
    let mut i: usize = 0;
    assert(ds.take(0) =~= Seq::<Seq<u8>>::empty());
    assert(entry@.chunks.take(0) =~= Seq::<Chunk>::empty());
    while i < data.len()
        invariant
            i <= data.len(),
            out@ == concat_seqs(ds.take(i as int)),
            out@.len() == chunk_sum(entry@.chunks.take(i as int)),
            forall|j: int| 0 <= j < i ==> chunk_good(entry@, ds, j),
        decreases data.len() - i,
    {
        assert(ds[i as int] == data@[i as int]@);
        if (data[i].len() as u64) != entry.chunks[i].length {
            assert(!chunk_good(entry@, ds, i as int));
            return Err(EntryFailure::ChunkLength { index: i });
        }
        match check_bytes(data[i].as_slice(), entry.chunks[i].digest) {
            DigestCheck::Match => {},
            DigestCheck::Mismatch { .. } => {
                assert(!chunk_good(entry@, ds, i as int));
                return Err(EntryFailure::ChunkDigest { index: i });
            },
        }
        append_bytes(&mut out, data[i].as_slice());
        proof {
            assert(ds.take(i as int + 1).drop_last() =~= ds.take(i as int));
            assert(ds.take(i as int + 1).last() == ds[i as int]);
            assert(entry@.chunks.take(i as int + 1).drop_last() =~= entry@.chunks.take(i as int));
        }
        i += 1;
    }
    proof {
        assert(ds.take(data@.len() as int) =~= ds);
        assert(entry@.chunks.take(data@.len() as int) =~= entry@.chunks);
    }
    match check_bytes(out.as_slice(), entry.digest) {
        DigestCheck::Match => Ok(out),
        DigestCheck::Mismatch { actual } => Err(EntryFailure::FileDigest { actual }),
    }
}

/// Entry `entry` was fetched and assembles as declared.
pub open spec fn entry_ok(entry: EntryModel, fetched: Result<Vec<Vec<u8>>, FetchFailure>) -> bool {
    match fetched {
        Ok(d) => assemble_ok(entry, chunk_views(d)),
        Err(_) => false,
    }
}

/// Drive one install pass: assemble and check every entry from the bytes
/// the fetcher delivered, let every entry finish, then conclude.
///
/// `Complete` exactly when every entry was delivered and assembles as
/// declared; the staged files then carry the manifest's paths in manifest
/// order, and each one's contents bear the declared digest and length.
/// Otherwise `Failed` lists exactly the entries that failed, in order.
#[verifier::loop_isolation(false)]
pub fn install_product(
    manifest: &Manifest,
    fetched: &Vec<Result<Vec<Vec<u8>>, FetchFailure>>,
) -> (v: InstallVerdict)
    requires
        manifest_wf(manifest@),
        fetched@.len() == manifest@.len(),
    ensures
        (v is Complete <==> forall|i: int| 0 <= i < manifest@.len()
            ==> entry_ok(manifest@[i], #[trigger] fetched@[i])),
        (v matches InstallVerdict::Complete { files } ==> {
            &&& files@.len() == manifest@.len()
            &&& forall|i: int| 0 <= i < files@.len()
                ==> (#[trigger] files@[i]@).path == manifest@[i].path
            &&& forall|i: int| 0 <= i < files@.len()
                ==> digest_of((#[trigger] files@[i]@).data) == manifest@[i].digest
            &&& forall|i: int| 0 <= i < files@.len()
                ==> (#[trigger] files@[i]@).data.len() == manifest@[i].size
        }),
        (v matches InstallVerdict::Failed { failed } ==> {
            &&& forall|k: int| 0 <= k < failed@.len() ==> #[trigger] failed@[k] < manifest@.len()
                && !entry_ok(manifest@[failed@[k] as int], fetched@[failed@[k] as int])
            &&& forall|i: int| 0 <= i < manifest@.len()
                && !entry_ok(manifest@[i], #[trigger] fetched@[i]) ==> failed@.contains(i as usize)
            &&& forall|k1: int, k2: int| 0 <= k1 < k2 < failed@.len()
                ==> #[trigger] failed@[k1] < #[trigger] failed@[k2]
        }),
{
    let n = manifest.entries.len();
    let mut files: Vec<StagedFile> = Vec::new();
    let mut failed: Vec<usize> = Vec::new();
    let mut i: usize = 0;
    while i < n
        invariant
            i <= n,
            failed@.len() == 0 ==> {
                &&& files@.len() == i
                &&& forall|j: int| 0 <= j < i
                    ==> (#[trigger] files@[j]@).path == manifest@[j].path
                &&& forall|j: int| 0 <= j < i
                    ==> digest_of((#[trigger] files@[j]@).data) == manifest@[j].digest
                &&& forall|j: int| 0 <= j < i
                    ==> (#[trigger] files@[j]@).data.len() == manifest@[j].size
            },
            forall|j: int| 0 <= j < i && !entry_ok(manifest@[j], #[trigger] fetched@[j])
                ==> failed@.contains(j as usize),
            forall|k: int| 0 <= k < failed@.len() ==> #[trigger] failed@[k] < i
                && !entry_ok(manifest@[failed@[k] as int], fetched@[failed@[k] as int]),
            forall|k1: int, k2: int| 0 <= k1 < k2 < failed@.len()
                ==> #[trigger] failed@[k1] < #[trigger] failed@[k2],
        decreases n - i,
    {
        let ghost old_failed = failed@;
        assert(manifest.entries[i as int]@ == manifest@[i as int]);
        match &fetched[i] {
            Err(_) => {
                failed.push(i);
            },
            Ok(data) => {
                match assemble_entry(&manifest.entries[i], data) {
                    Ok(bytes) => {
                        assert(entry_ok(manifest@[i as int], fetched@[i as int]));
                        if failed.len() == 0 {
                            let path = manifest.entries[i].path.clone();
                            assert(path@ == manifest@[i as int].path);
                            files.push(StagedFile { path, data: bytes });
                        }
                    },
                    Err(_) => {
                        assert(!entry_ok(manifest@[i as int], fetched@[i as int]));
                        failed.push(i);
                    },
                }
            },
        }
        proof {
            assert forall|j: int|
                0 <= j <= i && !entry_ok(manifest@[j], #[trigger] fetched@[j])
                implies failed@.contains(j as usize) by {
                if j < i {
                    let k = choose|k: int|
                        0 <= k < old_failed.len() && old_failed[k] == j as usize;
                    assert(failed@[k] == j as usize);
                } else {
                    assert(failed@[failed@.len() - 1] == i as usize);
                }
            }
        }
        i += 1;
    }
    if failed.len() == 0 {
        InstallVerdict::Complete { files }
    } else {
        assert(!entry_ok(manifest@[failed@[0] as int], fetched@[failed@[0] as int]));
        InstallVerdict::Failed { failed }
    }
}

/// An install may begin exactly when no record exists for the slug, or the
/// caller asked for information only.
pub fn preflight_allows(already_installed: bool, info_only: bool) -> (r: bool)
    ensures
        r <==> (!already_installed || info_only),
{
    !already_installed || info_only
}

/// `base`, a path separator, then `name`.
#[verifier::loop_isolation(false)]
pub fn join_path(base: &[u8], name: &[u8]) -> (r: Vec<u8>)
    ensures
        r@ == base@ + seq![47u8] + name@,
{
    let mut out: Vec<u8> = Vec::new();
    let mut i: usize = 0;
    while i < base.len()
        invariant
            i <= base.len(),
            out@ == base@.take(i as int),
        decreases base.len() - i,
    {
        out.push(base[i]);
        assert(base@.take(i as int + 1) =~= base@.take(i as int).push(base@[i as int]));
        i += 1;
    }
    assert(base@.take(base.len() as int) =~= base@);
    out.push(47);
    let ghost with_sep = out@;
    let mut j: usize = 0;
    while j < name.len()
        invariant
            j <= name.len(),
            out@ == with_sep + name@.take(j as int),
        decreases name.len() - j,
    {
        out.push(name[j]);
        assert(with_sep + name@.take(j as int + 1)
            =~= (with_sep + name@.take(j as int)).push(name@[j as int]));
        j += 1;
    }
    assert(name@.take(name.len() as int) =~= name@);
    assert(out@ =~= base@ + seq![47u8] + name@);
    out
}

/// The effective destination: an explicit path wins, else an explicit base
/// joined with the slug, else the default base joined with the slug.
pub fn resolve_install_path(
    explicit: Option<Vec<u8>>,
    base: Option<Vec<u8>>,
    default_base: &[u8],
    slug: &[u8],
) -> (r: Vec<u8>)
    ensures
        (match explicit {
            Some(p) => r@ == p@,
            None => (match base {
                Some(b) => r@ == b@ + seq![47u8] + slug@,
                None => r@ == default_base@ + seq![47u8] + slug@,
            }),
        }),
{
    match explicit {
        Some(p) => p,
        None => match base {
            Some(b) => join_path(b.as_slice(), slug),
            None => join_path(default_base, slug),
        },
    }
}

/// Model of the destination directory tree: contents by path.
pub type DiskModel = Map<Seq<u8>, Seq<u8>>;

/// The paths a sequence of staged files writes.
pub open spec fn file_paths(files: Seq<FileModel>) -> Set<Seq<u8>> {
    Set::new(|p: Seq<u8>| exists|i: int| 0 <= i < files.len() && (#[trigger] files[i]).path == p)
}

/// Writing the staged files to a disk, in order: later files win on a
/// shared path.
pub open spec fn commit_files(disk: DiskModel, files: Seq<FileModel>) -> DiskModel
    decreases files.len(),
{
    if files.len() == 0 {
        disk
    } else {
        commit_files(disk, files.drop_last()).insert(files.last().path, files.last().data)
    }
}

/// Removing every path the staged files would have written: the rollback
/// of a failed install.
pub open spec fn rollback_files(disk: DiskModel, files: Seq<FileModel>) -> DiskModel {
    disk.remove_keys(file_paths(files))
}

/// Off the staged paths, a commit changes nothing.
pub proof fn lemma_commit_untouched(disk: DiskModel, files: Seq<FileModel>, p: Seq<u8>)
    requires
        !file_paths(files).contains(p),
    ensures
        commit_files(disk, files).dom().contains(p) == disk.dom().contains(p),
        disk.dom().contains(p) ==> commit_files(disk, files)[p] == disk[p],
    decreases files.len(),
{
    if files.len() > 0 {
        assert(!file_paths(files.drop_last()).contains(p)) by {
            assert(forall|i: int| 0 <= i < files.len() - 1
                ==> (#[trigger] files.drop_last()[i]).path == files[i].path);
        }
        assert(files.last().path != p);
        lemma_commit_untouched(disk, files.drop_last(), p);
    }
}

/// A commit's domain is the old domain plus the staged paths.
pub proof fn lemma_commit_dom(disk: DiskModel, files: Seq<FileModel>)
    ensures
        commit_files(disk, files).dom() =~= disk.dom().union(file_paths(files)),
    decreases files.len(),
{
    if files.len() > 0 {
        lemma_commit_dom(disk, files.drop_last());
        assert forall|p: Seq<u8>| #[trigger] file_paths(files).contains(p)
            implies file_paths(files.drop_last()).contains(p) || files.last().path == p by {
            let i = choose|i: int| 0 <= i < files.len() && (#[trigger] files[i]).path == p;
            if i < files.len() - 1 {
                assert(files.drop_last()[i].path == p);
            }
        }
        assert forall|p: Seq<u8>| file_paths(files.drop_last()).contains(p)
            implies #[trigger] file_paths(files).contains(p) by {
            let i = choose|i: int|
                0 <= i < files.len() - 1 && (#[trigger] files.drop_last()[i]).path == p;
            assert(files[i].path == p);
        }
        assert(file_paths(files).contains(files.last().path));
    } else {
        assert(forall|p: Seq<u8>| !(#[trigger] file_paths(files).contains(p)));
    }
}

/// On a staged path, what a commit leaves does not depend on the disk it
/// started from.
pub proof fn lemma_commit_on_paths(d1: DiskModel, d2: DiskModel, files: Seq<FileModel>, p: Seq<u8>)
    requires
        file_paths(files).contains(p),
    ensures
        commit_files(d1, files).dom().contains(p),
        commit_files(d2, files).dom().contains(p),
        commit_files(d1, files)[p] == commit_files(d2, files)[p],
    decreases files.len(),
{
    let i = choose|i: int| 0 <= i < files.len() && (#[trigger] files[i]).path == p;
    if files.last().path != p {
        assert(i < files.len() - 1);
        assert(files.drop_last()[i].path == p);
        assert(file_paths(files.drop_last()).contains(p));
        lemma_commit_on_paths(d1, d2, files.drop_last(), p);
    }
}

/// Installing is idempotent over interruption: committing the full staged
/// set on top of any partial commit of a subset of its paths leaves exactly
/// the file tree a single clean commit leaves.
pub proof fn lemma_install_idempotent(
    disk: DiskModel,
    partial: Seq<FileModel>,
    files: Seq<FileModel>,
)
    requires
        file_paths(partial).subset_of(file_paths(files)),
    ensures
        commit_files(commit_files(disk, partial), files) =~= commit_files(disk, files),
{
    let interrupted = commit_files(disk, partial);
    lemma_commit_dom(disk, partial);
    lemma_commit_dom(interrupted, files);
    lemma_commit_dom(disk, files);
    assert forall|p: Seq<u8>| commit_files(interrupted, files).dom().contains(p)
        implies commit_files(interrupted, files)[p] == commit_files(disk, files)[p] by {
        if file_paths(files).contains(p) {
            lemma_commit_on_paths(interrupted, disk, files, p);
        } else {
            lemma_commit_untouched(interrupted, files, p);
            lemma_commit_untouched(disk, files, p);
            assert(!file_paths(partial).contains(p));
            lemma_commit_untouched(disk, partial, p);
        }
    }
}

/// Rollback is complete: if none of the staged paths existed before the
/// install began, removing them after a partial commit restores the disk
/// exactly — the destination holds nothing the call added.
pub proof fn lemma_rollback_restores(disk: DiskModel, partial: Seq<FileModel>, files: Seq<FileModel>)
    requires
        file_paths(partial).subset_of(file_paths(files)),
        file_paths(files).disjoint(disk.dom()),
    ensures
        rollback_files(commit_files(disk, partial), files) =~= disk,
{
    lemma_commit_dom(disk, partial);
    assert forall|p: Seq<u8>| disk.dom().contains(p)
        implies rollback_files(commit_files(disk, partial), files).dom().contains(p)
            && rollback_files(commit_files(disk, partial), files)[p] == disk[p] by {
        assert(!file_paths(files).contains(p));
        assert(!file_paths(partial).contains(p));
        lemma_commit_untouched(disk, partial, p);
    }
}

} // verus!
