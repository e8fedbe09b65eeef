//! Update planning: diffing an installed manifest against a target one.
//!
//! Only entries whose digest is not already present under the same path in
//! the installed manifest are refetched; unchanged entries are kept as they
//! are. Files of the installed manifest that the target no longer names are
//! deleted — and only after every new entry has succeeded, so nothing
//! destructive happens before the new version is known to install cleanly.

use vstd::prelude::*;

use crate::install::InstallVerdict;
use crate::manifest::{EntryModel, Manifest};
use crate::verify::bytes_eq;

verus! {

/// The installed manifest has this path with this digest.
pub open spec fn has_entry(es: Seq<EntryModel>, path: Seq<u8>, digest: u64) -> bool {
    exists|j: int| 0 <= j < es.len() && (#[trigger] es[j]).path == path && es[j].digest == digest
}

/// The manifest names this path at all.
pub open spec fn has_path(es: Seq<EntryModel>, path: Seq<u8>) -> bool {
    exists|j: int| 0 <= j < es.len() && (#[trigger] es[j]).path == path
}

/// Whether `m` holds an entry with this path and digest.
#[verifier::loop_isolation(false)]
pub fn manifest_has_entry(m: &Manifest, path: &[u8], digest: u64) -> (r: bool)
    ensures
        r == has_entry(m@, path@, digest),
{
    let mut j: usize = 0;
    while j < m.entries.len()
        invariant
            j <= m.entries.len(),
            forall|k: int| 0 <= k < j ==> !((#[trigger] m@[k]).path == path@
                && m@[k].digest == digest),
        decreases m.entries.len() - j,
    {
        assert(m.entries[j as int]@ == m@[j as int]);
        if m.entries[j].digest == digest && bytes_eq(m.entries[j].path.as_slice(), path) {
            return true;
        }
        j += 1;
    }
    false
}

/// Whether `m` names this path.
#[verifier::loop_isolation(false)]
pub fn manifest_has_path(m: &Manifest, path: &[u8]) -> (r: bool)
    ensures
        r == has_path(m@, path@),
{
    let mut j: usize = 0;
    while j < m.entries.len()
        invariant
            j <= m.entries.len(),
            forall|k: int| 0 <= k < j ==> (#[trigger] m@[k]).path != path@,
        decreases m.entries.len() - j,
    {
        assert(m.entries[j as int]@ == m@[j as int]);
        if bytes_eq(m.entries[j].path.as_slice(), path) {
            return true;
        }
        j += 1;
    }
    false
}

/// What an update must do: which target entries to fetch, which to keep
/// as installed, and which installed paths to delete afterwards.
#[derive(Debug)]
pub struct UpdatePlan {
    /// Target entries to fetch: their digest is not already installed
    /// under their path. In manifest order.
    pub fetch: Vec<usize>,
    /// Target entries already installed unchanged: no refetch. In
    /// manifest order.
    pub keep: Vec<usize>,
    /// Installed paths the target no longer names: delete after every
    /// fetched entry has succeeded.
    pub remove: Vec<Vec<u8>>,
}

/// Diff the target manifest against the installed one.
///
/// An entry of the target is fetched exactly when the installed manifest
/// has no entry with the same path and digest, and kept exactly when it
/// has one; a path of the installed manifest is removed exactly when the
/// target does not name it.
#[verifier::loop_isolation(false)]
pub fn plan_update(installed: &Manifest, target: &Manifest) -> (p: UpdatePlan)
    ensures
        forall|k: int| 0 <= k < p.fetch@.len() ==> #[trigger] p.fetch@[k] < target@.len()
            && !has_entry(installed@, target@[p.fetch@[k] as int].path,
                target@[p.fetch@[k] as int].digest),
        forall|i: int| 0 <= i < target@.len()
            && !has_entry(installed@, (#[trigger] target@[i]).path, target@[i].digest)
            ==> p.fetch@.contains(i as usize),
        forall|k1: int, k2: int| 0 <= k1 < k2 < p.fetch@.len()
            ==> #[trigger] p.fetch@[k1] < #[trigger] p.fetch@[k2],
        forall|k: int| 0 <= k < p.keep@.len() ==> #[trigger] p.keep@[k] < target@.len()
            && has_entry(installed@, target@[p.keep@[k] as int].path,
                target@[p.keep@[k] as int].digest),
        forall|i: int| 0 <= i < target@.len()
            && has_entry(installed@, (#[trigger] target@[i]).path, target@[i].digest)
            ==> p.keep@.contains(i as usize),
        forall|k: int| 0 <= k < p.remove@.len()
            ==> !has_path(target@, (#[trigger] p.remove@[k])@)
                && has_path(installed@, p.remove@[k]@),
        forall|j: int| 0 <= j < installed@.len()
            && !has_path(target@, (#[trigger] installed@[j]).path)
            ==> p.remove@.map_values(|v: Vec<u8>| v@).contains(installed@[j].path),
{
    let mut fetch: Vec<usize> = Vec::new();
    let mut keep: Vec<usize> = Vec::new();
    let mut remove: Vec<Vec<u8>> = Vec::new();
    let mut i: usize = 0;
    while i < target.entries.len()
        invariant
            i <= target.entries.len(),
            forall|k: int| 0 <= k < fetch@.len() ==> #[trigger] fetch@[k] < i
                && !has_entry(installed@, target@[fetch@[k] as int].path,
                    target@[fetch@[k] as int].digest),
            forall|j: int| 0 <= j < i
                && !has_entry(installed@, (#[trigger] target@[j]).path, target@[j].digest)
                ==> fetch@.contains(j as usize),
            forall|k1: int, k2: int| 0 <= k1 < k2 < fetch@.len()
                ==> #[trigger] fetch@[k1] < #[trigger] fetch@[k2],
            forall|k: int| 0 <= k < keep@.len() ==> #[trigger] keep@[k] < i
                && has_entry(installed@, target@[keep@[k] as int].path,
                    target@[keep@[k] as int].digest),
            forall|j: int| 0 <= j < i
                && has_entry(installed@, (#[trigger] target@[j]).path, target@[j].digest)
                ==> keep@.contains(j as usize),
        decreases target.entries.len() - i,
    {
        let ghost old_fetch = fetch@;
        let ghost old_keep = keep@;
        assert(target.entries[i as int]@ == target@[i as int]);
        let entry = &target.entries[i];
        if manifest_has_entry(installed, entry.path.as_slice(), entry.digest) {
            keep.push(i);
        } else {
            fetch.push(i);
        }
        proof {
            assert forall|j: int|
                0 <= j <= i
                && !has_entry(installed@, (#[trigger] target@[j]).path, target@[j].digest)
                implies fetch@.contains(j as usize) by {
                if j < i {
                    let k = choose|k: int|
                        0 <= k < old_fetch.len() && old_fetch[k] == j as usize;
                    assert(fetch@[k] == j as usize);
                } else {
                    assert(fetch@[fetch@.len() - 1] == i as usize);
                }
            }
            assert forall|j: int|
                0 <= j <= i
                && has_entry(installed@, (#[trigger] target@[j]).path, target@[j].digest)
                implies keep@.contains(j as usize) by {
                if j < i {
                    let k = choose|k: int| 0 <= k < old_keep.len() && old_keep[k] == j as usize;
                    assert(keep@[k] == j as usize);
                } else {
                    assert(keep@[keep@.len() - 1] == i as usize);
                }
            }
        }
        i += 1;
    }
    let mut j: usize = 0;
    while j < installed.entries.len()
        invariant
            j <= installed.entries.len(),
            forall|k: int| 0 <= k < remove@.len()
                ==> !has_path(target@, (#[trigger] remove@[k])@)
                    && has_path(installed@, remove@[k]@),
            forall|j2: int| 0 <= j2 < j
                && !has_path(target@, (#[trigger] installed@[j2]).path)
                ==> remove@.map_values(|v: Vec<u8>| v@).contains(installed@[j2].path),
        decreases installed.entries.len() - j,
    {
        let ghost old_remove = remove@;
        assert(installed.entries[j as int]@ == installed@[j as int]);
        let entry = &installed.entries[j];
        if !manifest_has_path(target, entry.path.as_slice()) {
            let path = entry.path.clone();
            assert(path@ == installed@[j as int].path);
            remove.push(path);
            assert(has_path(installed@, installed@[j as int].path));
        }
        proof {
            let rm = remove@.map_values(|v: Vec<u8>| v@);
            assert forall|j2: int|
                0 <= j2 <= j && !has_path(target@, (#[trigger] installed@[j2]).path)
                implies rm.contains(installed@[j2].path) by {
                if j2 < j {
                    let orm = old_remove.map_values(|v: Vec<u8>| v@);
                    let k = choose|k: int| 0 <= k < orm.len() && orm[k] == installed@[j2].path;
                    assert(old_remove[k]@ == installed@[j2].path);
                    assert(rm[k] == installed@[j2].path);
                } else {
                    assert(rm[rm.len() - 1] == installed@[j2].path);
                }
            }
        }
        j += 1;
    }
    UpdatePlan { fetch, keep, remove }
}

/// The deletions an update verdict allows: the planned removals when every
/// entry succeeded, nothing at all otherwise. Deletion never precedes a
/// confirmed install.
pub fn removals_after(verdict: &InstallVerdict, plan: UpdatePlan) -> (r: Vec<Vec<u8>>)
    ensures
        verdict is Complete ==> r == plan.remove,
        verdict is Failed ==> r@.len() == 0,
{
    match verdict {
        InstallVerdict::Complete { .. } => plan.remove,
        InstallVerdict::Failed { .. } => Vec::new(),
    }
}

} // verus!
