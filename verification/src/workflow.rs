//! The reconciliation workflows: the decision logic of adding, removing,
//! updating and applying packages, with the compensation steps that keep the
//! manifest, the lock record and the vendor tree consistent under partial
//! failure.
//!
//! Each workflow is a function of the project state and the outcomes of the
//! fallible outside steps (clone, document write, directory removal), so its
//! behaviour is stated and checked for every combination of outcomes.

use vstd::prelude::*;
use crate::package::{
    Package, PackageV, Manifest, LockRecord, imports_of, pkgs_view, names_view, has_import,
    has_name, remove_package_from_array, remove_name_from_array, spec_remove_import,
    spec_remove_name, clone_packages, clone_names, manifest_wf, lock_wf,
    lemma_push_import_unique, lemma_push_name_unique, lemma_remove_import_unique,
    lemma_remove_name_unique,
};

verus! {

/// The failure classes of the engine.
#[derive(PartialEq, Eq, Structural, Clone, Copy, Debug)]
pub enum WorkflowError {
    /// A manifest or lock-record read, parse or write failed.
    DocumentIo,
    /// No revision could be matched, even after the one fallback retry.
    VersionResolution,
    /// A clone, fetch, checkout or reset failed; also a failed install of a
    /// global package, which is carried out by an outside command.
    RepositoryOperation,
    /// A directory could not be created or removed.
    Filesystem,
    /// The package is already declared in the manifest.
    DuplicatePackage,
}

/// A project as the workflows see it: the two documents and the set of
/// package directories materialized under the vendor root.
pub struct SimProject {
    pub manifest: Manifest,
    pub lock: LockRecord,
    pub vendor_dirs: Vec<String>,
}

/// Mathematical value of a `SimProject`.
pub ghost struct SimProjectV {
    pub manifest: crate::package::ManifestV,
    pub lock: crate::package::LockRecordV,
    pub vendor: Seq<Seq<char>>,
}

impl View for SimProject {
    type V = SimProjectV;

    open spec fn view(&self) -> SimProjectV {
        SimProjectV {
            manifest: self.manifest@,
            lock: self.lock@,
            vendor: names_view(self.vendor_dirs@),
        }
    }
}

/// Add a remote package: refuse a duplicate, clear a stale vendor
/// directory, clone, then write the manifest and the lock record, undoing
/// what was done when a later step fails. The `*_ok` arguments are the
/// outcomes of the clone and of the two document writes.
pub fn run_get_remote(
    state: SimProject,
    pkg: Package,
    resolved: Package,
    clone_ok: bool,
    manifest_write_ok: bool,
    lock_write_ok: bool,
) -> (r: (SimProject, Result<(), WorkflowError>))
    requires
        pkg@.import == resolved@.import,
    ensures
        ({
            let old_m = state.manifest@;
            let old_l = state.lock@;
            let old_v = names_view(state.vendor_dirs@);
            let st = r.0@;
            let res = r.1;
            let dup = imports_of(old_m.remote).contains(pkg@.import);
            &&& (res is Ok <==> !dup && clone_ok && manifest_write_ok && lock_write_ok)
            &&& dup ==> st == state@ && res == Result::<(), WorkflowError>::Err(
                WorkflowError::DuplicatePackage,
            )
            &&& !dup && !clone_ok ==> res == Result::<(), WorkflowError>::Err(
                WorkflowError::RepositoryOperation,
            )
            &&& !dup && clone_ok && !(manifest_write_ok && lock_write_ok) ==> res
                == Result::<(), WorkflowError>::Err(WorkflowError::DocumentIo)
            &&& !dup && !(clone_ok && manifest_write_ok && lock_write_ok) ==> {
                &&& st.manifest == old_m
                &&& st.lock == old_l
                &&& st.vendor == spec_remove_name(old_v, pkg@.import)
            }
            &&& res is Ok ==> {
                &&& st.manifest.info == old_m.info
                &&& st.manifest.remote == old_m.remote.push(pkg@)
                &&& st.manifest.local == old_m.local
                &&& st.manifest.global == old_m.global
                &&& st.lock.remote == old_l.remote.push(resolved@)
                &&& st.lock.local == old_l.local
                &&& st.lock.global == old_l.global
                &&& st.vendor == spec_remove_name(old_v, pkg@.import).push(pkg@.import)
            }
            &&& manifest_wf(old_m) ==> manifest_wf(st.manifest)
            &&& lock_wf(old_l) && !imports_of(old_l.remote).contains(resolved@.import)
                ==> lock_wf(st.lock)
        }),
{
    let SimProject { mut manifest, mut lock, vendor_dirs } = state;
    if has_import(&manifest.remote, pkg.import.as_str()) {
        return (
            SimProject { manifest, lock, vendor_dirs },
            Result::Err(WorkflowError::DuplicatePackage),
        );
    }
    // a stale directory for this import is deleted before cloning
    let mut vendor = remove_name_from_array(vendor_dirs, pkg.import.as_str());
    if !clone_ok {
        return (
            SimProject { manifest, lock, vendor_dirs: vendor },
            Result::Err(WorkflowError::RepositoryOperation),
        );
    }
    if !manifest_write_ok || !lock_write_ok {
        // the partly cloned directory is removed and, when the manifest had
        // already been written before the lock write failed, the manifest
        // is rewritten to its previous content
        return (
            SimProject { manifest, lock, vendor_dirs: vendor },
            Result::Err(WorkflowError::DocumentIo),
        );
    }
    let dir = pkg.import.clone();
    vendor.push(dir);
    proof {
        lemma_push_import_unique(pkgs_view(manifest.remote@), pkg@);
        lemma_push_import_unique(pkgs_view(lock.remote@), resolved@);
    }
    manifest.remote.push(pkg);
    lock.remote.push(resolved);
    proof {
        assert(pkgs_view(manifest.remote@) =~= pkgs_view(state.manifest.remote@).push(pkg@));
        assert(pkgs_view(lock.remote@) =~= pkgs_view(state.lock.remote@).push(resolved@));
        assert(names_view(vendor@) =~= spec_remove_name(
            names_view(state.vendor_dirs@),
            pkg@.import,
        ).push(pkg@.import));
    }
    (SimProject { manifest, lock, vendor_dirs: vendor }, Result::Ok(()))
}

/// Add a local package: a bare directory under the vendor root. A name
/// already declared, an already existing directory, and a failed creation
/// all leave the project untouched; a failed document write removes the
/// directory that was just created.
pub fn run_get_local(
    state: SimProject,
    name: String,
    create_ok: bool,
    manifest_write_ok: bool,
    lock_write_ok: bool,
) -> (r: (SimProject, Result<(), WorkflowError>))
    ensures
        ({
            let old_v = names_view(state.vendor_dirs@);
            let st = r.0@;
            let res = r.1;
            let dup = state.manifest@.local.contains(name@);
            let blocked = dup || old_v.contains(name@) || !create_ok;
            &&& (res is Ok <==> !blocked && manifest_write_ok && lock_write_ok)
            &&& dup ==> res == Result::<(), WorkflowError>::Err(
                WorkflowError::DuplicatePackage,
            )
            &&& !dup && (old_v.contains(name@) || !create_ok) ==> res == Result::<
                (),
                WorkflowError,
            >::Err(WorkflowError::Filesystem)
            &&& blocked ==> st == state@
            &&& !blocked && !(manifest_write_ok && lock_write_ok) ==> {
                &&& res == Result::<(), WorkflowError>::Err(WorkflowError::DocumentIo)
                &&& st.manifest == state.manifest@
                &&& st.lock == state.lock@
                &&& st.vendor == old_v
            }
            &&& res is Ok ==> {
                &&& st.manifest.info == state.manifest@.info
                &&& st.manifest.remote == state.manifest@.remote
                &&& st.manifest.local == state.manifest@.local.push(name@)
                &&& st.manifest.global == state.manifest@.global
                &&& st.lock.remote == state.lock@.remote
                &&& st.lock.local == state.lock@.local.push(name@)
                &&& st.lock.global == state.lock@.global
                &&& st.vendor == old_v.push(name@)
            }
            &&& manifest_wf(state.manifest@) ==> manifest_wf(st.manifest)
            &&& lock_wf(state.lock@) && !state.lock@.local.contains(name@) ==> lock_wf(st.lock)
        }),
{
    let SimProject { mut manifest, mut lock, mut vendor_dirs } = state;
    if has_name(&manifest.local, name.as_str()) {
        return (
            SimProject { manifest, lock, vendor_dirs },
            Result::Err(WorkflowError::DuplicatePackage),
        );
    }
    if has_name(&vendor_dirs, name.as_str()) || !create_ok {
        return (
            SimProject { manifest, lock, vendor_dirs },
            Result::Err(WorkflowError::Filesystem),
        );
    }
    if !manifest_write_ok || !lock_write_ok {
        // the directory created for the package is removed again
        return (
            SimProject { manifest, lock, vendor_dirs },
            Result::Err(WorkflowError::DocumentIo),
        );
    }
    vendor_dirs.push(name.clone());
    proof {
        lemma_push_name_unique(names_view(manifest.local@), name@);
        lemma_push_name_unique(names_view(lock.local@), name@);
    }
    manifest.local.push(name.clone());
    lock.local.push(name);
    proof {
        assert(names_view(manifest.local@) =~= state.manifest@.local.push(
            names_view(vendor_dirs@).last(),
        ));
        assert(names_view(lock.local@) =~= state.lock@.local.push(
            names_view(vendor_dirs@).last(),
        ));
        assert(names_view(vendor_dirs@) =~= names_view(state.vendor_dirs@).push(
            names_view(vendor_dirs@).last(),
        ));
    }
    (SimProject { manifest, lock, vendor_dirs }, Result::Ok(()))
}

/// Add a global package: installed outside the vendor tree by an outside
/// command whose outcome is `install_ok`.
pub fn run_get_global(
    state: SimProject,
    name: String,
    install_ok: bool,
    manifest_write_ok: bool,
    lock_write_ok: bool,
) -> (r: (SimProject, Result<(), WorkflowError>))
    ensures
        ({
            let st = r.0@;
            let res = r.1;
            let dup = state.manifest@.global.contains(name@);
            &&& (res is Ok <==> !dup && install_ok && manifest_write_ok && lock_write_ok)
            &&& dup ==> res == Result::<(), WorkflowError>::Err(
                WorkflowError::DuplicatePackage,
            )
            &&& !dup && !install_ok ==> res == Result::<(), WorkflowError>::Err(
                WorkflowError::RepositoryOperation,
            )
            &&& !(res is Ok) ==> st == state@
            &&& res is Ok ==> {
                &&& st.manifest.info == state.manifest@.info
                &&& st.manifest.remote == state.manifest@.remote
                &&& st.manifest.local == state.manifest@.local
                &&& st.manifest.global == state.manifest@.global.push(name@)
                &&& st.lock.remote == state.lock@.remote
                &&& st.lock.local == state.lock@.local
                &&& st.lock.global == state.lock@.global.push(name@)
                &&& st.vendor == names_view(state.vendor_dirs@)
            }
            &&& manifest_wf(state.manifest@) ==> manifest_wf(st.manifest)
            &&& lock_wf(state.lock@) && !state.lock@.global.contains(name@) ==> lock_wf(
                st.lock,
            )
        }),
{
    let SimProject { mut manifest, mut lock, vendor_dirs } = state;
    if has_name(&manifest.global, name.as_str()) {
        return (
            SimProject { manifest, lock, vendor_dirs },
            Result::Err(WorkflowError::DuplicatePackage),
        );
    }
    if !install_ok {
        return (
            SimProject { manifest, lock, vendor_dirs },
            Result::Err(WorkflowError::RepositoryOperation),
        );
    }
    if !manifest_write_ok || !lock_write_ok {
        return (
            SimProject { manifest, lock, vendor_dirs },
            Result::Err(WorkflowError::DocumentIo),
        );
    }
    proof {
        lemma_push_name_unique(names_view(manifest.global@), name@);
        lemma_push_name_unique(names_view(lock.global@), name@);
    }
    manifest.global.push(name.clone());
    lock.global.push(name);
    proof {
        assert(names_view(manifest.global@) =~= state.manifest@.global.push(
            names_view(manifest.global@).last(),
        ));
        assert(names_view(lock.global@) =~= state.lock@.global.push(
            names_view(lock.global@).last(),
        ));
    }
    (SimProject { manifest, lock, vendor_dirs }, Result::Ok(()))
}

/// Remove a package wherever it is declared: out of all three sets of both
/// documents and out of the vendor tree. A failed manifest write changes
/// nothing; a failed lock write reverts the manifest; a failed directory
/// removal reverts both documents.
pub fn run_remove(
    state: SimProject,
    name: &str,
    manifest_write_ok: bool,
    lock_write_ok: bool,
    delete_ok: bool,
) -> (r: (SimProject, Result<(), WorkflowError>))
    ensures
        ({
            let old_m = state.manifest@;
            let old_l = state.lock@;
            let old_v = names_view(state.vendor_dirs@);
            let st = r.0@;
            let res = r.1;
            let must_delete = old_v.contains(name@);
            &&& (res is Ok <==> manifest_write_ok && lock_write_ok && (!must_delete
                || delete_ok))
            &&& !(manifest_write_ok && lock_write_ok) ==> st == state@ && res == Result::<
                (),
                WorkflowError,
            >::Err(WorkflowError::DocumentIo)
            &&& manifest_write_ok && lock_write_ok && must_delete && !delete_ok ==> st
                == state@ && res == Result::<(), WorkflowError>::Err(
                WorkflowError::Filesystem,
            )
            &&& res is Ok ==> {
                &&& st.manifest.info == old_m.info
                &&& st.manifest.remote == spec_remove_import(old_m.remote, name@)
                &&& st.manifest.local == spec_remove_name(old_m.local, name@)
                &&& st.manifest.global == spec_remove_name(old_m.global, name@)
                &&& st.lock.remote == spec_remove_import(old_l.remote, name@)
                &&& st.lock.local == spec_remove_name(old_l.local, name@)
                &&& st.lock.global == spec_remove_name(old_l.global, name@)
                &&& st.vendor == spec_remove_name(old_v, name@)
            }
            &&& manifest_wf(old_m) ==> manifest_wf(st.manifest)
            &&& lock_wf(old_l) ==> lock_wf(st.lock)
        }),
{
    let SimProject { manifest, lock, vendor_dirs } = state;
    if !manifest_write_ok || !lock_write_ok {
        return (
            SimProject { manifest, lock, vendor_dirs },
            Result::Err(WorkflowError::DocumentIo),
        );
    }
    if has_name(&vendor_dirs, name) && !delete_ok {
        // the documents had been rewritten already; both are reverted to
        // their snapshots before the operation reports failure
        return (
            SimProject { manifest, lock, vendor_dirs },
            Result::Err(WorkflowError::Filesystem),
        );
    }
    let new_manifest = Manifest {
        info: manifest.info,
        remote: remove_package_from_array(manifest.remote, name),
        local: remove_name_from_array(manifest.local, name),
        global: remove_name_from_array(manifest.global, name),
    };
    let new_lock = LockRecord {
        remote: remove_package_from_array(lock.remote, name),
        local: remove_name_from_array(lock.local, name),
        global: remove_name_from_array(lock.global, name),
    };
    let vendor = remove_name_from_array(vendor_dirs, name);
    proof {
        lemma_remove_import_unique(state.manifest@.remote, name@);
        lemma_remove_name_unique(state.manifest@.local, name@);
        lemma_remove_name_unique(state.manifest@.global, name@);
        lemma_remove_import_unique(state.lock@.remote, name@);
        lemma_remove_name_unique(state.lock@.local, name@);
        lemma_remove_name_unique(state.lock@.global, name@);
    }
    (SimProject { manifest: new_manifest, lock: new_lock, vendor_dirs: vendor }, Result::Ok(()))
}

/// The orphans of an update: import paths resolved in the old lock record
/// but absent from the new one. Their vendor directories are the ones to
/// delete; no path is named twice.
pub fn orphan_imports(old_lock: &LockRecord, new_lock: &LockRecord) -> (r: Vec<String>)
    ensures
        forall|x: Seq<char>|
            #[trigger] names_view(r@).contains(x) <==> imports_of(old_lock@.remote).contains(x)
                && !imports_of(new_lock@.remote).contains(x),
        forall|i: int, j: int| 0 <= i < j < r@.len() ==> names_view(r@)[i] != names_view(r@)[j],
{
    let ghost old_imports = imports_of(old_lock@.remote);
    let mut r: Vec<String> = Vec::new();
    let mut k: usize = 0;
    while k < old_lock.remote.len()
        invariant
            k <= old_lock.remote@.len(),
            old_imports == imports_of(old_lock@.remote),
            forall|x: Seq<char>|
                #[trigger] names_view(r@).contains(x) ==> imports_of(
                    old_lock@.remote,
                ).contains(x) && !imports_of(new_lock@.remote).contains(x),
            forall|i: int|
                0 <= i < k ==> (imports_of(new_lock@.remote).contains(#[trigger] old_imports[i])
                    || names_view(r@).contains(old_imports[i])),
            forall|i: int, j: int|
                0 <= i < j < r@.len() ==> names_view(r@)[i] != names_view(r@)[j],
        decreases old_lock.remote@.len() - k,
    {
        let import = old_lock.remote[k].import.as_str();
        assert(old_imports[k as int] == import@);
        if !has_import(&new_lock.remote, import) && !has_name(&r, import) {
            let ghost prev = names_view(r@);
            r.push(import.to_owned());
            proof {
                assert(names_view(r@) =~= prev.push(import@));
                assert(names_view(r@).last() == import@);
                assert(forall|x: Seq<char>|
                    #[trigger] names_view(r@).contains(x) ==> x == import@ || prev.contains(
                        x,
                    ));
                assert(imports_of(old_lock@.remote).contains(import@));
                assert forall|x: Seq<char>| prev.contains(x) implies #[trigger] names_view(
                    r@,
                ).contains(x) by {
                    let i = choose|i: int| 0 <= i < prev.len() && prev[i] == x;
                    assert(names_view(r@)[i] == x);
                }
                assert(forall|i: int|
                    0 <= i < k ==> (imports_of(new_lock@.remote).contains(
                        #[trigger] old_imports[i],
                    ) || names_view(r@).contains(old_imports[i])));
            }
        } else {
            proof {
                if imports_of(new_lock@.remote).contains(import@) {
                } else {
                    assert(names_view(r@).contains(import@));
                }
            }
        }
        k = k + 1;
    }
    proof {
        assert forall|x: Seq<char>|
            imports_of(old_lock@.remote).contains(x) && !imports_of(
                new_lock@.remote,
            ).contains(x) implies #[trigger] names_view(r@).contains(x) by {
            let i = choose|i: int|
                0 <= i < old_imports.len() && old_imports[i] == x;
            assert(imports_of(new_lock@.remote).contains(old_imports[i]) || names_view(
                r@,
            ).contains(old_imports[i]));
        }
    }
    r
}

/// The resolved labels a lock record pins, keyed by import path; a later
/// entry for the same import wins.
pub open spec fn resolved_map(lock: Seq<PackageV>) -> Map<Seq<char>, Seq<char>>
    decreases lock.len(),
{
    if lock.len() == 0 {
        Map::empty()
    } else {
        let m = resolved_map(lock.drop_last());
        match lock.last().version {
            Option::Some(v) => m.insert(lock.last().import, v),
            Option::None => m,
        }
    }
}

/// The vendor tree after an exact apply, as a map from import path to the
/// revision at the checkout's head: every locked import is at its resolved
/// label and every other directory is untouched.
pub open spec fn apply_tree(
    lock: Seq<PackageV>,
    tree: Map<Seq<char>, Seq<char>>,
) -> Map<Seq<char>, Seq<char>> {
    tree.union_prefer_right(resolved_map(lock))
}

/// Applying an unchanged lock record twice leaves the vendor tree exactly
/// as one application leaves it: the second run changes nothing.
pub proof fn lemma_apply_idempotent(lock: Seq<PackageV>, tree: Map<Seq<char>, Seq<char>>)
    ensures
        apply_tree(lock, apply_tree(lock, tree)) == apply_tree(lock, tree),
{
    assert(apply_tree(lock, apply_tree(lock, tree)) =~= apply_tree(lock, tree));
}

/// Rebuild the lock record after updating a single remote package: the
/// untouched descriptors keep their order, the updated one moves to the
/// end, and the local and global sets are carried over from the manifest.
pub fn update_one_lock(manifest: Manifest, updated: Package) -> (r: LockRecord)
    ensures
        r@.remote == spec_remove_import(manifest@.remote, updated@.import).push(updated@),
        r@.local == manifest@.local,
        r@.global == manifest@.global,
{
    let mut remote = remove_package_from_array(manifest.remote, updated.import.as_str());
    let ghost removed = pkgs_view(remote@);
    remote.push(updated);
    proof {
        assert(pkgs_view(remote@) =~= removed.push(pkgs_view(remote@).last()));
    }
    LockRecord { remote, local: manifest.local, global: manifest.global }
}

/// Rebuild the lock record after reinstalling a single global package: the
/// name moves to the end of the global set, the rest is carried over.
pub fn update_global_lock(manifest: Manifest, name: String) -> (r: LockRecord)
    ensures
        r@.remote == manifest@.remote,
        r@.local == manifest@.local,
        r@.global == spec_remove_name(manifest@.global, name@).push(name@),
{
    let mut global = remove_name_from_array(manifest.global, name.as_str());
    let ghost removed = names_view(global@);
    global.push(name);
    proof {
        assert(names_view(global@) =~= removed.push(names_view(global@).last()));
    }
    LockRecord { remote: manifest.remote, local: manifest.local, global }
}

/// Which names survive, position by position.
pub open spec fn keep_flags(names: Seq<Seq<char>>, keep: Seq<bool>) -> Seq<Seq<char>>
    decreases names.len(),
{
    if names.len() == 0 {
        Seq::empty()
    } else {
        let front = keep_flags(names.drop_last(), keep.drop_last());
        if keep.len() == names.len() && keep.last() {
            front.push(names.last())
        } else {
            front
        }
    }
}

/// Keep the names whose flag is set: the intersection step of `reset`,
/// which drops local packages whose directories vanished, and the
/// collection step of a batch install, which keeps what succeeded.
pub fn filter_names(names: &Vec<String>, keep: &Vec<bool>) -> (r: Vec<String>)
    requires
        names@.len() == keep@.len(),
    ensures
        names_view(r@) == keep_flags(names_view(names@), keep@),
{
    let mut r: Vec<String> = Vec::new();
    let mut i: usize = 0;
    while i < names.len()
        invariant
            i <= names@.len(),
            names@.len() == keep@.len(),
            names_view(r@) =~= keep_flags(
                names_view(names@).take(i as int),
                keep@.take(i as int),
            ),
        decreases names@.len() - i,
    {
        let ghost nt = names_view(names@).take(i as int + 1);
        let ghost kt = keep@.take(i as int + 1);
        proof {
            assert(nt.drop_last() =~= names_view(names@).take(i as int));
            assert(kt.drop_last() =~= keep@.take(i as int));
            assert(nt.last() == names_view(names@)[i as int]);
        }
        if keep[i] {
            let ghost prev = names_view(r@);
            r.push(names[i].clone());
            proof {
                assert(names_view(r@) =~= prev.push(names_view(names@)[i as int]));
            }
        }
        i = i + 1;
    }
    proof {
        assert(names_view(names@).take(names@.len() as int) =~= names_view(names@));
        assert(keep@.take(keep@.len() as int) =~= keep@);
    }
    r
}

/// Rebuild both documents from the ground truth that `reset` gathered: the
/// remote set rediscovered from disk, the local set intersected with the
/// directories that still exist, the global set carried forward unchanged,
/// and the project-info block preserved.
pub fn reset_documents(
    info: String,
    lock_local: &Vec<String>,
    local_kept: &Vec<bool>,
    lock_global: &Vec<String>,
    scanned: Vec<Package>,
) -> (r: (Manifest, LockRecord))
    requires
        lock_local@.len() == local_kept@.len(),
    ensures
        r.0@.info == info@,
        r.0@.remote == pkgs_view(scanned@),
        r.0@.local == keep_flags(names_view(lock_local@), local_kept@),
        r.0@.global == names_view(lock_global@),
        r.1@.remote == pkgs_view(scanned@),
        r.1@.local == keep_flags(names_view(lock_local@), local_kept@),
        r.1@.global == names_view(lock_global@),
{
    let locals = filter_names(lock_local, local_kept);
    let manifest = Manifest {
        info,
        remote: clone_packages(&scanned),
        local: clone_names(&locals),
        global: clone_names(lock_global),
    };
    let lock = LockRecord { remote: scanned, local: locals, global: clone_names(lock_global) };
    (manifest, lock)
}

} // verus!
