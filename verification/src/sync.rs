//! The repository synchronizer: ensure a version-controlled checkout sits
//! at its vendor path and is hard-reset to a resolved revision, for fresh
//! installs, refreshes and exact applies.

use vstd::prelude::*;
use crate::package::Package;
use crate::workflow::WorkflowError;
use crate::logger::Logger;
use crate::paths::{strip_url_scheme, get_path_from_url, derive_import_url};
use crate::resolver::get_latest_compat_version;
use crate::gitio::{repo_clone, repo_open, revparse_commit_id, detach_head, hard_reset,
    set_head_ref, tag_names, get_latest_commit, local_branches, fetch_default_remote,
    BranchInfo};

verus! {

/// Index of the checked-out branch among the listed local branches.
pub fn find_head_branch(branches: &Vec<BranchInfo>) -> (r: Option<usize>)
    ensures
        match r {
            Option::Some(i) => i < branches@.len() && branches@[i as int].is_head
                && forall|j: int| 0 <= j < i ==> !branches@[j].is_head,
            Option::None => forall|j: int| 0 <= j < branches@.len() ==> !branches@[j].is_head,
        },
{
    let mut i: usize = 0;
    while i < branches.len()
        invariant
            i <= branches@.len(),
            forall|j: int| 0 <= j < i ==> !branches@[j].is_head,
        decreases branches@.len() - i,
    {
        if branches[i].is_head {
            return Option::Some(i);
        }
        i = i + 1;
    }
    Option::None
}

/// The short name of the branch the head is on, if any: the first branch
/// reported as head whose name could be read.
pub fn get_current_branch(repo: &git2::Repository) -> Option<String> {
    let branches = local_branches(repo);
    match find_head_branch(&branches) {
        Option::Some(i) => {
            if branches[i].short_name.as_str().unicode_len() > 0 {
                Option::Some(branches[i].short_name.clone())
            } else {
                Option::None
            }
        },
        Option::None => Option::None,
    }
}

/// Fast-forward every local branch that has a usable upstream to that
/// upstream's tip, best effort: one branch's failure does not stop the
/// others. Returns how many branches were moved.
pub fn fast_forward_branches(repo: &git2::Repository) -> (r: usize) {
    let branches = local_branches(repo);
    let mut updated: usize = 0;
    let mut i: usize = 0;
    while i < branches.len()
        invariant
            i <= branches@.len(),
            updated <= i,
        decreases branches@.len() - i,
    {
        let b = &branches[i];
        if b.ref_name.as_str().unicode_len() > 0 && b.upstream.as_str().unicode_len() > 0 {
            match revparse_commit_id(repo, b.upstream.as_str()) {
                Result::Ok(id) => {
                    match set_head_ref(repo, b.ref_name.as_str()) {
                        Result::Ok(_) => {
                            match hard_reset(repo, id.as_str()) {
                                Result::Ok(_) => {
                                    updated = updated + 1;
                                },
                                Result::Err(_) => (),
                            }
                        },
                        Result::Err(_) => (),
                    }
                },
                Result::Err(_) => (),
            }
        }
        i = i + 1;
    }
    updated
}

/// Validate a label against the repository, retrying once with the latest
/// commit when the label does not resolve (the one fallback of the
/// resolution policy); the fallback is reported as a non-fatal diagnostic.
/// Returns the object id and the label that resolved.
pub fn get_revision_object(
    repo: &git2::Repository,
    version: &str,
    should_retry: bool,
    logger: &Logger,
) -> (r: Option<(String, String)>)
    ensures
        !should_retry ==> match r {
            Option::Some(p) => p.1@ == version@,
            Option::None => true,
        },
{
    match revparse_commit_id(repo, version) {
        Result::Ok(id) => Option::Some((id, version.to_owned())),
        Result::Err(_) => {
            if !should_retry {
                return Option::None;
            }
            match get_latest_commit(repo) {
                Option::Some(latest) => match revparse_commit_id(repo, latest.as_str()) {
                    Result::Ok(id) => {
                        let mut msg = "the effective version changed to ".to_owned();
                        msg.append(latest.as_str());
                        logger.error(msg.as_str());
                        Option::Some((id, latest))
                    },
                    Result::Err(_) => Option::None,
                },
                Option::None => Option::None,
            }
        },
    }
}

/// Pin a checkout to a revision label: resolve it (with the fallback
/// retry), detach the head there and hard-reset the working tree. Returns
/// the label actually pinned; a label that resolves to no revision is a
/// resolution failure, a failed checkout step a repository failure.
pub fn pin_to_revision(repo: &git2::Repository, version: &str, should_retry: bool,
    logger: &Logger) -> (r: Result<String, WorkflowError>)
    ensures
        r matches Err(e) ==> e == WorkflowError::VersionResolution || e
            == WorkflowError::RepositoryOperation,
        !should_retry ==> match r {
            Result::Ok(l) => l@ == version@,
            Result::Err(_) => true,
        },
{
    let (id, label) = match get_revision_object(repo, version, should_retry, logger) {
        Option::Some(p) => p,
        Option::None => {
            return Result::Err(WorkflowError::VersionResolution);
        },
    };
    match detach_head(repo, id.as_str()) {
        Result::Ok(_) => (),
        Result::Err(_) => {
            return Result::Err(WorkflowError::RepositoryOperation);
        },
    }
    match hard_reset(repo, id.as_str()) {
        Result::Ok(_) => (),
        Result::Err(_) => {
            return Result::Err(WorkflowError::RepositoryOperation);
        },
    }
    Result::Ok(label)
}

/// Clone a remote package's repository to its vendor path: from the
/// override URL when one is given, else from the URL derived from the
/// import path.
pub fn clone_remote(import: &str, repo_override: Option<&str>) -> Option<git2::Repository> {
    let path = get_path_from_url(import);
    let url = match repo_override {
        Option::Some(u) => u.to_owned(),
        Option::None => derive_import_url(import),
    };
    match repo_clone(url.as_str(), path.as_str()) {
        Result::Ok(repo) => Option::Some(repo),
        Result::Err(_) => Option::None,
    }
}

/// The two descriptors a fresh install writes: the manifest entry holding
/// the declared rule and the lock entry holding the resolved label.
pub fn remote_descriptors(import: &str, repo_override: Option<&String>, rule: String,
    resolved: String) -> (r: (Package, Package))
    ensures
        r.0@.import == import@,
        r.0@.version == Option::Some(rule@),
        r.0@.update is None,
        r.1@.import == import@,
        r.1@.version == Option::Some(resolved@),
        r.1@.update is None,
        match repo_override {
            Option::Some(u) => r.0@.repo == Option::Some(u@) && r.1@.repo == Option::Some(u@),
            Option::None => r.0@.repo is None && r.1@.repo is None,
        },
{
    let manifest_pkg = Package {
        import: import.to_owned(),
        update: Option::None,
        version: Option::Some(rule),
        repo: match repo_override {
            Option::Some(u) => Option::Some(u.clone()),
            Option::None => Option::None,
        },
    };
    let lock_pkg = Package {
        import: import.to_owned(),
        update: Option::None,
        version: Option::Some(resolved),
        repo: match repo_override {
            Option::Some(u) => Option::Some(u.clone()),
            Option::None => Option::None,
        },
    };
    (manifest_pkg, lock_pkg)
}

/// Synchronize one remote package: clone or open its checkout, refresh it
/// unless this is an exact apply, re-resolve the declared rule (an apply
/// keeps the already-resolved label), and hard-reset to the result. A
/// failed step leaves the descriptor unchanged and reports which failure
/// class it was; on success the descriptor carries the label that was
/// checked out.
pub fn update_package(pkg: Package, use_clone: bool, is_apply: bool, logger: &Logger) -> (r: (
    Package,
    Option<WorkflowError>,
))
    ensures
        r.1 is Some ==> r.0@ == pkg@,
        r.1 matches Some(e) ==> e == WorkflowError::RepositoryOperation || e
            == WorkflowError::VersionResolution,
        r.1 is None ==> {
            &&& r.0@.import == pkg@.import
            &&& r.0@.update == pkg@.update
            &&& r.0@.repo == pkg@.repo
            &&& r.0@.version is Some
        },
{
    let import = strip_url_scheme(pkg.import.as_str());
    let path = get_path_from_url(import.as_str());
    let url = match &pkg.repo {
        Option::Some(u) => u.clone(),
        Option::None => derive_import_url(import.as_str()),
    };
    let repo = if use_clone {
        match repo_clone(url.as_str(), path.as_str()) {
            Result::Ok(repo) => repo,
            Result::Err(_) => {
                return (pkg, Option::Some(WorkflowError::RepositoryOperation));
            },
        }
    } else {
        match repo_open(path.as_str()) {
            Result::Ok(repo) => repo,
            Result::Err(_) => {
                return (pkg, Option::Some(WorkflowError::RepositoryOperation));
            },
        }
    };
    if !use_clone && !is_apply {
        // a refresh fetches the default remote and fast-forwards the local
        // branches before re-resolving
        match fetch_default_remote(&repo) {
            Result::Ok(_) => (),
            Result::Err(_) => {
                return (pkg, Option::Some(WorkflowError::RepositoryOperation));
            },
        }
        fast_forward_branches(&repo);
    }
    let declared = match &pkg.version {
        Option::Some(v) => v.clone(),
        Option::None => {
            return (pkg, Option::Some(WorkflowError::VersionResolution));
        },
    };
    let target = if !is_apply {
        let tags = tag_names(&repo);
        get_latest_compat_version(&tags, declared.as_str())
    } else {
        declared
    };
    let label = match pin_to_revision(&repo, target.as_str(), true, logger) {
        Result::Ok(l) => l,
        Result::Err(e) => {
            return (pkg, Option::Some(e));
        },
    };
    let out = Package {
        import: pkg.import,
        update: pkg.update,
        version: Option::Some(label),
        repo: pkg.repo,
    };
    (out, Option::None)
}

} // verus!
