//! The version-control collaborator: declarations and trusted wrappers
//! around the `git2` crate. Every result here depends on what is on disk or
//! on the network, so the wrappers promise nothing about the values that
//! come back; the synchronizer is verified for every outcome.

use vstd::prelude::*;

verus! {

#[verifier::external_type_specification]
#[verifier::external_body]
pub struct ExRepository(git2::Repository);

#[verifier::external_type_specification]
#[verifier::external_body]
pub struct ExGitError(git2::Error);

/// What the head of a repository points at, flattened to plain values: the
/// reference kind, the commit id in hexadecimal, and the names the kinds
/// carry. `tag_name` is looked up only for a tag reference.
pub struct HeadFacts {
    pub is_tag: bool,
    pub is_branch: bool,
    pub id_hex: String,
    pub tag_name: Option<String>,
    pub shorthand: Option<String>,
}

/// One local branch: its full reference name, its short name, whether it
/// is the checked-out head, and its upstream's name (empty when it has no
/// usable upstream). Unreadable names are handed out as empty strings.
pub struct BranchInfo {
    pub ref_name: String,
    pub short_name: String,
    pub is_head: bool,
    pub upstream: String,
}

/// Relies on `git2::Repository::clone`: clones `url` into `path`.
#[verifier::external_body]
pub fn repo_clone(url: &str, path: &str) -> Result<git2::Repository, git2::Error> {
    git2::Repository::clone(url, std::path::Path::new(path))
}

/// Relies on `git2::Repository::open`: opens the checkout at `path`.
#[verifier::external_body]
pub fn repo_open(path: &str) -> Result<git2::Repository, git2::Error> {
    git2::Repository::open(std::path::Path::new(path))
}

/// Relies on `git2::Repository::revparse_single` and `git2::Object::id`:
/// resolves a revision spec to the hexadecimal id of an object.
#[verifier::external_body]
pub(crate) fn revparse_commit_id(repo: &git2::Repository, spec: &str) -> Result<String, git2::Error> {
    repo.revparse_single(spec).map(|o| o.id().to_string())
}

/// Relies on `git2::Oid::from_str` and `git2::Repository::set_head_detached`:
/// detaches the head at the given object id.
#[verifier::external_body]
pub(crate) fn detach_head(repo: &git2::Repository, id_hex: &str) -> Result<(), git2::Error> {
    let oid = git2::Oid::from_str(id_hex)?;
    repo.set_head_detached(oid)
}

/// Relies on `git2::Oid::from_str`, `git2::Repository::find_object` and
/// `git2::Repository::reset`: hard-resets the working tree to the object.
#[verifier::external_body]
pub(crate) fn hard_reset(repo: &git2::Repository, id_hex: &str) -> Result<(), git2::Error> {
    let oid = git2::Oid::from_str(id_hex)?;
    let obj = repo.find_object(oid, None)?;
    repo.reset(&obj, git2::ResetType::Hard, None)
}

/// Relies on `git2::Repository::set_head`: points the head at a reference.
#[verifier::external_body]
pub(crate) fn set_head_ref(repo: &git2::Repository, ref_name: &str) -> Result<(), git2::Error> {
    repo.set_head(ref_name)
}

/// Relies on `git2::Repository::tag_names`: the repository's tag names, an
/// unreadable name becoming the empty string (which no version pattern
/// matches).
#[verifier::external_body]
pub fn tag_names(repo: &git2::Repository) -> Vec<String> {
    let mut out = Vec::new();
    match repo.tag_names(None) {
        Ok(names) => {
            for t in names.iter() {
                out.push(t.ok().flatten().unwrap_or("").to_string());
            }
        },
        Err(_) => (),
    }
    out
}

/// Relies on `git2::Repository::head`, `git2::Reference::resolve` and
/// `git2::Reference::target`: the commit id the head points at. A public
/// operation of the version-control collaborator; nothing can be promised
/// of it, since it reports what is on disk.
#[verifier::external_body]
pub fn get_latest_commit(repo: &git2::Repository) -> Option<String> {
    let head = repo.head().ok()?;
    let resolved = head.resolve().ok()?;
    let id = resolved.target()?;
    Some(id.to_string())
}

/// Relies on `git2::Repository::head`, `git2::Reference::{resolve, target,
/// is_tag, is_branch, shorthand}` and `git2::Repository::find_tag` with
/// `git2::Tag::name`: the facts about the head that the scanner's label
/// decision reads; the tag name is looked up only for a tag reference.
#[verifier::external_body]
pub fn head_facts(repo: &git2::Repository) -> Option<HeadFacts> {
    let resolved = repo.head().ok()?.resolve().ok()?;
    let id = resolved.target()?;
    let is_tag = resolved.is_tag();
    let tag_name = if is_tag {
        repo.find_tag(id).ok().and_then(|t| t.name().ok().map(|n| n.to_string()))
    } else {
        None
    };
    let shorthand = resolved.shorthand().ok().map(|s| s.to_string());
    let is_branch = resolved.is_branch();
    Some(HeadFacts { is_tag, is_branch, id_hex: id.to_string(), tag_name, shorthand })
}

/// Relies on `git2::Repository::branches` and `git2::Branch::{name, get,
/// is_head, upstream}`: the local branches with their upstreams, names that
/// cannot be read becoming empty strings.
#[verifier::external_body]
pub(crate) fn local_branches(repo: &git2::Repository) -> Vec<BranchInfo> {
    let mut out = Vec::new();
    let branches = match repo.branches(Some(git2::BranchType::Local)) {
        Ok(bs) => bs,
        Err(_) => return out,
    };
    for (b, _) in branches.flatten() {
        out.push(BranchInfo {
            ref_name: b.get().name().unwrap_or("").to_string(),
            short_name: b.name().ok().flatten().unwrap_or("").to_string(),
            is_head: b.is_head(),
            upstream: b.upstream().ok().and_then(|u| u.name().ok().flatten().map(
                |n| n.to_string())).unwrap_or_default(),
        });
    }
    out
}

/// Relies on `git2::Repository::{remotes, find_remote}` and
/// `git2::Remote::fetch`: fetches from the first configured remote.
#[verifier::external_body]
pub(crate) fn fetch_default_remote(repo: &git2::Repository) -> Result<(), git2::Error> {
    let remotes = repo.remotes()?;
    match remotes.get(0) {
        Ok(Some(name)) => {
            let refspecs: [&str; 0] = [];
            let mut remote = repo.find_remote(name)?;
            remote.fetch(&refspecs, None, None)
        },
        _ => Err(git2::Error::from_str("no remote is configured")),
    }
}

} // verus!
