//! Tests against real repositories: the trusted layer runs here, with
//! repositories built in temporary directories and cloned over the local
//! filesystem.


use tempdir::TempDir;

use rubigo::gitio::{repo_clone, repo_open, tag_names, get_latest_commit, head_facts};
use rubigo::resolver::get_latest_compat_version;
use rubigo::scanner::head_label;
use rubigo::logger::{Logger, Verbosity};
use rubigo::sync::{get_revision_object, get_current_branch, pin_to_revision};

fn quiet() -> Logger {
    Logger::new(Verbosity::Quiet)
}

fn populate(repo: &git2::Repository) -> (git2::Oid, git2::Oid) {
    let sig = git2::Signature::now("tester", "tester@example.com").unwrap();

    let blob1 = repo.blob(b"one").unwrap();
    let mut tb = repo.treebuilder(None).unwrap();
    tb.insert("file", blob1, 0o100644).unwrap();
    let tree1 = repo.find_tree(tb.write().unwrap()).unwrap();
    let c1 = repo.commit(Some("HEAD"), &sig, &sig, "first", &tree1, &[]).unwrap();

    let parent = repo.find_commit(c1).unwrap();
    let blob2 = repo.blob(b"two").unwrap();
    let mut tb = repo.treebuilder(None).unwrap();
    tb.insert("file", blob2, 0o100644).unwrap();
    let tree2 = repo.find_tree(tb.write().unwrap()).unwrap();
    let c2 = repo.commit(Some("HEAD"), &sig, &sig, "second", &tree2, &[&parent]).unwrap();

    let obj1 = repo.find_object(c1, None).unwrap();
    repo.tag_lightweight("v1.0.0", &obj1, false).unwrap();
    let obj2 = repo.find_object(c2, None).unwrap();
    repo.tag_lightweight("v1.1.0", &obj2, false).unwrap();

    (c1, c2)
}

/// Build a repository with two commits, `v1.0.0` tagging the first and
/// `v1.1.0` the second.
fn build_repo(path: &std::path::Path) -> (git2::Repository, String, String) {
    let repo = git2::Repository::init(path).unwrap();
    let (c1, c2) = populate(&repo);
    (repo, c1.to_string(), c2.to_string())
}

#[test]
fn tags_and_head_are_read_from_a_real_repository() {
    let tmp = TempDir::new("vendor-engine-tags").unwrap();
    let (repo, _c1, c2) = build_repo(tmp.path());

    let mut tags = tag_names(&repo);
    tags.sort();
    assert_eq!(tags, vec!["v1.0.0".to_string(), "v1.1.0".to_string()]);

    assert_eq!(get_latest_commit(&repo), Some(c2.clone()));

    // the declared rule resolves against the real tag list
    assert_eq!(get_latest_compat_version(&tags, "^1.0.0"), "v1.1.0");
    assert_eq!(get_latest_compat_version(&tags, "=1.0.0"), "v1.0.0");

    // the head of a fresh repository is a branch
    let facts = head_facts(&repo).unwrap();
    assert!(facts.is_branch);
    assert_eq!(facts.id_hex, c2);
    let label = head_label(facts);
    assert!(!label.is_empty());

    assert!(get_current_branch(&repo).is_some());
}

#[test]
fn revisions_resolve_with_the_single_fallback_retry() {
    let tmp = TempDir::new("vendor-engine-resolve").unwrap();
    let (repo, c1, c2) = build_repo(tmp.path());

    // a tag resolves to its commit and keeps its label
    let (id, label) = get_revision_object(&repo, "v1.0.0", false, &quiet()).unwrap();
    assert_eq!(id, c1);
    assert_eq!(label, "v1.0.0");

    // an unknown label falls back, once, to the latest commit
    let (id, label) = get_revision_object(&repo, "no-such-ref", true, &quiet()).unwrap();
    assert_eq!(id, c2);
    assert_eq!(label, c2);

    // without the retry an unknown label fails
    assert!(get_revision_object(&repo, "no-such-ref", false, &quiet()).is_none());

    // and pinning to it reports a resolution failure
    assert_eq!(
        pin_to_revision(&repo, "no-such-ref", false, &quiet()),
        Err(rubigo::workflow::WorkflowError::VersionResolution)
    );
}

#[test]
fn a_clone_is_pinned_to_the_exact_revision() {
    let src = TempDir::new("vendor-engine-src").unwrap();
    let (_repo, c1, c2) = build_repo(src.path());

    let dst = TempDir::new("vendor-engine-dst").unwrap();
    let clone_path = dst.path().join("pkg");
    let url = src.path().to_str().unwrap();
    let cloned = repo_clone(url, clone_path.to_str().unwrap()).unwrap();

    // pin to the older tag: a detached head at exactly that commit
    let label = pin_to_revision(&cloned, "v1.0.0", false, &quiet()).unwrap();
    assert_eq!(label, "v1.0.0");
    assert_eq!(get_latest_commit(&cloned), Some(c1.clone()));
    let facts = head_facts(&cloned).unwrap();
    assert!(!facts.is_branch);
    assert_eq!(facts.id_hex, c1);

    // applying the same pinned revision again changes nothing
    let label = pin_to_revision(&cloned, "v1.0.0", false, &quiet()).unwrap();
    assert_eq!(label, "v1.0.0");
    assert_eq!(get_latest_commit(&cloned), Some(c1.clone()));

    // the checkout can be reopened and moved to the other revision
    let reopened = repo_open(clone_path.to_str().unwrap()).unwrap();
    let label = pin_to_revision(&reopened, "v1.1.0", false, &quiet()).unwrap();
    assert_eq!(label, "v1.1.0");
    assert_eq!(get_latest_commit(&reopened), Some(c2));
}
