use rubigo::package::{Manifest, LockRecord, Package};
use rubigo::sync::remote_descriptors;
use rubigo::workflow::{
    SimProject, WorkflowError, run_get_remote, run_get_local, run_get_global, run_remove,
    orphan_imports, update_one_lock, update_global_lock, filter_names, reset_documents,
};

fn pkg(import: &str, version: Option<&str>) -> Package {
    Package {
        import: import.to_string(),
        update: None,
        version: version.map(|v| v.to_string()),
        repo: None,
    }
}

fn empty_project() -> SimProject {
    SimProject {
        manifest: Manifest {
            info: "{\"name\": \"demo\"}".to_string(),
            remote: Vec::new(),
            local: Vec::new(),
            global: Vec::new(),
        },
        lock: LockRecord { remote: Vec::new(), local: Vec::new(), global: Vec::new() },
        vendor_dirs: Vec::new(),
    }
}

fn imports(pkgs: &Vec<Package>) -> Vec<String> {
    pkgs.iter().map(|p| p.import.clone()).collect()
}

#[test]
fn get_on_an_empty_project_records_both_documents() {
    // the unattended end-to-end shape: a fresh project, one remote import,
    // pinned to the repository's current commit
    let state = empty_project();
    let commit = "0123abcd0123abcd0123abcd0123abcd0123abcd";
    let (m_pkg, l_pkg) = remote_descriptors("host/org/repo", None, commit.to_string(),
        commit.to_string());
    let (state, res) = run_get_remote(state, m_pkg, l_pkg, true, true, true);
    assert!(res.is_ok());
    assert_eq!(state.manifest.remote.len(), 1);
    assert_eq!(state.manifest.remote[0].import, "host/org/repo");
    assert_eq!(state.lock.remote.len(), 1);
    assert_eq!(state.lock.remote[0].import, "host/org/repo");
    assert_eq!(state.lock.remote[0].version.as_deref(), Some(commit));
    assert_eq!(state.vendor_dirs, vec!["host/org/repo".to_string()]);
}

#[test]
fn get_refuses_a_duplicate_and_changes_nothing() {
    let mut state = empty_project();
    state.manifest.remote.push(pkg("host/org/repo", Some("^1.0.0")));
    let (m_pkg, l_pkg) = remote_descriptors("host/org/repo", None, "^1.0.0".to_string(),
        "v1.0.0".to_string());
    let (state, res) = run_get_remote(state, m_pkg, l_pkg, true, true, true);
    assert_eq!(res, Err(WorkflowError::DuplicatePackage));
    assert_eq!(state.manifest.remote.len(), 1);
    assert_eq!(state.lock.remote.len(), 0);
    assert!(state.vendor_dirs.is_empty());
}

#[test]
fn get_rolls_back_when_the_lock_write_fails() {
    // the lock-record write fails after the manifest was written: the
    // manifest is reverted to its pre-operation content and the partly
    // cloned directory is removed
    let mut state = empty_project();
    state.manifest.remote.push(pkg("host/other", Some("master")));
    let before_manifest = imports(&state.manifest.remote);
    let (m_pkg, l_pkg) = remote_descriptors("host/org/repo", None, "master".to_string(),
        "abc123".to_string());
    let (state, res) = run_get_remote(state, m_pkg, l_pkg, true, true, false);
    assert_eq!(res, Err(WorkflowError::DocumentIo));
    assert_eq!(imports(&state.manifest.remote), before_manifest);
    assert_eq!(state.lock.remote.len(), 0);
    assert!(!state.vendor_dirs.contains(&"host/org/repo".to_string()));
}

#[test]
fn get_reports_a_failed_clone_and_keeps_the_documents() {
    let state = empty_project();
    let (m_pkg, l_pkg) = remote_descriptors("host/org/repo", None, "master".to_string(),
        "abc".to_string());
    let (state, res) = run_get_remote(state, m_pkg, l_pkg, false, true, true);
    assert_eq!(res, Err(WorkflowError::RepositoryOperation));
    assert!(state.manifest.remote.is_empty());
    assert!(state.lock.remote.is_empty());
    assert!(state.vendor_dirs.is_empty());
}

#[test]
fn get_local_and_global_enforce_uniqueness() {
    let mut state = empty_project();
    state.manifest.local.push("tools".to_string());
    let (state, res) = run_get_local(state, "tools".to_string(), true, true, true);
    assert_eq!(res, Err(WorkflowError::DuplicatePackage));
    assert_eq!(state.manifest.local, vec!["tools".to_string()]);

    let mut state = empty_project();
    state.manifest.global.push("host/lint".to_string());
    let (state, res) = run_get_global(state, "host/lint".to_string(), true, true, true);
    assert_eq!(res, Err(WorkflowError::DuplicatePackage));
    assert_eq!(state.manifest.global, vec!["host/lint".to_string()]);
}

#[test]
fn get_local_creates_and_records_the_directory() {
    let state = empty_project();
    let (state, res) = run_get_local(state, "tools".to_string(), true, true, true);
    assert!(res.is_ok());
    assert_eq!(state.manifest.local, vec!["tools".to_string()]);
    assert_eq!(state.lock.local, vec!["tools".to_string()]);
    assert_eq!(state.vendor_dirs, vec!["tools".to_string()]);

    // an existing directory blocks a local package
    let (state, res) = run_get_local(state, "other".to_string(), false, true, true);
    assert_eq!(res, Err(WorkflowError::Filesystem));
    assert_eq!(state.manifest.local, vec!["tools".to_string()]);
}

#[test]
fn get_global_records_without_a_vendor_footprint() {
    let state = empty_project();
    let (state, res) = run_get_global(state, "host/lint".to_string(), true, true, true);
    assert!(res.is_ok());
    assert_eq!(state.manifest.global, vec!["host/lint".to_string()]);
    assert_eq!(state.lock.global, vec!["host/lint".to_string()]);
    assert!(state.vendor_dirs.is_empty());

    // a failed install reports and leaves the project untouched
    let (state, res) = run_get_global(state, "host/vet".to_string(), false, true, true);
    assert_eq!(res, Err(WorkflowError::RepositoryOperation));
    assert_eq!(state.manifest.global, vec!["host/lint".to_string()]);
}

#[test]
fn remove_drops_the_package_from_every_set() {
    let mut state = empty_project();
    state.manifest.remote.push(pkg("host/org/repo", Some("^1.0.0")));
    state.manifest.local.push("host/org/repo".to_string());
    state.lock.remote.push(pkg("host/org/repo", Some("v1.0.0")));
    state.lock.remote.push(pkg("host/other", Some("v2.0.0")));
    state.vendor_dirs.push("host/org/repo".to_string());

    let (state, res) = run_remove(state, "host/org/repo", true, true, true);
    assert!(res.is_ok());
    assert!(state.manifest.remote.is_empty());
    assert!(state.manifest.local.is_empty());
    assert_eq!(imports(&state.lock.remote), vec!["host/other".to_string()]);
    assert!(state.vendor_dirs.is_empty());
}

#[test]
fn remove_reverts_both_documents_when_the_deletion_fails() {
    let mut state = empty_project();
    state.manifest.remote.push(pkg("host/org/repo", Some("^1.0.0")));
    state.lock.remote.push(pkg("host/org/repo", Some("v1.0.0")));
    state.vendor_dirs.push("host/org/repo".to_string());

    let (state, res) = run_remove(state, "host/org/repo", true, true, false);
    assert_eq!(res, Err(WorkflowError::Filesystem));
    assert_eq!(imports(&state.manifest.remote), vec!["host/org/repo".to_string()]);
    assert_eq!(imports(&state.lock.remote), vec!["host/org/repo".to_string()]);
    assert_eq!(state.vendor_dirs, vec!["host/org/repo".to_string()]);
}

#[test]
fn orphans_are_the_imports_that_left_the_lock_record() {
    // old lock {A, B}, new lock {B, C}: only A's directory is an orphan
    let old_lock = LockRecord {
        remote: vec![pkg("host/a", Some("v1")), pkg("host/b", Some("v1"))],
        local: Vec::new(),
        global: Vec::new(),
    };
    let new_lock = LockRecord {
        remote: vec![pkg("host/b", Some("v2")), pkg("host/c", Some("v1"))],
        local: Vec::new(),
        global: Vec::new(),
    };
    let orphans = orphan_imports(&old_lock, &new_lock);
    assert_eq!(orphans, vec!["host/a".to_string()]);
}

#[test]
fn orphans_are_reported_once() {
    let old_lock = LockRecord {
        remote: vec![pkg("host/a", Some("v1")), pkg("host/a", Some("v2"))],
        local: Vec::new(),
        global: Vec::new(),
    };
    let new_lock = LockRecord { remote: Vec::new(), local: Vec::new(), global: Vec::new() };
    let orphans = orphan_imports(&old_lock, &new_lock);
    assert_eq!(orphans, vec!["host/a".to_string()]);
}

#[test]
fn updating_one_package_moves_it_to_the_end_of_the_lock() {
    let manifest = Manifest {
        info: String::new(),
        remote: vec![pkg("host/a", Some("^1.0.0")), pkg("host/b", Some("master"))],
        local: vec!["tools".to_string()],
        global: vec!["host/lint".to_string()],
    };
    let lock = update_one_lock(manifest, pkg("host/a", Some("v1.2.0")));
    assert_eq!(imports(&lock.remote), vec!["host/b".to_string(), "host/a".to_string()]);
    assert_eq!(lock.remote[1].version.as_deref(), Some("v1.2.0"));
    assert_eq!(lock.local, vec!["tools".to_string()]);
    assert_eq!(lock.global, vec!["host/lint".to_string()]);
}

#[test]
fn updating_one_global_package_reinstalls_it_at_the_end() {
    let manifest = Manifest {
        info: String::new(),
        remote: Vec::new(),
        local: Vec::new(),
        global: vec!["host/lint".to_string(), "host/vet".to_string()],
    };
    let lock = update_global_lock(manifest, "host/lint".to_string());
    assert_eq!(lock.global, vec!["host/vet".to_string(), "host/lint".to_string()]);
}

#[test]
fn reset_rebuilds_both_documents_from_the_ground_truth() {
    let scanned = vec![pkg("host/a", Some("v1.0.0")), pkg("host/b", Some("master"))];
    let lock_local = vec!["tools".to_string(), "gone".to_string()];
    let kept = vec![true, false];
    let lock_global = vec!["host/lint".to_string()];
    let (manifest, lock) = reset_documents(
        "{\"name\": \"demo\"}".to_string(),
        &lock_local,
        &kept,
        &lock_global,
        scanned,
    );
    assert_eq!(manifest.info, "{\"name\": \"demo\"}");
    assert_eq!(imports(&manifest.remote), vec!["host/a".to_string(), "host/b".to_string()]);
    assert_eq!(imports(&lock.remote), vec!["host/a".to_string(), "host/b".to_string()]);
    // the local set keeps only what still exists on disk
    assert_eq!(manifest.local, vec!["tools".to_string()]);
    assert_eq!(lock.local, vec!["tools".to_string()]);
    // the global set is carried forward unchanged
    assert_eq!(lock.global, vec!["host/lint".to_string()]);
}

#[test]
fn filtering_names_keeps_order() {
    let names = vec!["a".to_string(), "b".to_string(), "c".to_string()];
    let keep = vec![true, false, true];
    assert_eq!(filter_names(&names, &keep), vec!["a".to_string(), "c".to_string()]);
}
