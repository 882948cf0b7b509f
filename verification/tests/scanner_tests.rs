use rubigo::gitio::HeadFacts;
use rubigo::paths::parse_import;
use rubigo::scanner::{
    VendorDir, ScanCoordinator, scan_vendor_tree, entries_to_packages, head_label,
};
use rubigo::workflow::reset_documents;

fn leaf(name: &str, label: &str) -> VendorDir {
    VendorDir { name: name.to_string(), label: Some(label.to_string()), children: Vec::new() }
}

fn dir(name: &str, children: Vec<VendorDir>) -> VendorDir {
    VendorDir { name: name.to_string(), label: None, children }
}

#[test]
fn scan_finds_every_leaf_at_any_depth() {
    // vendor/{github.com/{a/{r1, r2}, b/r3}, shallow}
    let root = vec![
        dir(
            "github.com",
            vec![
                dir("a", vec![leaf("r1", "v1.0.0"), leaf("r2", "master")]),
                dir("b", vec![leaf("r3", "0123abcd")]),
            ],
        ),
        leaf("shallow", "v2.0.0"),
    ];
    let entries = scan_vendor_tree(&root);
    let found: Vec<(String, String)> =
        entries.iter().map(|e| (e.import.clone(), e.version.clone())).collect();
    assert_eq!(
        found,
        vec![
            ("github.com/a/r1".to_string(), "v1.0.0".to_string()),
            ("github.com/a/r2".to_string(), "master".to_string()),
            ("github.com/b/r3".to_string(), "0123abcd".to_string()),
            ("shallow".to_string(), "v2.0.0".to_string()),
        ]
    );
}

#[test]
fn scan_does_not_descend_below_a_repository_leaf() {
    // a repository that itself contains directories is one leaf
    let root = vec![VendorDir {
        name: "host".to_string(),
        label: Some("v1.0.0".to_string()),
        children: vec![leaf("nested", "ignored")],
    }];
    let entries = scan_vendor_tree(&root);
    assert_eq!(entries.len(), 1);
    assert_eq!(entries[0].import, "host");
}

#[test]
fn discovery_round_trips_into_the_lock_record() {
    // scanning and then resetting yields a lock record whose remote
    // imports are exactly the leaves, without duplicates or omissions
    let root = vec![
        dir("github.com", vec![dir("a", vec![leaf("r1", "v1.0.0"), leaf("r2", "v2.0.0")])]),
        leaf("other", "master"),
    ];
    let entries = scan_vendor_tree(&root);
    let scanned = entries_to_packages(entries);
    let (manifest, lock) =
        reset_documents("{}".to_string(), &Vec::new(), &Vec::new(), &Vec::new(), scanned);
    let imports: Vec<String> = lock.remote.iter().map(|p| p.import.clone()).collect();
    assert_eq!(
        imports,
        vec![
            "github.com/a/r1".to_string(),
            "github.com/a/r2".to_string(),
            "other".to_string(),
        ]
    );
    let mut deduped = imports.clone();
    deduped.sort();
    deduped.dedup();
    assert_eq!(deduped.len(), imports.len());
    assert_eq!(lock.remote[0].version.as_deref(), Some("v1.0.0"));
    let m_imports: Vec<String> = manifest.remote.iter().map(|p| p.import.clone()).collect();
    assert_eq!(m_imports, imports);
}

#[test]
fn the_completion_counter_reaches_zero_exactly_at_the_end() {
    // the root unit discovers two subdirectories; each completes, one with
    // a leaf; the scan is done only after the last completion
    let mut c = ScanCoordinator::new();
    assert!(!c.is_done());
    let done = c.unit_completed(2, None);
    assert!(!done);
    let done = c.unit_completed(
        0,
        Some(rubigo::scanner::ScanEntry {
            import: "host/a".to_string(),
            version: "v1.0.0".to_string(),
        }),
    );
    assert!(!done);
    let done = c.unit_completed(0, None);
    assert!(done);
    assert!(c.is_done());
    let entries = c.into_entries();
    assert_eq!(entries.len(), 1);
    assert_eq!(entries[0].import, "host/a");
}

#[test]
fn import_paths_come_from_the_components_below_the_vendor_root() {
    let components: Vec<String> =
        ["home", "project", "vendor", "github.com", "a", "b", ".git"]
            .iter()
            .map(|s| s.to_string())
            .collect();
    assert_eq!(parse_import(&components), "github.com/a/b");

    let no_vendor: Vec<String> = ["a", "b"].iter().map(|s| s.to_string()).collect();
    assert_eq!(parse_import(&no_vendor), "");
}

#[test]
fn head_labels_prefer_tag_then_branch_then_commit() {
    let id = "0123abcd".to_string();
    let f = HeadFacts {
        is_tag: true,
        is_branch: false,
        id_hex: id.clone(),
        tag_name: Some("v1.0.0".to_string()),
        shorthand: Some("master".to_string()),
    };
    assert_eq!(head_label(f), "v1.0.0");

    let f = HeadFacts {
        is_tag: false,
        is_branch: true,
        id_hex: id.clone(),
        tag_name: None,
        shorthand: Some("master".to_string()),
    };
    assert_eq!(head_label(f), "master");

    let f = HeadFacts {
        is_tag: false,
        is_branch: false,
        id_hex: id.clone(),
        tag_name: None,
        shorthand: None,
    };
    assert_eq!(head_label(f), "0123abcd");
}
