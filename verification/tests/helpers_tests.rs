use rubigo::listing::list;
use rubigo::package::{LockRecord, Package};
use rubigo::paths::{strip_url_scheme, get_path_from_url, derive_import_url};
use rubigo::prompt::{confirmation_prompt, version_choices, select_version};
use rubigo::strutil::u64_to_string;
use rubigo::parse::extract_tag_version;

#[test]
fn url_schemes_are_stripped_wherever_they_occur() {
    assert_eq!(strip_url_scheme("https://github.com/a/b"), "github.com/a/b");
    assert_eq!(strip_url_scheme("http://github.com/a/b"), "github.com/a/b");
    assert_eq!(strip_url_scheme("github.com/a/b"), "github.com/a/b");
    assert_eq!(strip_url_scheme("a/https://b"), "a/b");
    assert_eq!(strip_url_scheme(""), "");
}

#[test]
fn vendor_paths_nest_the_import_below_the_root() {
    assert_eq!(get_path_from_url("github.com/a/b"), "vendor/github.com/a/b");
    assert_eq!(get_path_from_url("local"), "vendor/local");
}

#[test]
fn clone_urls_are_derived_with_the_hosting_rewrite() {
    assert_eq!(derive_import_url("github.com/a/b"), "https://github.com/a/b");
    assert_eq!(derive_import_url("golang.org/x/net"), "https://go.googlesource.com/net");
    assert_eq!(derive_import_url("golang.org/y/net"), "https://golang.org/y/net");
}

#[test]
fn confirmation_accepts_the_casual_spellings_of_yes() {
    assert!(confirmation_prompt("y"));
    assert!(confirmation_prompt("YES"));
    assert!(confirmation_prompt("  yeah \n"));
    assert!(confirmation_prompt("Yup"));
    assert!(confirmation_prompt("yep"));
    assert!(confirmation_prompt("yea"));
    assert!(!confirmation_prompt("no"));
    assert!(!confirmation_prompt(""));
    assert!(!confirmation_prompt("yess"));
}

#[test]
fn decimal_rendering_is_exact() {
    assert_eq!(u64_to_string(0), "0");
    assert_eq!(u64_to_string(7), "7");
    assert_eq!(u64_to_string(42), "42");
    assert_eq!(u64_to_string(10100), "10100");
    assert_eq!(u64_to_string(u64::MAX), "18446744073709551615");
}

#[test]
fn the_version_menu_offers_rules_on_the_latest_tag() {
    let tag_name = "v1.2.3".to_string();
    let ver = extract_tag_version("v1.2.3").unwrap();
    let branch = "master".to_string();
    let commit = "0123abcd".to_string();
    let choices = version_choices(&commit, Some((&tag_name, &ver)), Some(&branch));
    assert_eq!(choices.len(), 5);
    assert_eq!(choices[0].rule, "~1.2.3");
    assert_eq!(choices[1].rule, "^1.2.3");
    assert_eq!(choices[2].rule, "=1.2.3");
    assert_eq!(choices[0].resolved, "v1.2.3");
    assert_eq!(choices[3].rule, "master");
    assert_eq!(choices[4].rule, "0123abcd");
    assert_eq!(choices[4].resolved, "0123abcd");

    // a pre-release tag keeps its suffix in the offered rules
    let tag_name = "v2.0.0-rc.1".to_string();
    let ver = extract_tag_version("v2.0.0-rc.1").unwrap();
    let choices = version_choices(&commit, Some((&tag_name, &ver)), None);
    assert_eq!(choices.len(), 4);
    assert_eq!(choices[0].rule, "~2.0.0-rc.1");

    // without tag and branch only the latest commit is offered
    let choices = version_choices(&commit, None, None);
    assert_eq!(choices.len(), 1);
    assert_eq!(choices[0].rule, "0123abcd");
}

#[test]
fn menu_replies_pick_in_range_quit_or_the_default() {
    let commit = "0123abcd".to_string();
    let branch = "master".to_string();
    let choices = version_choices(&commit, None, Some(&branch));
    assert_eq!(choices.len(), 2);

    // a number in range picks that entry
    let (resolved, rule) = select_version(&choices, "1").unwrap();
    assert_eq!(resolved, "master");
    assert_eq!(rule, "master");

    // quitting gives nothing
    assert!(select_version(&choices, "q").is_none());
    assert!(select_version(&choices, " QUIT ").is_none());

    // out of range and non-numeric replies fall back to the last entry
    let (resolved, _) = select_version(&choices, "99").unwrap();
    assert_eq!(resolved, "0123abcd");
    let (resolved, _) = select_version(&choices, "default please").unwrap();
    assert_eq!(resolved, "0123abcd");
    let (resolved, _) = select_version(&choices, "0").unwrap();
    assert_eq!(resolved, "0123abcd");
}

#[test]
fn the_listing_renders_the_selected_sections() {
    let lock = LockRecord {
        remote: vec![
            Package {
                import: "host/a".to_string(),
                update: None,
                version: Some("v1.0.0".to_string()),
                repo: Some("https://mirror/a".to_string()),
            },
            Package {
                import: "host/b".to_string(),
                update: None,
                version: None,
                repo: None,
            },
        ],
        local: vec!["tools".to_string()],
        global: Vec::new(),
    };
    let all = list(false, false, false, &lock);
    let expected = "Remote packages (2):\n\
                    [1]\tImport: host/a\n\tVersion: v1.0.0\n\tRepository: https://mirror/a\n\n\
                    [2]\tImport: host/b\n\n\
                    Local packages (1):\n\
                    [1]\tImport: tools\n\n";
    assert_eq!(all, expected);

    // the empty global set prints no section at all
    assert_eq!(list(false, false, true, &lock), "");
    // a single selected section prints only itself
    assert_eq!(list(true, false, false, &lock), "Local packages (1):\n[1]\tImport: tools\n\n");
}
