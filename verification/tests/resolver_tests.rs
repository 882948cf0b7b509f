use rubigo::constraint::{parse_constraint, constraint_matches_exec, Constraint, ConstraintOp};
use rubigo::parse::extract_tag_version;
use rubigo::resolver::{get_latest_version, get_latest_compat_version};
use rubigo::version::{version_lt_exec, PreId, Version};

fn ver(tag: &str) -> Version {
    extract_tag_version(tag).expect(tag)
}

#[test]
fn tag_extraction_accepts_the_documented_shapes() {
    let v = ver("v1.2.3");
    assert_eq!((v.major, v.minor, v.patch), (1, 2, 3));
    assert_eq!(v.pre.len(), 0);

    // minor and patch default to zero when omitted
    let v = ver("1.2");
    assert_eq!((v.major, v.minor, v.patch), (1, 2, 0));
    let v = ver("v2");
    assert_eq!((v.major, v.minor, v.patch), (2, 0, 0));

    // a pre-release suffix is split into identifiers
    let v = ver("1.2.3-alpha.1");
    assert_eq!((v.major, v.minor, v.patch), (1, 2, 3));
    assert_eq!(v.pre.len(), 2);
    assert!(matches!(v.pre[0], PreId::Alpha(_)));
    assert!(matches!(v.pre[1], PreId::Num(1)));
}

#[test]
fn tag_extraction_skips_unusable_tags() {
    assert!(extract_tag_version("abc").is_none());
    assert!(extract_tag_version("").is_none());
    assert!(extract_tag_version("v").is_none());
    // a suffix that does not start with a dash is no version
    assert!(extract_tag_version("v1.2.3rc1").is_none());
    // an empty pre-release identifier is rejected
    assert!(extract_tag_version("1.2.3-").is_none());
    assert!(extract_tag_version("1.2.3-a..b").is_none());
}

#[test]
fn tag_extraction_is_greedy_from_the_left() {
    // the dot after the major run is consumed even with no digits after it
    let v = ver("1..2");
    assert_eq!((v.major, v.minor, v.patch), (1, 0, 2));
    // leading zeroes in the numeric components are read by value
    let v = ver("v00.01.2");
    assert_eq!((v.major, v.minor, v.patch), (0, 1, 2));
}

#[test]
fn tag_extraction_respects_machine_range() {
    // the largest representable component still parses
    let v = ver("v18446744073709551615");
    assert_eq!(v.major, u64::MAX);
    // one past it does not
    assert!(extract_tag_version("v18446744073709551616").is_none());
}

#[test]
fn an_empty_tag_list_resolves_nothing() {
    let tags: Vec<String> = Vec::new();
    assert!(get_latest_version(&tags, None).is_none());
    assert_eq!(get_latest_compat_version(&tags, "^1.0.0"), "^1.0.0");
}

#[test]
fn precedence_orders_numbers_numerically() {
    // 1.9.0 < 1.10.0 even though "1.10.0" sorts before "1.9.0" as text
    assert!(version_lt_exec(&ver("v1.9.0"), &ver("v1.10.0")));
    assert!(!version_lt_exec(&ver("v1.10.0"), &ver("v1.9.0")));
}

#[test]
fn precedence_orders_pre_releases_below_their_release() {
    assert!(version_lt_exec(&ver("1.0.0-alpha"), &ver("1.0.0")));
    assert!(!version_lt_exec(&ver("1.0.0"), &ver("1.0.0-alpha")));
    // a longer identifier list outranks its prefix
    assert!(version_lt_exec(&ver("1.0.0-alpha"), &ver("1.0.0-alpha.1")));
    // numeric identifiers come before alphanumeric ones
    assert!(version_lt_exec(&ver("1.0.0-1"), &ver("1.0.0-alpha")));
    // and numeric identifiers compare by value
    assert!(version_lt_exec(&ver("1.0.0-2"), &ver("1.0.0-10")));
    assert!(version_lt_exec(&ver("1.0.0-alpha"), &ver("1.0.0-beta")));
}

#[test]
fn constraint_grammar_is_strict() {
    let c = parse_constraint("^1.2.0").unwrap();
    assert!(matches!(c.op, ConstraintOp::Caret));
    assert_eq!(c.major, 1);
    assert_eq!(c.minor, Some(2));
    assert_eq!(c.patch, Some(0));

    let c = parse_constraint("~1.2").unwrap();
    assert!(matches!(c.op, ConstraintOp::Tilde));
    assert_eq!(c.minor, Some(2));
    assert_eq!(c.patch, None);

    // a bare version means a caret range
    let c = parse_constraint("1.2.3").unwrap();
    assert!(matches!(c.op, ConstraintOp::Caret));

    let c = parse_constraint("=1.2.3").unwrap();
    assert!(matches!(c.op, ConstraintOp::Exact));

    // branch names and raw revisions are no ranges
    assert!(parse_constraint("master").is_none());
    assert!(parse_constraint("1.2.3junk").is_none());
    assert!(parse_constraint("").is_none());
}

fn matches(rule: &str, tag: &str) -> bool {
    let c: Constraint = parse_constraint(rule).unwrap();
    constraint_matches_exec(&c, &ver(tag))
}

#[test]
fn range_matching_follows_semantic_versioning() {
    assert!(matches("^1.2.0", "v1.2.0"));
    assert!(matches("^1.2.0", "v1.9.0"));
    assert!(!matches("^1.2.0", "v1.1.9"));
    assert!(!matches("^1.2.0", "v2.0.0"));
    // a pre-release is admitted only by a pre-release rule on its triple
    assert!(!matches("^1.2.0", "v1.10.0-alpha"));
    assert!(matches("^1.2.0-alpha", "v1.2.0-beta"));
    assert!(!matches("^1.2.0-beta", "v1.2.0-alpha"));

    assert!(matches("~1.2.0", "v1.2.9"));
    assert!(!matches("~1.2.0", "v1.3.0"));
    assert!(matches("~1", "v1.9.0"));
    assert!(!matches("~1", "v2.0.0"));

    assert!(matches("=1.2.3", "v1.2.3"));
    assert!(!matches("=1.2.3", "v1.2.4"));

    // caret ranges on a zero major stay within the next component
    assert!(matches("^0.2.3", "0.2.9"));
    assert!(!matches("^0.2.3", "0.3.0"));
    assert!(matches("^0.0.3", "0.0.3"));
    assert!(!matches("^0.0.3", "0.0.4"));
}

#[test]
fn resolver_selects_the_greatest_matching_tag() {
    let tags: Vec<String> = ["v1.2.0", "v1.9.0", "v1.10.0-alpha", "v2.0.0", "noise"]
        .iter()
        .map(|s| s.to_string())
        .collect();
    let rule = parse_constraint("^1.2.0").unwrap();
    let (tag, v) = get_latest_version(&tags, Some(&rule)).unwrap();
    // the pre-release v1.10.0-alpha is not admitted, so v1.9.0 wins
    assert_eq!(tag, "v1.9.0");
    assert_eq!((v.major, v.minor, v.patch), (1, 9, 0));

    // without a rule the greatest version overall wins
    let (tag, _) = get_latest_version(&tags, None).unwrap();
    assert_eq!(tag, "v2.0.0");

    // nothing matches: no selection
    let rule = parse_constraint("^9.0.0").unwrap();
    assert!(get_latest_version(&tags, Some(&rule)).is_none());
}

#[test]
fn resolver_prefers_the_earlier_tag_on_equal_versions() {
    let tags: Vec<String> = ["1.2.3", "v1.2.3"].iter().map(|s| s.to_string()).collect();
    let (tag, _) = get_latest_version(&tags, None).unwrap();
    assert_eq!(tag, "1.2.3");
}

#[test]
fn compat_rewrite_keeps_non_ranges_and_unmatched_rules() {
    let tags: Vec<String> = ["v1.2.0", "v1.9.0"].iter().map(|s| s.to_string()).collect();
    assert_eq!(get_latest_compat_version(&tags, "^1.2.0"), "v1.9.0");
    assert_eq!(get_latest_compat_version(&tags, "master"), "master");
    assert_eq!(get_latest_compat_version(&tags, "^9.0.0"), "^9.0.0");
}
