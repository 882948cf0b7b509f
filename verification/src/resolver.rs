//! Tag selection: pick, among the tags that denote versions satisfying a
//! rule, the one whose version has the greatest semantic precedence. Of two
//! tags denoting the same version the earlier one in the list is kept.

use vstd::prelude::*;
use crate::version::{Version, VersionV, version_lt, version_lt_exec, lemma_version_order_trans,
    lemma_version_order_asym};
use crate::parse::{version_of_tag, extract_tag_version};
use crate::constraint::{Constraint, ConstraintV, constraint_matches, constraint_matches_exec,
    parse_constraint, constraint_of};

verus! {

/// Whether a version passes the rule; no rule admits every version.
pub open spec fn rule_admits(rule: Option<ConstraintV>, v: VersionV) -> bool {
    match rule {
        Option::None => true,
        Option::Some(c) => constraint_matches(c, v),
    }
}

/// The fold that scans a tag list left to right and keeps the tag with the
/// greatest admitted version, preferring the earlier tag on equal versions.
pub open spec fn best_tag(tags: Seq<Seq<char>>, rule: Option<ConstraintV>) -> Option<
    (Seq<char>, VersionV),
>
    decreases tags.len(),
{
    if tags.len() == 0 {
        Option::None
    } else {
        let prev = best_tag(tags.drop_last(), rule);
        let t = tags.last();
        match version_of_tag(t) {
            Option::None => prev,
            Option::Some(v) => {
                if !rule_admits(rule, v) {
                    prev
                } else {
                    match prev {
                        Option::None => Option::Some((t, v)),
                        Option::Some(pv) => {
                            if version_lt(pv.1, v) {
                                Option::Some((t, v))
                            } else {
                                prev
                            }
                        },
                    }
                }
            },
        }
    }
}

/// What the fold selects is sound and greatest: the selected tag occurs in
/// the list, denotes its version, that version is admitted, and no admitted
/// version of any tag in the list exceeds it; and the fold comes up empty
/// exactly when no tag's version is admitted.
pub proof fn lemma_best_tag_greatest(tags: Seq<Seq<char>>, rule: Option<ConstraintV>)
    ensures
        best_tag(tags, rule) matches Some(b) ==> {
            &&& exists|i: int|
                0 <= i < tags.len() && tags[i] == b.0
            &&& version_of_tag(b.0) == Option::Some(b.1)
            &&& rule_admits(rule, b.1)
            &&& forall|i: int|
                0 <= i < tags.len() ==> match version_of_tag(#[trigger] tags[i]) {
                    Option::Some(v) => rule_admits(rule, v) ==> !version_lt(b.1, v),
                    Option::None => true,
                }
        },
        best_tag(tags, rule) is None ==> forall|i: int|
            0 <= i < tags.len() ==> match version_of_tag(#[trigger] tags[i]) {
                Option::Some(v) => !rule_admits(rule, v),
                Option::None => true,
            },
    decreases tags.len(),
{
    if tags.len() > 0 {
        lemma_best_tag_greatest(tags.drop_last(), rule);
        let front = tags.drop_last();
        let t = tags.last();
        assert(forall|i: int| 0 <= i < front.len() ==> front[i] == tags[i]);
        match best_tag(tags, rule) {
            Option::Some(b) => {
                lemma_version_order_asym(b.1, b.1);
                assert(!version_lt(b.1, b.1));
                match best_tag(front, rule) {
                    Option::Some(pb) => {
                        if version_of_tag(t) matches Some(v) && rule_admits(rule, v)
                            && version_lt(pb.1, v) {
                            // the last tag wins: everything at most pb.1 is below v too
                            assert forall|i: int| 0 <= i < tags.len() implies match version_of_tag(
                                #[trigger] tags[i],
                            ) {
                                Option::Some(w) => rule_admits(rule, w) ==> !version_lt(b.1, w),
                                Option::None => true,
                            } by {
                                if i < front.len() {
                                    assert(front[i] == tags[i]);
                                    match version_of_tag(front[i]) {
                                        Option::Some(w) => {
                                            if rule_admits(rule, w) && version_lt(b.1, w) {
                                                lemma_version_order_trans(pb.1, b.1, w);
                                            }
                                        },
                                        Option::None => (),
                                    }
                                } else {
                                    assert(tags[i] == t);
                                }
                            }
                            assert(tags[tags.len() - 1] == b.0);
                        } else {
                            assert(b == pb);
                            assert forall|i: int| 0 <= i < tags.len() implies match version_of_tag(
                                #[trigger] tags[i],
                            ) {
                                Option::Some(w) => rule_admits(rule, w) ==> !version_lt(b.1, w),
                                Option::None => true,
                            } by {
                                if i < front.len() {
                                    assert(front[i] == tags[i]);
                                    assert(version_of_tag(front[i]) == version_of_tag(tags[i]));
                                } else {
                                    assert(tags[i] == t);
                                }
                            }
                            let wi = choose|i: int| 0 <= i < front.len() && front[i] == b.0;
                            assert(tags[wi] == b.0);
                        }
                    },
                    Option::None => {
                        assert(tags[tags.len() - 1] == b.0);
                        assert forall|i: int| 0 <= i < tags.len() implies match version_of_tag(
                            #[trigger] tags[i],
                        ) {
                            Option::Some(w) => rule_admits(rule, w) ==> !version_lt(b.1, w),
                            Option::None => true,
                        } by {
                            if i < front.len() {
                                assert(front[i] == tags[i]);
                                assert(version_of_tag(front[i]) == version_of_tag(tags[i]));
                            } else {
                                assert(tags[i] == t);
                            }
                        }
                    },
                }
            },
            Option::None => {
                assert forall|i: int| 0 <= i < tags.len() implies match version_of_tag(
                    #[trigger] tags[i],
                ) {
                    Option::Some(w) => !rule_admits(rule, w),
                    Option::None => true,
                } by {
                    if i < front.len() {
                        assert(front[i] == tags[i]);
                        assert(version_of_tag(front[i]) == version_of_tag(tags[i]));
                    } else {
                        assert(tags[i] == t);
                    }
                }
            },
        }
    }
}

/// View of an optional borrowed rule.
pub open spec fn rule_view(rule: Option<&Constraint>) -> Option<ConstraintV> {
    match rule {
        Option::Some(c) => Option::Some(c@),
        Option::None => Option::None,
    }
}

/// Select, from a list of tag names, the tag with the greatest version that
/// satisfies the rule, together with that parsed version.
pub fn get_latest_version(tags: &Vec<String>, rule: Option<&Constraint>) -> (r: Option<
    (String, Version),
>)
    ensures
        ({
            let tv = tags@.map_values(|s: String| s@);
            let rv = rule_view(rule);
            match r {
                Option::Some(p) => best_tag(tv, rv) matches Some(b) && b.0 == p.0@ && b.1
                    == p.1@,
                Option::None => best_tag(tv, rv) is None,
            }
        }),
{
    let ghost tv = tags@.map_values(|s: String| s@);
    let ghost rv = rule_view(rule);
    let mut sel: Option<(String, Version)> = Option::None;
    let mut i: usize = 0;
    proof {
        assert(tv.take(0) =~= Seq::<Seq<char>>::empty());
    }
    while i < tags.len()
        invariant
            i <= tags.len(),
            tv == tags@.map_values(|s: String| s@),
            rv == rule_view(rule),
            match sel {
                Option::Some(p) => best_tag(tv.take(i as int), rv) matches Some(b) && b.0
                    == p.0@ && b.1 == p.1@,
                Option::None => best_tag(tv.take(i as int), rv) is None,
            },
        decreases tags.len() - i,
    {
        let ghost pre_take = tv.take(i as int);
        proof {
            assert(tv.take(i as int + 1).drop_last() =~= pre_take);
            assert(tv.take(i as int + 1).last() == tags@[i as int]@);
        }
        let tag: &String = &tags[i];
        match extract_tag_version(tag.as_str()) {
            Option::Some(v) => {
                let admitted = match rule {
                    Option::Some(c) => constraint_matches_exec(c, &v),
                    Option::None => true,
                };
                if admitted {
                    let better = match &sel {
                        Option::Some(p) => version_lt_exec(&p.1, &v),
                        Option::None => true,
                    };
                    if better {
                        sel = Option::Some((tag.clone(), v));
                    }
                }
            },
            Option::None => (),
        }
        i = i + 1;
    }
    proof {
        assert(tv.take(tags.len() as int) =~= tv);
    }
    sel
}

/// The label a range-style rule resolves to: the best matching tag's name,
/// or the rule string itself when it is no range or nothing matches it.
pub open spec fn compat_label(tags: Seq<Seq<char>>, rule: Seq<char>) -> Seq<char> {
    match constraint_of(rule) {
        Option::None => rule,
        Option::Some(c) => match best_tag(tags, Option::Some(c)) {
            Option::None => rule,
            Option::Some(b) => b.0,
        },
    }
}

/// Rewrite a manifest constraint to the tag it currently resolves to; a
/// constraint that is no range, or that no tag satisfies, stays unchanged
/// and is later treated as a branch name or raw revision.
pub fn get_latest_compat_version(tags: &Vec<String>, rule: &str) -> (r: String)
    ensures
        r@ == compat_label(tags@.map_values(|s: String| s@), rule@),
{
    match parse_constraint(rule) {
        Option::Some(c) => match get_latest_version(tags, Option::Some(&c)) {
            Option::Some(p) => p.0,
            Option::None => rule.to_owned(),
        },
        Option::None => rule.to_owned(),
    }
}

} // verus!
