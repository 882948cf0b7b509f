//! Interpreting what the user typed at the interactive prompts, and the
//! version choices a fresh install offers.

use vstd::prelude::*;
use crate::parse::{all_digits, digits_val, is_digit, chars_of, parse_num};
use crate::strutil::{dec_rep, push_char, u64_to_string};
use crate::version::{PreId, PreIdV, Version, VersionV};

verus! {

pub open spec fn lower_char(c: char) -> char {
    if 'A' <= c && c <= 'Z' {
        ((c as u8) + 32) as char
    } else {
        c
    }
}

pub open spec fn lower_seq(s: Seq<char>) -> Seq<char> {
    s.map_values(|c: char| lower_char(c))
}

pub open spec fn is_space(c: char) -> bool {
    c == ' ' || c == '\t' || c == '\n' || c == '\r'
}

pub open spec fn trim_front(s: Seq<char>) -> Seq<char>
    decreases s.len(),
{
    if s.len() > 0 && is_space(s[0]) {
        trim_front(s.drop_first())
    } else {
        s
    }
}

pub open spec fn trim_back(s: Seq<char>) -> Seq<char>
    decreases s.len(),
{
    if s.len() > 0 && is_space(s.last()) {
        trim_back(s.drop_last())
    } else {
        s
    }
}

/// The input without surrounding whitespace.
pub open spec fn trimmed(s: Seq<char>) -> Seq<char> {
    trim_back(trim_front(s))
}

/// Whether a reply counts as a yes.
pub open spec fn affirmative(s: Seq<char>) -> bool {
    let t = trimmed(lower_seq(s));
    ||| t == seq!['y']
    ||| t == seq!['y', 'e', 's']
    ||| t == seq!['y', 'e', 'a']
    ||| t == seq!['y', 'e', 'a', 'h']
    ||| t == seq!['y', 'e', 'p']
    ||| t == seq!['y', 'u', 'p']
}

proof fn lemma_trim_front_is(s: Seq<char>, k: int)
    requires
        0 <= k <= s.len(),
        forall|i: int| 0 <= i < k ==> is_space(#[trigger] s[i]),
        k == s.len() || !is_space(s[k]),
    ensures
        trim_front(s) == s.skip(k),
    decreases k,
{
    if k == 0 {
        assert(s.skip(0) =~= s);
    } else {
        lemma_trim_front_is(s.drop_first(), k - 1);
        assert(s.drop_first().skip(k - 1) =~= s.skip(k));
    }
}

proof fn lemma_trim_back_is(s: Seq<char>, e: int)
    requires
        0 <= e <= s.len(),
        forall|i: int| e <= i < s.len() ==> is_space(#[trigger] s[i]),
        e == 0 || !is_space(s[e - 1]),
    ensures
        trim_back(s) == s.take(e),
    decreases s.len(),
{
    if e == s.len() {
        if s.len() > 0 && is_space(s.last()) {
            assert(!is_space(s[e - 1]));
            assert(false);
        }
        assert(s.take(e) =~= s);
    } else {
        lemma_trim_back_is(s.drop_last(), e);
        assert(s.drop_last().take(e) =~= s.take(e));
    }
}

fn lower_vec(input: &str) -> (r: Vec<char>)
    ensures
        r@ == lower_seq(input@),
{
    let cs = chars_of(input);
    let mut r: Vec<char> = Vec::new();
    let mut i: usize = 0;
    proof {
        assert(r@ =~= lower_seq(input@).take(0));
    }
    while i < cs.len()
        invariant
            i <= cs@.len(),
            cs@ == input@,
            r@ == lower_seq(input@).take(i as int),
        decreases cs@.len() - i,
    {
        let c = cs[i];
        let lc: char = if 'A' <= c && c <= 'Z' {
            ((c as u8) + 32) as char
        } else {
            c
        };
        assert(lc == lower_char(cs@[i as int]));
        r.push(lc);
        proof {
            assert(r@ =~= lower_seq(input@).take(i as int + 1));
        }
        i = i + 1;
    }
    proof {
        assert(lower_seq(input@).take(cs@.len() as int) =~= lower_seq(input@));
    }
    r
}

fn is_space_exec(c: char) -> (r: bool)
    ensures
        r == is_space(c),
{
    c == ' ' || c == '\t' || c == '\n' || c == '\r'
}

/// The bounds of the trimmed middle of the lowered input.
fn trim_bounds(cs: &Vec<char>) -> (r: (usize, usize))
    ensures
        r.0 <= r.1 <= cs@.len(),
        cs@.subrange(r.0 as int, r.1 as int) == trimmed(cs@),
{
    let mut start: usize = 0;
    while start < cs.len() && is_space_exec(cs[start])
        invariant
            start <= cs@.len(),
            forall|i: int| 0 <= i < start ==> is_space(#[trigger] cs@[i]),
        decreases cs@.len() - start,
    {
        start = start + 1;
    }
    proof {
        lemma_trim_front_is(cs@, start as int);
    }
    let mut end: usize = cs.len();
    while end > start && is_space_exec(cs[end - 1])
        invariant
            start <= end <= cs@.len(),
            forall|i: int| end <= i < cs@.len() ==> is_space(#[trigger] cs@[i]),
            trim_front(cs@) == cs@.skip(start as int),
        decreases end,
    {
        end = end - 1;
    }
    proof {
        let mid = cs@.skip(start as int);
        assert(forall|i: int|
            end - start <= i < mid.len() ==> is_space(#[trigger] mid[i]) && mid[i]
                == cs@[i + start]);
        if end > start {
            assert(!is_space(cs@[end - 1]));
            assert(mid[end - start - 1] == cs@[end - 1]);
        }
        lemma_trim_back_is(mid, end - start);
        assert(mid.take(end - start) =~= cs@.subrange(start as int, end as int));
    }
    (start, end)
}

fn subrange_matches(cs: &Vec<char>, start: usize, end: usize, w: &[char]) -> (r: bool)
    requires
        start <= end <= cs@.len(),
    ensures
        r == (cs@.subrange(start as int, end as int) == w@),
{
    if end - start != w.len() {
        assert(cs@.subrange(start as int, end as int).len() != w@.len());
        return false;
    }
    let mut i: usize = 0;
    while i < w.len()
        invariant
            i <= w@.len(),
            start <= end <= cs@.len(),
            end - start == w@.len(),
            forall|j: int| 0 <= j < i ==> cs@[start + j] == w@[j],
        decreases w@.len() - i,
    {
        if cs[start + i] != w[i] {
            assert(cs@.subrange(start as int, end as int)[i as int] != w@[i as int]);
            return false;
        }
        i = i + 1;
    }
    assert(cs@.subrange(start as int, end as int) =~= w@);
    true
}

/// Interpret the reply to a yes-or-no prompt: a handful of casual spellings
/// of yes, after lowering and trimming, count; everything else refuses.
pub fn confirmation_prompt(input: &str) -> (r: bool)
    ensures
        r == affirmative(input@),
{
    let lw = lower_vec(input);
    let (start, end) = trim_bounds(&lw);
    let y: [char; 1] = ['y'];
    let yes: [char; 3] = ['y', 'e', 's'];
    let yea: [char; 3] = ['y', 'e', 'a'];
    let yeah: [char; 4] = ['y', 'e', 'a', 'h'];
    let yep: [char; 3] = ['y', 'e', 'p'];
    let yup: [char; 3] = ['y', 'u', 'p'];
    proof {
        assert(y@ =~= seq!['y']);
        assert(yes@ =~= seq!['y', 'e', 's']);
        assert(yea@ =~= seq!['y', 'e', 'a']);
        assert(yeah@ =~= seq!['y', 'e', 'a', 'h']);
        assert(yep@ =~= seq!['y', 'e', 'p']);
        assert(yup@ =~= seq!['y', 'u', 'p']);
    }
    subrange_matches(&lw, start, end, y.as_slice()) || subrange_matches(
        &lw,
        start,
        end,
        yes.as_slice(),
    ) || subrange_matches(&lw, start, end, yea.as_slice()) || subrange_matches(
        &lw,
        start,
        end,
        yeah.as_slice(),
    ) || subrange_matches(&lw, start, end, yep.as_slice()) || subrange_matches(
        &lw,
        start,
        end,
        yup.as_slice(),
    )
}

/// One selectable version at a fresh install: a title for the menu, the
/// rule written to the manifest, and the label that is checked out.
pub struct VersionChoice {
    pub title: String,
    pub rule: String,
    pub resolved: String,
}

/// The text of one pre-release identifier.
pub open spec fn pre_id_text(id: PreIdV) -> Seq<char> {
    match id {
        PreIdV::Num(n) => dec_rep(n),
        PreIdV::Alpha(s) => s,
    }
}

/// The dot-separated pre-release text.
pub open spec fn pre_ids_text(ids: Seq<PreIdV>) -> Seq<char>
    decreases ids.len(),
{
    if ids.len() == 0 {
        Seq::empty()
    } else if ids.len() == 1 {
        pre_id_text(ids[0])
    } else {
        pre_ids_text(ids.drop_last()) + seq!['.'] + pre_id_text(ids.last())
    }
}

/// The canonical text of a version: `major.minor.patch`, then the
/// pre-release after a dash when there is one.
pub open spec fn version_text(v: VersionV) -> Seq<char> {
    dec_rep(v.major) + seq!['.'] + dec_rep(v.minor) + seq!['.'] + dec_rep(v.patch) + (
    if v.pre.len() == 0 {
        Seq::empty()
    } else {
        seq!['-'] + pre_ids_text(v.pre)
    })
}

fn push_pre_id(out: &mut String, id: &PreId)
    ensures
        final(out)@ == old(out)@ + pre_id_text(id@),
{
    match id {
        PreId::Num(n) => {
            let t = u64_to_string(*n);
            out.append(t.as_str());
        },
        PreId::Alpha(cs) => {
            let mut i: usize = 0;
            proof {
                assert(out@ =~= old(out)@ + cs@.take(0));
            }
            while i < cs.len()
                invariant
                    i <= cs@.len(),
                    out@ == old(out)@ + cs@.take(i as int),
                decreases cs@.len() - i,
            {
                push_char(out, cs[i]);
                proof {
                    assert(cs@.take(i as int + 1) =~= cs@.take(i as int).push(cs@[i as int]));
                    assert(out@ =~= old(out)@ + cs@.take(i as int + 1));
                }
                i = i + 1;
            }
            proof {
                assert(cs@.take(cs@.len() as int) =~= cs@);
            }
        },
    }
}

/// Render the canonical text of a version.
pub fn version_text_exec(v: &Version) -> (r: String)
    ensures
        r@ == version_text(v@),
{
    let mut out = String::new();
    let t = u64_to_string(v.major);
    out.append(t.as_str());
    out.append(".");
    let t = u64_to_string(v.minor);
    out.append(t.as_str());
    out.append(".");
    let t = u64_to_string(v.patch);
    out.append(t.as_str());
    proof {
        reveal_strlit(".");
        assert("."@ =~= seq!['.']);
    }
    if v.pre.len() > 0 {
        out.append("-");
        proof {
            reveal_strlit("-");
            assert("-"@ =~= seq!['-']);
        }
        let ghost ids = v@.pre;
        let ghost base = out@;
        let mut i: usize = 0;
        proof {
            assert(pre_ids_text(ids.take(0)) =~= Seq::<char>::empty());
            assert(out@ =~= base + pre_ids_text(ids.take(0)));
        }
        while i < v.pre.len()
            invariant
                i <= v.pre@.len(),
                ids == v@.pre,
                ids.len() == v.pre@.len(),
                forall|j: int| 0 <= j < ids.len() ==> ids[j] == v.pre@[j]@,
                out@ == base + pre_ids_text(ids.take(i as int)),
            decreases v.pre@.len() - i,
        {
            if i > 0 {
                out.append(".");
            }
            push_pre_id(&mut out, &v.pre[i]);
            proof {
                reveal_strlit(".");
                assert("."@ =~= seq!['.']);
                assert(ids.take(i as int + 1).drop_last() =~= ids.take(i as int));
                assert(ids.take(i as int + 1).last() == ids[i as int]);
                if i == 0 {
                    assert(out@ =~= base + pre_ids_text(ids.take(i as int + 1)));
                } else {
                    assert(out@ =~= base + pre_ids_text(ids.take(i as int + 1)));
                }
            }
            i = i + 1;
        }
        proof {
            assert(ids.take(ids.len() as int) =~= ids);
            assert(out@ =~= version_text(v@));
        }
    } else {
        proof {
            assert(out@ =~= version_text(v@));
        }
    }
    out
}

/// The menu of versions a fresh install offers: a tilde, caret and exact
/// rule on the latest tag when there is one, the checked-out branch when
/// there is one, and always the latest commit, in that order.
pub fn version_choices(
    latest_commit: &str,
    tag: Option<(&String, &Version)>,
    branch: Option<&String>,
) -> (r: Vec<VersionChoice>)
    ensures
        ({
            let base: int = if tag is Some {
                3
            } else {
                0
            };
            let brn: int = if branch is Some {
                1
            } else {
                0
            };
            &&& r@.len() == base + brn + 1
            &&& (tag matches Some(t) ==> {
                &&& r@[0].rule@ == seq!['~'] + version_text(t.1@)
                &&& r@[1].rule@ == seq!['^'] + version_text(t.1@)
                &&& r@[2].rule@ == seq!['='] + version_text(t.1@)
                &&& r@[0].resolved@ == t.0@
                &&& r@[1].resolved@ == t.0@
                &&& r@[2].resolved@ == t.0@
            })
            &&& (branch matches Some(b) ==> r@[base].rule@ == b@ && r@[base].resolved@ == b@)
            &&& r@[base + brn].rule@ == latest_commit@
            &&& r@[base + brn].resolved@ == latest_commit@
        }),
{
    let mut r: Vec<VersionChoice> = Vec::new();
    match tag {
        Option::Some((name, ver)) => {
            let text = version_text_exec(ver);
            let mut tilde = "~".to_owned();
            tilde.append(text.as_str());
            let mut caret = "^".to_owned();
            caret.append(text.as_str());
            let mut exact = "=".to_owned();
            exact.append(text.as_str());
            proof {
                reveal_strlit("~");
                reveal_strlit("^");
                reveal_strlit("=");
                assert("~"@ =~= seq!['~']);
                assert("^"@ =~= seq!['^']);
                assert("="@ =~= seq!['=']);
            }
            r.push(VersionChoice {
                title: "Tilde (Patch)".to_owned(),
                rule: tilde,
                resolved: name.clone(),
            });
            r.push(VersionChoice {
                title: "Caret (Minor)".to_owned(),
                rule: caret,
                resolved: name.clone(),
            });
            r.push(VersionChoice {
                title: "Exact (Fixed)".to_owned(),
                rule: exact,
                resolved: name.clone(),
            });
        },
        Option::None => (),
    }
    match branch {
        Option::Some(b) => {
            r.push(VersionChoice {
                title: "Branch (HEAD)".to_owned(),
                rule: b.clone(),
                resolved: b.clone(),
            });
        },
        Option::None => (),
    }
    r.push(VersionChoice {
        title: "Latest commit".to_owned(),
        rule: latest_commit.to_owned(),
        resolved: latest_commit.to_owned(),
    });
    r
}

/// The menu a fresh install offers for this repository, or nothing when
/// the repository has no resolvable head at all; an offered menu is never
/// empty, since the latest commit is always in it.
pub fn repo_version_choices(repo: &git2::Repository) -> (r: Option<Vec<VersionChoice>>)
    ensures
        r matches Some(cs) ==> cs@.len() > 0,
{
    let latest = match crate::gitio::get_latest_commit(repo) {
        Option::Some(l) => l,
        Option::None => {
            return Option::None;
        },
    };
    let tags = crate::gitio::tag_names(repo);
    let best = crate::resolver::get_latest_version(&tags, Option::None);
    let branch = crate::sync::get_current_branch(repo);
    let branch_ref = match &branch {
        Option::Some(b) => Option::Some(b),
        Option::None => Option::None,
    };
    let choices = match &best {
        Option::Some(p) => version_choices(latest.as_str(), Option::Some((&p.0, &p.1)),
            branch_ref),
        Option::None => version_choices(latest.as_str(), Option::None, branch_ref),
    };
    Option::Some(choices)
}

/// The entry a reply picks: a quit leaves the menu, a number within range
/// picks that entry, and anything else falls back to the last entry.
pub open spec fn selected_index(n: int, input: Seq<char>) -> Option<int> {
    let t = trimmed(lower_seq(input));
    if t == seq!['q'] || t == seq!['q', 'u', 'i', 't'] {
        Option::None
    } else if t.len() > 0 && all_digits(t) && digits_val(t) <= usize::MAX && 1 <= digits_val(t)
        <= n {
        Option::Some(digits_val(t) - 1)
    } else {
        Option::Some(n - 1)
    }
}

/// Interpret the reply to the version menu: the picked entry's resolved
/// label and rule, or nothing when the user quit.
pub fn select_version(choices: &Vec<VersionChoice>, input: &str) -> (r: Option<(String, String)>)
    requires
        choices@.len() > 0,
    ensures
        ({
            match selected_index(choices@.len() as int, input@) {
                Option::Some(i) => r matches Some(p) && p.0@ == choices@[i].resolved@ && p.1@
                    == choices@[i].rule@,
                Option::None => r is None,
            }
        }),
{
    let lw = lower_vec(input);
    let (start, end) = trim_bounds(&lw);
    let q: [char; 1] = ['q'];
    let quit: [char; 4] = ['q', 'u', 'i', 't'];
    proof {
        assert(q@ =~= seq!['q']);
        assert(quit@ =~= seq!['q', 'u', 'i', 't']);
    }
    if subrange_matches(&lw, start, end, q.as_slice()) || subrange_matches(
        &lw,
        start,
        end,
        quit.as_slice(),
    ) {
        return Option::None;
    }
    let ghost t = trimmed(lower_seq(input@));
    // a number picks an entry when it is in range
    let mut numeric = start < end;
    let mut i = start;
    while i < end
        invariant
            start <= i <= end <= lw@.len(),
            numeric == (start < end && forall|j: int|
                start <= j < i ==> is_digit(#[trigger] lw@[j])),
        decreases end - i,
    {
        if !('0' <= lw[i] && lw[i] <= '9') {
            numeric = false;
        }
        i = i + 1;
    }
    proof {
        assert(t == lw@.subrange(start as int, end as int));
        assert(forall|j: int|
            0 <= j < t.len() ==> #[trigger] t[j] == lw@[start + j]);
        assert(forall|j: int|
            start <= j < end ==> #[trigger] lw@[j] == t[j - start]);
        assert(numeric == (t.len() > 0 && all_digits(t)));
    }
    let last = choices.len() - 1;
    if numeric {
        match parse_num(&lw, start, end) {
            Option::Some(v) => {
                if 1 <= v && v <= choices.len() as u64 {
                    let idx = (v as usize) - 1;
                    return Option::Some(
                        (choices[idx].resolved.clone(), choices[idx].rule.clone()),
                    );
                } else {
                    return Option::Some(
                        (choices[last].resolved.clone(), choices[last].rule.clone()),
                    );
                }
            },
            Option::None => {
                return Option::Some(
                    (choices[last].resolved.clone(), choices[last].rule.clone()),
                );
            },
        }
    }
    Option::Some((choices[last].resolved.clone(), choices[last].rule.clone()))
}

} // verus!
