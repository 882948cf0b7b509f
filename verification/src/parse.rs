//! Extraction of semantic versions from repository tag names.
//!
//! A tag yields a version when it has the shape
//! `v?<major>[.<minor>[.<patch>]][-<pre-release>]`: an optional leading `v`,
//! a required run of major digits, optional minor and patch runs each after
//! an optional dot (defaulting to `0` when empty), and an optional suffix.
//! An empty suffix is a release; a suffix starting with `-` is a dot-
//! separated pre-release list; any other suffix makes the tag unusable.

use vstd::prelude::*;
use crate::version::{PreId, PreIdV, Version, VersionV};

verus! {

pub open spec fn is_digit(c: char) -> bool {
    '0' <= c && c <= '9'
}

pub open spec fn digit_val(c: char) -> int {
    c as int - '0' as int
}

/// Length of the leading run of digits.
pub open spec fn digits_len(s: Seq<char>) -> int
    decreases s.len(),
{
    if s.len() > 0 && is_digit(s[0]) {
        1 + digits_len(s.drop_first())
    } else {
        0
    }
}

/// Numeric value of a digit string read in base ten.
pub open spec fn digits_val(s: Seq<char>) -> int
    decreases s.len(),
{
    if s.len() == 0 {
        0
    } else {
        digits_val(s.drop_last()) * 10 + digit_val(s.last())
    }
}

pub open spec fn all_digits(s: Seq<char>) -> bool {
    forall|i: int| 0 <= i < s.len() ==> is_digit(s[i])
}

/// A character allowed in a pre-release identifier.
pub open spec fn valid_id_char(c: char) -> bool {
    is_digit(c) || ('a' <= c && c <= 'z') || ('A' <= c && c <= 'Z') || c == '-'
}

/// A valid pre-release identifier: nonempty, made of allowed characters,
/// and if numeric then without a leading zero and within machine range.
pub open spec fn valid_pre_id(s: Seq<char>) -> bool {
    &&& s.len() > 0
    &&& (forall|i: int| 0 <= i < s.len() ==> valid_id_char(s[i]))
    &&& (all_digits(s) ==> (s.len() == 1 || s[0] != '0') && digits_val(s) <= u64::MAX)
}

/// The mathematical value of one valid identifier.
pub open spec fn pre_id_of(s: Seq<char>) -> PreIdV {
    if all_digits(s) {
        PreIdV::Num(digits_val(s))
    } else {
        PreIdV::Alpha(s)
    }
}

/// The chunks obtained by splitting on `.`; splitting an empty sequence
/// gives one empty chunk, so every trailing dot yields an empty chunk.
pub open spec fn split_dots(s: Seq<char>) -> Seq<Seq<char>>
    decreases s.len(),
{
    if s.len() == 0 {
        seq![Seq::<char>::empty()]
    } else if s[0] == '.' {
        seq![Seq::<char>::empty()] + split_dots(s.drop_first())
    } else {
        let rest = split_dots(s.drop_first());
        seq![seq![s[0]] + rest[0]] + rest.skip(1)
    }
}

/// A dot-separated pre-release list, when every chunk is a valid identifier.
pub open spec fn parse_ids(s: Seq<char>) -> Option<Seq<PreIdV>> {
    let chunks = split_dots(s);
    if forall|i: int| 0 <= i < chunks.len() ==> valid_pre_id(#[trigger] chunks[i]) {
        Some(chunks.map_values(|c: Seq<char>| pre_id_of(c)))
    } else {
        None
    }
}

/// Pre-release identifiers denoted by a tag suffix.
pub open spec fn suffix_pre_ids(sfx: Seq<char>) -> Option<Seq<PreIdV>> {
    if sfx.len() == 0 {
        Some(Seq::<PreIdV>::empty())
    } else if sfx[0] == '-' {
        parse_ids(sfx.drop_first())
    } else {
        None
    }
}

/// The four raw parts of a tag name: major, minor and patch digit runs and
/// the remaining suffix.
pub ghost struct TagQuad {
    pub major: Seq<char>,
    pub minor: Seq<char>,
    pub patch: Seq<char>,
    pub suffix: Seq<char>,
}

/// Split a tag name into its quadruple, greedily and from the left; the
/// major digit run must be nonempty.
pub open spec fn tag_quad(s: Seq<char>) -> Option<TagQuad> {
    let t = if s.len() > 0 && s[0] == 'v' {
        s.drop_first()
    } else {
        s
    };
    let m = digits_len(t);
    if m == 0 {
        None
    } else {
        let r1 = t.skip(m);
        let r2 = if r1.len() > 0 && r1[0] == '.' {
            r1.drop_first()
        } else {
            r1
        };
        let n = digits_len(r2);
        let r3 = r2.skip(n);
        let r4 = if r3.len() > 0 && r3[0] == '.' {
            r3.drop_first()
        } else {
            r3
        };
        let p = digits_len(r4);
        Some(TagQuad {
            major: t.take(m),
            minor: r2.take(n),
            patch: r4.take(p),
            suffix: r4.skip(p),
        })
    }
}

/// The version denoted by a tag name, if any: empty minor and patch runs
/// default to `0`, and a tag is unusable when it has no major digits, a
/// component above machine range, or a malformed suffix.
pub open spec fn version_of_tag(s: Seq<char>) -> Option<VersionV> {
    match tag_quad(s) {
        Option::None => Option::None,
        Option::Some(q) => {
            if digits_val(q.major) > u64::MAX || digits_val(q.minor) > u64::MAX || digits_val(
                q.patch,
            ) > u64::MAX {
                Option::None
            } else {
                match suffix_pre_ids(q.suffix) {
                    Option::None => Option::None,
                    Option::Some(pre) => Option::Some(
                        VersionV {
                            major: digits_val(q.major),
                            minor: digits_val(q.minor),
                            patch: digits_val(q.patch),
                            pre: pre,
                        },
                    ),
                }
            }
        },
    }
}

proof fn lemma_digits_len_is(s: Seq<char>, j: int)
    requires
        0 <= j <= s.len(),
        forall|i: int| 0 <= i < j ==> is_digit(#[trigger] s[i]),
        j == s.len() || !is_digit(s[j]),
    ensures
        digits_len(s) == j,
    decreases j,
{
    if j > 0 {
        lemma_digits_len_is(s.drop_first(), j - 1);
    }
}

proof fn lemma_digits_val_nonneg(s: Seq<char>)
    requires
        all_digits(s),
    ensures
        digits_val(s) >= 0,
    decreases s.len(),
{
    if s.len() > 0 {
        assert(all_digits(s.drop_last()));
        lemma_digits_val_nonneg(s.drop_last());
    }
}

proof fn lemma_digits_val_step(s: Seq<char>, k: int)
    requires
        0 <= k < s.len(),
    ensures
        digits_val(s.take(k + 1)) == digits_val(s.take(k)) * 10 + digit_val(s[k]),
{
    assert(s.take(k + 1).drop_last() =~= s.take(k));
    assert(s.take(k + 1).last() == s[k]);
}

proof fn lemma_digits_val_mono(s: Seq<char>, i: int)
    requires
        all_digits(s),
        0 <= i <= s.len(),
    ensures
        digits_val(s.take(i)) <= digits_val(s),
    decreases s.len() - i,
{
    if i == s.len() {
        assert(s.take(i) =~= s);
    } else {
        lemma_digits_val_step(s, i);
        assert(all_digits(s.take(i)));
        lemma_digits_val_nonneg(s.take(i));
        lemma_digits_val_mono(s, i + 1);
    }
}

proof fn lemma_split_dots_no_dot(s: Seq<char>)
    requires
        forall|i: int| 0 <= i < s.len() ==> #[trigger] s[i] != '.',
    ensures
        split_dots(s) =~~= seq![s],
    decreases s.len(),
{
    if s.len() > 0 {
        lemma_split_dots_no_dot(s.drop_first());
        assert(seq![s[0]] + s.drop_first() =~= s);
    }
}

proof fn lemma_split_dots_at(s: Seq<char>, d: int)
    requires
        0 <= d < s.len(),
        s[d] == '.',
        forall|i: int| 0 <= i < d ==> #[trigger] s[i] != '.',
    ensures
        split_dots(s) =~~= seq![s.take(d)] + split_dots(s.skip(d + 1)),
    decreases d,
{
    if d == 0 {
        assert(s.take(0) =~= Seq::<char>::empty());
        assert(s.drop_first() =~= s.skip(1));
    } else {
        lemma_split_dots_at(s.drop_first(), d - 1);
        assert(s.drop_first().skip(d) =~= s.skip(d + 1));
        let rest = split_dots(s.drop_first());
        assert(rest =~~= seq![s.drop_first().take(d - 1)] + split_dots(s.skip(d + 1)));
        assert(seq![s[0]] + s.drop_first().take(d - 1) =~= s.take(d));
    }
}

/// Characters of a string, one per unicode scalar.
pub fn chars_of(s: &str) -> (r: Vec<char>)
    ensures
        r@ == s@,
{
    let n = s.unicode_len();
    let mut r: Vec<char> = Vec::new();
    let mut i: usize = 0;
    while i < n
        invariant
            i <= n,
            n == s@.len(),
            r@ =~= s@.take(i as int),
        decreases n - i,
    {
        r.push(s.get_char(i));
        assert(r@ =~= s@.take(i as int + 1));
        i = i + 1;
    }
    assert(r@ =~= s@);
    r
}

fn is_digit_exec(c: char) -> (r: bool)
    ensures
        r == is_digit(c),
{
    '0' <= c && c <= '9'
}

fn valid_id_char_exec(c: char) -> (r: bool)
    ensures
        r == valid_id_char(c),
{
    ('0' <= c && c <= '9') || ('a' <= c && c <= 'z') || ('A' <= c && c <= 'Z') || c == '-'
}

/// End of the run of digits that starts at `start`.
pub fn digit_run_end(cs: &Vec<char>, start: usize) -> (e: usize)
    requires
        start <= cs@.len(),
    ensures
        start <= e <= cs@.len(),
        digits_len(cs@.skip(start as int)) == e - start,
        forall|x: int| start <= x < e ==> is_digit(#[trigger] cs@[x]),
{
    let mut e = start;
    while e < cs.len() && is_digit_exec(cs[e])
        invariant
            start <= e <= cs@.len(),
            forall|x: int| start <= x < e ==> is_digit(#[trigger] cs@[x]),
        decreases cs@.len() - e,
    {
        e = e + 1;
    }
    proof {
        let t = cs@.skip(start as int);
        lemma_digits_len_is(t, e - start);
    }
    e
}

/// Base-ten value of a digit run, or `None` when it is above `u64` range.
pub fn parse_num(cs: &Vec<char>, start: usize, end: usize) -> (r: Option<u64>)
    requires
        start <= end <= cs@.len(),
        forall|x: int| start <= x < end ==> is_digit(#[trigger] cs@[x]),
    ensures
        ({
            let sub = cs@.subrange(start as int, end as int);
            match r {
                Option::Some(v) => v as int == digits_val(sub),
                Option::None => digits_val(sub) > u64::MAX,
            }
        }),
{
    let ghost sub = cs@.subrange(start as int, end as int);
    assert(all_digits(sub));
    let mut acc: u64 = 0;
    let mut j = start;
    assert(sub.take(0) =~= Seq::<char>::empty());
    while j < end
        invariant
            start <= j <= end <= cs@.len(),
            sub == cs@.subrange(start as int, end as int),
            all_digits(sub),
            forall|x: int| start <= x < end ==> is_digit(#[trigger] cs@[x]),
            acc as int == digits_val(sub.take(j - start)),
        decreases end - j,
    {
        let c = cs[j];
        assert(sub[j - start] == c);
        let d: u64 = (c as u32 - '0' as u32) as u64;
        proof {
            lemma_digits_val_step(sub, j - start);
        }
        let m = match acc.checked_mul(10) {
            Option::Some(m) => m,
            Option::None => {
                proof {
                    lemma_digits_val_mono(sub, j - start + 1);
                }
                return Option::None;
            },
        };
        let a2 = match m.checked_add(d) {
            Option::Some(a2) => a2,
            Option::None => {
                proof {
                    lemma_digits_val_mono(sub, j - start + 1);
                }
                return Option::None;
            },
        };
        acc = a2;
        j = j + 1;
    }
    assert(sub.take(end - start) =~= sub);
    Option::Some(acc)
}

/// One pre-release identifier from `cs[start..end)`, or `None` when the
/// chunk is not a valid identifier.
fn parse_pre_id(cs: &Vec<char>, start: usize, end: usize) -> (r: Option<PreId>)
    requires
        start <= end <= cs@.len(),
    ensures
        ({
            let chunk = cs@.subrange(start as int, end as int);
            match r {
                Option::Some(id) => valid_pre_id(chunk) && id@ == pre_id_of(chunk),
                Option::None => !valid_pre_id(chunk),
            }
        }),
{
    let ghost chunk = cs@.subrange(start as int, end as int);
    if start == end {
        return Option::None;
    }
    let mut j = start;
    let mut numeric = true;
    while j < end
        invariant
            start <= j <= end <= cs@.len(),
            chunk == cs@.subrange(start as int, end as int),
            forall|x: int| start <= x < j ==> valid_id_char(#[trigger] cs@[x]),
            numeric == (forall|x: int| start <= x < j ==> is_digit(#[trigger] cs@[x])),
        decreases end - j,
    {
        let c = cs[j];
        if !valid_id_char_exec(c) {
            assert(!valid_id_char(chunk[j - start]));
            return Option::None;
        }
        if !is_digit_exec(c) {
            numeric = false;
        }
        j = j + 1;
    }
    assert(forall|i: int|
        0 <= i < chunk.len() ==> valid_id_char(#[trigger] chunk[i]) && chunk[i] == cs@[start + i]);
    assert(forall|x: int| start <= x < end ==> #[trigger] cs@[x] == chunk[x - start]);
    assert(numeric == all_digits(chunk));
    if numeric {
        if end - start > 1 && cs[start] == '0' {
            assert(chunk[0] == '0');
            return Option::None;
        }
        match parse_num(cs, start, end) {
            Option::Some(v) => {
                assert(valid_pre_id(chunk));
                Option::Some(PreId::Num(v))
            },
            Option::None => Option::None,
        }
    } else {
        let mut alpha: Vec<char> = Vec::new();
        let mut k = start;
        while k < end
            invariant
                start <= k <= end <= cs@.len(),
                chunk == cs@.subrange(start as int, end as int),
                alpha@ =~= chunk.take(k - start),
            decreases end - k,
        {
            alpha.push(cs[k]);
            assert(alpha@ =~= chunk.take(k - start + 1));
            k = k + 1;
        }
        assert(alpha@ =~= chunk);
        assert(valid_pre_id(chunk));
        Option::Some(PreId::Alpha(alpha))
    }
}

/// The dot-separated pre-release list held in `cs[start..end)`.
pub fn parse_ids_exec(cs: &Vec<char>, start: usize, end: usize) -> (r: Option<Vec<PreId>>)
    requires
        start <= end <= cs@.len(),
    ensures
        ({
            let whole = cs@.subrange(start as int, end as int);
            match r {
                Option::Some(ids) => parse_ids(whole) == Option::Some(
                    ids@.map_values(|id: PreId| id@),
                ),
                Option::None => parse_ids(whole) is None,
            }
        }),
{
    let ghost whole = cs@.subrange(start as int, end as int);
    let mut ids: Vec<PreId> = Vec::new();
    let mut cur = start;
    let ghost mut done: Seq<Seq<char>> = Seq::empty();
    proof {
        assert(split_dots(whole) =~~= done + split_dots(
            cs@.subrange(cur as int, end as int),
        ));
    }
    loop
        invariant
            start <= cur <= end <= cs@.len(),
            whole == cs@.subrange(start as int, end as int),
            split_dots(whole) =~~= done + split_dots(cs@.subrange(cur as int, end as int)),
            forall|i: int| 0 <= i < done.len() ==> valid_pre_id(#[trigger] done[i]),
            ids@.len() == done.len(),
            forall|i: int| 0 <= i < done.len() ==> #[trigger] ids@[i]@ == pre_id_of(done[i]),
        decreases end - cur + 1,
    {
        let ghost rest = cs@.subrange(cur as int, end as int);
        // find the next dot
        let mut d = cur;
        while d < end && cs[d] != '.'
            invariant
                cur <= d <= end <= cs@.len(),
                forall|x: int| cur <= x < d ==> #[trigger] cs@[x] != '.',
            decreases end - d,
        {
            d = d + 1;
        }
        if d < end {
            // a dot at d: one chunk before it, then continue after it
            proof {
                assert(rest[d - cur] == '.');
                assert(forall|x: int| 0 <= x < d - cur ==> #[trigger] rest[x] != '.');
                lemma_split_dots_at(rest, d - cur);
                assert(rest.take(d - cur) =~= cs@.subrange(cur as int, d as int));
                assert(rest.skip(d - cur + 1) =~= cs@.subrange(d as int + 1, end as int));
            }
            match parse_pre_id(cs, cur, d) {
                Option::Some(id) => {
                    proof {
                        done = done + seq![cs@.subrange(cur as int, d as int)];
                    }
                    ids.push(id);
                },
                Option::None => {
                    proof {
                        let chunks = split_dots(whole);
                        assert(chunks[done.len() as int] == cs@.subrange(
                            cur as int,
                            d as int,
                        ));
                    }
                    return Option::None;
                },
            }
            cur = d + 1;
        } else {
            // no further dot: the final chunk
            proof {
                assert(forall|x: int| 0 <= x < rest.len() ==> #[trigger] rest[x] != '.');
                lemma_split_dots_no_dot(rest);
            }
            match parse_pre_id(cs, cur, end) {
                Option::Some(id) => {
                    proof {
                        done = done + seq![cs@.subrange(cur as int, end as int)];
                    }
                    ids.push(id);
                    proof {
                        let chunks = split_dots(whole);
                        assert(chunks =~~= done);
                        assert(forall|i: int|
                            0 <= i < chunks.len() ==> valid_pre_id(#[trigger] chunks[i]));
                        let f = |id: PreId| id@;
                        let g = |c: Seq<char>| pre_id_of(c);
                        assert(ids@.map_values(f) =~= chunks.map_values(g));
                    }
                    return Option::Some(ids);
                },
                Option::None => {
                    proof {
                        let chunks = split_dots(whole);
                        assert(chunks[done.len() as int] == cs@.subrange(
                            cur as int,
                            end as int,
                        ));
                    }
                    return Option::None;
                },
            }
        }
    }
}

/// Scan the quadruple boundaries of a tag held in `cs`: the half-open
/// digit runs of major, minor and patch, with the suffix following the
/// last of them.
#[verifier::rlimit(80)]
fn tag_quad_exec(cs: &Vec<char>) -> (r: Option<(usize, usize, usize, usize, usize, usize)>)
    ensures
        r is Some <==> tag_quad(cs@) is Some,
        r matches Some((ms, me, ns, ne, ps, pe)) ==> {
            let q = tag_quad(cs@)->Some_0;
            &&& ms <= me <= ns <= ne <= ps <= pe <= cs@.len()
            &&& q.major == cs@.subrange(ms as int, me as int)
            &&& q.minor == cs@.subrange(ns as int, ne as int)
            &&& q.patch == cs@.subrange(ps as int, pe as int)
            &&& q.suffix == cs@.subrange(pe as int, cs@.len() as int)
            &&& (forall|x: int| ms <= x < me ==> is_digit(#[trigger] cs@[x]))
            &&& (forall|x: int| ns <= x < ne ==> is_digit(#[trigger] cs@[x]))
            &&& (forall|x: int| ps <= x < pe ==> is_digit(#[trigger] cs@[x]))
        },
{
    let len = cs.len();
    let start: usize = if len > 0 && cs[0] == 'v' {
        1
    } else {
        0
    };
    let ghost t = if cs@.len() > 0 && cs@[0] == 'v' {
        cs@.drop_first()
    } else {
        cs@
    };
    proof {
        assert(t =~= cs@.skip(start as int));
        assert(digits_len(t) == digits_len(cs@.skip(start as int)));
    }
    let m_end = digit_run_end(cs, start);
    if m_end == start {
        return Option::None;
    }
    proof {
        assert(t.take(m_end - start) =~= cs@.subrange(start as int, m_end as int));
        assert(t.skip(m_end - start) =~= cs@.subrange(m_end as int, len as int));
    }
    let ghost r1 = t.skip(m_end - start);
    let j: usize = if m_end < len && cs[m_end] == '.' {
        m_end + 1
    } else {
        m_end
    };
    let ghost r2 = if r1.len() > 0 && r1[0] == '.' {
        r1.drop_first()
    } else {
        r1
    };
    proof {
        assert(r2 =~= cs@.subrange(j as int, len as int));
        assert(cs@.skip(j as int) =~= r2);
    }
    let n_end = digit_run_end(cs, j);
    proof {
        assert(r2.take(n_end - j) =~= cs@.subrange(j as int, n_end as int));
        assert(r2.skip(n_end - j) =~= cs@.subrange(n_end as int, len as int));
    }
    let ghost r3 = r2.skip(n_end - j);
    let k: usize = if n_end < len && cs[n_end] == '.' {
        n_end + 1
    } else {
        n_end
    };
    let ghost r4 = if r3.len() > 0 && r3[0] == '.' {
        r3.drop_first()
    } else {
        r3
    };
    proof {
        assert(r4 =~= cs@.subrange(k as int, len as int));
        assert(cs@.skip(k as int) =~= r4);
    }
    let p_end = digit_run_end(cs, k);
    proof {
        assert(r4.take(p_end - k) =~= cs@.subrange(k as int, p_end as int));
        assert(r4.skip(p_end - k) =~= cs@.subrange(p_end as int, len as int));
    }
    Option::Some((start, m_end, j, n_end, k, p_end))
}

/// Extract the version a tag name denotes, if any: the policy that skips
/// unusable tags and defaults missing minor and patch components to zero.
#[verifier::rlimit(80)]
pub fn extract_tag_version(tag: &str) -> (r: Option<Version>)
    ensures
        r is Some <==> version_of_tag(tag@) is Some,
        r matches Some(v) ==> v@ == version_of_tag(tag@)->Some_0,
{
    let cs = chars_of(tag);
    let quad = match tag_quad_exec(&cs) {
        Option::Some(quad) => quad,
        Option::None => {
            return Option::None;
        },
    };
    let (ms, me, ns, ne, ps, pe) = quad;
    let ghost q = tag_quad(tag@)->Some_0;
    let len = cs.len();
    let major = match parse_num(&cs, ms, me) {
        Option::Some(v) => v,
        Option::None => {
            return Option::None;
        },
    };
    let minor = match parse_num(&cs, ns, ne) {
        Option::Some(v) => v,
        Option::None => {
            return Option::None;
        },
    };
    let patch = match parse_num(&cs, ps, pe) {
        Option::Some(v) => v,
        Option::None => {
            return Option::None;
        },
    };
    // the suffix: empty, or a pre-release list after a dash
    if pe == len {
        let v = Version { major, minor, patch, pre: Vec::new() };
        proof {
            assert(v@.pre =~= suffix_pre_ids(q.suffix)->Some_0);
        }
        return Option::Some(v);
    }
    assert(q.suffix[0] == cs@[pe as int]);
    if cs[pe] != '-' {
        return Option::None;
    }
    proof {
        assert(q.suffix.drop_first() =~= cs@.subrange(pe as int + 1, len as int));
    }
    match parse_ids_exec(&cs, pe + 1, len) {
        Option::Some(pre) => {
            let v = Version { major, minor, patch, pre };
            proof {
                assert(v@.pre == suffix_pre_ids(q.suffix)->Some_0);
            }
            Option::Some(v)
        },
        Option::None => Option::None,
    }
}

} // verus!
