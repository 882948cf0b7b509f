//! Version constraints: exact versions and `~`/`^` ranges, their strict
//! grammar and their matching rules.
//!
//! A constraint is an optional operator (`~`, `^` or `=`; a bare version
//! means `^`) followed by `major[.minor[.patch[-pre]]]`, consumed in full.
//! A string that does not have this shape is not a range at all and is
//! treated by the resolver as a branch name or raw revision instead.

use vstd::prelude::*;
use crate::version::{PreId, PreIdV, Version, VersionV, version_lt};
use crate::parse::{digits_len, digits_val, parse_ids, chars_of, digit_run_end, parse_num,
    parse_ids_exec};

verus! {

#[derive(Clone, Copy, PartialEq, Eq, Structural)]
pub enum ConstraintOp {
    Tilde,
    Caret,
    Exact,
}

/// A parsed version constraint; `minor` and `patch` remember whether the
/// component was written, since range width depends on that.
pub struct Constraint {
    pub op: ConstraintOp,
    pub major: u64,
    pub minor: Option<u64>,
    pub patch: Option<u64>,
    pub pre: Vec<PreId>,
}

/// Mathematical value of a `Constraint`.
pub ghost struct ConstraintV {
    pub op: ConstraintOp,
    pub major: int,
    pub minor: Option<int>,
    pub patch: Option<int>,
    pub pre: Seq<PreIdV>,
}

impl View for Constraint {
    type V = ConstraintV;

    open spec fn view(&self) -> ConstraintV {
        ConstraintV {
            op: self.op,
            major: self.major as int,
            minor: match self.minor {
                Option::Some(n) => Option::Some(n as int),
                Option::None => Option::None,
            },
            patch: match self.patch {
                Option::Some(n) => Option::Some(n as int),
                Option::None => Option::None,
            },
            pre: self.pre@.map_values(|id: PreId| id@),
        }
    }
}

/// The constraint a string denotes, if it is a range at all.
pub open spec fn constraint_of(s: Seq<char>) -> Option<ConstraintV> {
    if s.len() == 0 {
        Option::None
    } else {
        let op = if s[0] == '~' {
            ConstraintOp::Tilde
        } else if s[0] == '^' {
            ConstraintOp::Caret
        } else if s[0] == '=' {
            ConstraintOp::Exact
        } else {
            ConstraintOp::Caret
        };
        let r0 = if s[0] == '~' || s[0] == '^' || s[0] == '=' {
            s.drop_first()
        } else {
            s
        };
        let m = digits_len(r0);
        if m == 0 || digits_val(r0.take(m)) > u64::MAX {
            Option::None
        } else {
            let major = digits_val(r0.take(m));
            let r1 = r0.skip(m);
            if r1.len() == 0 {
                Option::Some(
                    ConstraintV {
                        op,
                        major,
                        minor: Option::None,
                        patch: Option::None,
                        pre: Seq::empty(),
                    },
                )
            } else if r1[0] != '.' {
                Option::None
            } else {
                let r2 = r1.drop_first();
                let n = digits_len(r2);
                if n == 0 || digits_val(r2.take(n)) > u64::MAX {
                    Option::None
                } else {
                    let minor = digits_val(r2.take(n));
                    let r3 = r2.skip(n);
                    if r3.len() == 0 {
                        Option::Some(
                            ConstraintV {
                                op,
                                major,
                                minor: Option::Some(minor),
                                patch: Option::None,
                                pre: Seq::empty(),
                            },
                        )
                    } else if r3[0] != '.' {
                        Option::None
                    } else {
                        let r4 = r3.drop_first();
                        let p = digits_len(r4);
                        if p == 0 || digits_val(r4.take(p)) > u64::MAX {
                            Option::None
                        } else {
                            let patch = digits_val(r4.take(p));
                            let r5 = r4.skip(p);
                            if r5.len() == 0 {
                                Option::Some(
                                    ConstraintV {
                                        op,
                                        major,
                                        minor: Option::Some(minor),
                                        patch: Option::Some(patch),
                                        pre: Seq::empty(),
                                    },
                                )
                            } else if r5[0] != '-' {
                                Option::None
                            } else {
                                match parse_ids(r5.drop_first()) {
                                    Option::Some(ids) => Option::Some(
                                        ConstraintV {
                                            op,
                                            major,
                                            minor: Option::Some(minor),
                                            patch: Option::Some(patch),
                                            pre: ids,
                                        },
                                    ),
                                    Option::None => Option::None,
                                }
                            }
                        }
                    }
                }
            }
        }
    }
}

/// The least version a range admits: unspecified components default to zero
/// and the constraint's pre-release list carries over.
pub open spec fn lower_of(c: ConstraintV) -> VersionV {
    VersionV {
        major: c.major,
        minor: match c.minor {
            Option::Some(n) => n,
            Option::None => 0,
        },
        patch: match c.patch {
            Option::Some(n) => n,
            Option::None => 0,
        },
        pre: c.pre,
    }
}

pub open spec fn release_v(major: int, minor: int, patch: int) -> VersionV {
    VersionV { major, minor, patch, pre: Seq::empty() }
}

/// The exclusive upper bound check of a range. A `~` range stays within the
/// stated minor (or major, when no minor was written); a `^` range stays
/// within the leftmost nonzero component.
pub open spec fn upper_ok(c: ConstraintV, v: VersionV) -> bool {
    match c.op {
        ConstraintOp::Exact => true,
        ConstraintOp::Tilde => match c.minor {
            Option::Some(n) => version_lt(v, release_v(c.major, n + 1, 0)),
            Option::None => version_lt(v, release_v(c.major + 1, 0, 0)),
        },
        ConstraintOp::Caret => {
            if c.major > 0 {
                version_lt(v, release_v(c.major + 1, 0, 0))
            } else {
                match c.minor {
                    Option::None => version_lt(v, release_v(1, 0, 0)),
                    Option::Some(n) => {
                        if n > 0 {
                            version_lt(v, release_v(0, n + 1, 0))
                        } else {
                            match c.patch {
                                Option::None => version_lt(v, release_v(0, 1, 0)),
                                Option::Some(p) => version_lt(v, release_v(0, 0, p + 1)),
                            }
                        }
                    },
                }
            }
        },
    }
}

/// A pre-release version is admitted only when the constraint itself names
/// a pre-release of the same version triple.
pub open spec fn pre_gate(c: ConstraintV, v: VersionV) -> bool {
    v.pre.len() == 0 || (c.pre.len() > 0 && v.major == c.major && c.minor == Option::Some(
        v.minor,
    ) && c.patch == Option::Some(v.patch))
}

/// Whether a version satisfies a constraint.
pub open spec fn constraint_matches(c: ConstraintV, v: VersionV) -> bool {
    pre_gate(c, v) && match c.op {
        ConstraintOp::Exact => {
            &&& v.major == c.major
            &&& (c.minor is None || c.minor == Option::Some(v.minor))
            &&& (c.patch is None || c.patch == Option::Some(v.patch))
            &&& v.pre == c.pre
        },
        _ => !version_lt(v, lower_of(c)) && upper_ok(c, v),
    }
}

/// Parse a constraint string; `None` when it is not a range.
#[verifier::rlimit(80)]
pub fn parse_constraint(s: &str) -> (r: Option<Constraint>)
    ensures
        r is Some <==> constraint_of(s@) is Some,
        r matches Some(c) ==> c@ == constraint_of(s@)->Some_0,
{
    let cs = chars_of(s);
    let len = cs.len();
    if len == 0 {
        return Option::None;
    }
    let c0 = cs[0];
    let op = if c0 == '~' {
        ConstraintOp::Tilde
    } else if c0 == '^' {
        ConstraintOp::Caret
    } else if c0 == '=' {
        ConstraintOp::Exact
    } else {
        ConstraintOp::Caret
    };
    let start: usize = if c0 == '~' || c0 == '^' || c0 == '=' {
        1
    } else {
        0
    };
    let ghost r0 = if s@[0] == '~' || s@[0] == '^' || s@[0] == '=' {
        s@.drop_first()
    } else {
        s@
    };
    proof {
        assert(r0 =~= cs@.skip(start as int));
    }
    let m_end = digit_run_end(&cs, start);
    proof {
        assert(r0.take(m_end - start) =~= cs@.subrange(start as int, m_end as int));
        assert(r0.skip(m_end - start) =~= cs@.subrange(m_end as int, len as int));
    }
    if m_end == start {
        return Option::None;
    }
    let major = match parse_num(&cs, start, m_end) {
        Option::Some(v) => v,
        Option::None => {
            return Option::None;
        },
    };
    if m_end == len {
        let c = Constraint {
            op,
            major,
            minor: Option::None,
            patch: Option::None,
            pre: Vec::new(),
        };
        proof {
            assert(c@.pre =~= Seq::<PreIdV>::empty());
        }
        return Option::Some(c);
    }
    if cs[m_end] != '.' {
        return Option::None;
    }
    let ghost r2 = r0.skip(m_end - start).drop_first();
    proof {
        assert(r2 =~= cs@.skip(m_end as int + 1));
        assert(r2 =~= cs@.subrange(m_end as int + 1, len as int));
    }
    let n_end = digit_run_end(&cs, m_end + 1);
    proof {
        assert(r2.take(n_end - (m_end + 1)) =~= cs@.subrange(m_end as int + 1, n_end as int));
        assert(r2.skip(n_end - (m_end + 1)) =~= cs@.subrange(n_end as int, len as int));
    }
    if n_end == m_end + 1 {
        return Option::None;
    }
    let minor = match parse_num(&cs, m_end + 1, n_end) {
        Option::Some(v) => v,
        Option::None => {
            return Option::None;
        },
    };
    if n_end == len {
        let c = Constraint {
            op,
            major,
            minor: Option::Some(minor),
            patch: Option::None,
            pre: Vec::new(),
        };
        proof {
            assert(c@.pre =~= Seq::<PreIdV>::empty());
        }
        return Option::Some(c);
    }
    if cs[n_end] != '.' {
        return Option::None;
    }
    let ghost r4 = r2.skip(n_end - (m_end + 1)).drop_first();
    proof {
        assert(r4 =~= cs@.skip(n_end as int + 1));
        assert(r4 =~= cs@.subrange(n_end as int + 1, len as int));
    }
    let p_end = digit_run_end(&cs, n_end + 1);
    proof {
        assert(r4.take(p_end - (n_end + 1)) =~= cs@.subrange(n_end as int + 1, p_end as int));
        assert(r4.skip(p_end - (n_end + 1)) =~= cs@.subrange(p_end as int, len as int));
    }
    if p_end == n_end + 1 {
        return Option::None;
    }
    let patch = match parse_num(&cs, n_end + 1, p_end) {
        Option::Some(v) => v,
        Option::None => {
            return Option::None;
        },
    };
    if p_end == len {
        let c = Constraint {
            op,
            major,
            minor: Option::Some(minor),
            patch: Option::Some(patch),
            pre: Vec::new(),
        };
        proof {
            assert(c@.pre =~= Seq::<PreIdV>::empty());
        }
        return Option::Some(c);
    }
    if cs[p_end] != '-' {
        return Option::None;
    }
    proof {
        assert(r4.skip(p_end - (n_end + 1)).drop_first() =~= cs@.subrange(
            p_end as int + 1,
            len as int,
        ));
    }
    match parse_ids_exec(&cs, p_end + 1, len) {
        Option::Some(pre) => Option::Some(
            Constraint {
                op,
                major,
                minor: Option::Some(minor),
                patch: Option::Some(patch),
                pre,
            },
        ),
        Option::None => Option::None,
    }
}

/// Compare a version against a release triple whose components are given
/// as a base and a flag saying that one more than `u64::MAX` is meant.
fn lt_release(v: &Version, ma: u64, ma_c: bool, mi: u64, mi_c: bool, pa: u64, pa_c: bool) -> (r:
    bool)
    ensures
        r == version_lt(
            v@,
            release_v(
                if ma_c {
                    u64::MAX as int + 1
                } else {
                    ma as int
                },
                if mi_c {
                    u64::MAX as int + 1
                } else {
                    mi as int
                },
                if pa_c {
                    u64::MAX as int + 1
                } else {
                    pa as int
                },
            ),
        ),
{
    let major_lt = ma_c || v.major < ma;
    let major_eq = !ma_c && v.major == ma;
    let minor_lt = mi_c || v.minor < mi;
    let minor_eq = !mi_c && v.minor == mi;
    let patch_lt = pa_c || v.patch < pa;
    let patch_eq = !pa_c && v.patch == pa;
    major_lt || (major_eq && (minor_lt || (minor_eq && (patch_lt || (patch_eq && v.pre.len()
        > 0)))))
}

fn chars_eq(a: &Vec<char>, b: &Vec<char>) -> (r: bool)
    ensures
        r == (a@ == b@),
{
    if a.len() != b.len() {
        return false;
    }
    let mut i: usize = 0;
    while i < a.len()
        invariant
            i <= a.len(),
            a@.len() == b@.len(),
            forall|x: int| 0 <= x < i ==> a@[x] == b@[x],
        decreases a.len() - i,
    {
        if a[i] != b[i] {
            return false;
        }
        i = i + 1;
    }
    assert(a@ =~= b@);
    true
}

fn pre_eq(a: &Vec<PreId>, b: &Vec<PreId>) -> (r: bool)
    ensures
        r == (a@.map_values(|id: PreId| id@) == b@.map_values(|id: PreId| id@)),
{
    let ghost av = a@.map_values(|id: PreId| id@);
    let ghost bv = b@.map_values(|id: PreId| id@);
    if a.len() != b.len() {
        assert(av.len() != bv.len());
        return false;
    }
    let mut i: usize = 0;
    while i < a.len()
        invariant
            i <= a.len(),
            a@.len() == b@.len(),
            av == a@.map_values(|id: PreId| id@),
            bv == b@.map_values(|id: PreId| id@),
            forall|x: int| 0 <= x < i ==> av[x] == bv[x],
        decreases a.len() - i,
    {
        let same = match (&a[i], &b[i]) {
            (PreId::Num(m), PreId::Num(n)) => m == n,
            (PreId::Alpha(s), PreId::Alpha(t)) => chars_eq(s, t),
            _ => false,
        };
        if !same {
            assert(av[i as int] != bv[i as int]);
            return false;
        }
        assert(av[i as int] == bv[i as int]);
        i = i + 1;
    }
    assert(av =~= bv);
    true
}

/// Whether a version satisfies a constraint.
pub fn constraint_matches_exec(c: &Constraint, v: &Version) -> (r: bool)
    ensures
        r == constraint_matches(c@, v@),
{
    // the pre-release gate
    let gate = if v.pre.len() == 0 {
        true
    } else {
        c.pre.len() > 0 && v.major == c.major && (match c.minor {
            Option::Some(n) => n == v.minor,
            Option::None => false,
        }) && (match c.patch {
            Option::Some(p) => p == v.patch,
            Option::None => false,
        })
    };
    if !gate {
        return false;
    }
    match c.op {
        ConstraintOp::Exact => {
            if v.major != c.major {
                return false;
            }
            match c.minor {
                Option::Some(n) => {
                    if n != v.minor {
                        return false;
                    }
                },
                Option::None => (),
            }
            match c.patch {
                Option::Some(p) => {
                    if p != v.patch {
                        return false;
                    }
                },
                Option::None => (),
            }
            pre_eq(&v.pre, &c.pre)
        },
        ConstraintOp::Tilde | ConstraintOp::Caret => {
            // the inclusive lower bound
            let lo_minor = match c.minor {
                Option::Some(n) => n,
                Option::None => 0,
            };
            let lo_patch = match c.patch {
                Option::Some(p) => p,
                Option::None => 0,
            };
            let below_lower = if v.major != c.major {
                v.major < c.major
            } else if v.minor != lo_minor {
                v.minor < lo_minor
            } else if v.patch != lo_patch {
                v.patch < lo_patch
            } else if v.pre.len() == 0 {
                false
            } else if c.pre.len() == 0 {
                true
            } else {
                crate::version::pre_ids_lt_exec(&v.pre, &c.pre)
            };
            if below_lower {
                return false;
            }
            assert(!version_lt(v@, lower_of(c@)));
            // the exclusive upper bound
            match c.op {
                ConstraintOp::Tilde => match c.minor {
                    Option::Some(n) => {
                        let (b, carry) = match n.checked_add(1) {
                            Option::Some(b) => (b, false),
                            Option::None => (0u64, true),
                        };
                        lt_release(v, c.major, false, b, carry, 0, false)
                    },
                    Option::None => {
                        let (b, carry) = match c.major.checked_add(1) {
                            Option::Some(b) => (b, false),
                            Option::None => (0u64, true),
                        };
                        lt_release(v, b, carry, 0, false, 0, false)
                    },
                },
                _ => {
                    if c.major > 0 {
                        let (b, carry) = match c.major.checked_add(1) {
                            Option::Some(b) => (b, false),
                            Option::None => (0u64, true),
                        };
                        lt_release(v, b, carry, 0, false, 0, false)
                    } else {
                        match c.minor {
                            Option::None => lt_release(v, 1, false, 0, false, 0, false),
                            Option::Some(n) => {
                                if n > 0 {
                                    let (b, carry) = match n.checked_add(1) {
                                        Option::Some(b) => (b, false),
                                        Option::None => (0u64, true),
                                    };
                                    lt_release(v, 0, false, b, carry, 0, false)
                                } else {
                                    match c.patch {
                                        Option::None => lt_release(
                                            v,
                                            0,
                                            false,
                                            1,
                                            false,
                                            0,
                                            false,
                                        ),
                                        Option::Some(p) => {
                                            let (b, carry) = match p.checked_add(1) {
                                                Option::Some(b) => (b, false),
                                                Option::None => (0u64, true),
                                            };
                                            lt_release(v, 0, false, 0, false, b, carry)
                                        },
                                    }
                                }
                            },
                        }
                    }
                },
            }
        },
    }
}

} // verus!
