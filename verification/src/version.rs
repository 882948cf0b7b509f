//! Semantic versions: the data model and the strict precedence order,
//! including pre-release ordering.

use vstd::prelude::*;

verus! {

/// One dot-separated identifier of a pre-release suffix. Identifiers made of
/// digits only order numerically; all others order by character code.
pub enum PreId {
    Num(u64),
    Alpha(Vec<char>),
}

/// Mathematical value of a `PreId`.
pub ghost enum PreIdV {
    Num(int),
    Alpha(Seq<char>),
}

impl View for PreId {
    type V = PreIdV;

    open spec fn view(&self) -> PreIdV {
        match self {
            PreId::Num(n) => PreIdV::Num(*n as int),
            PreId::Alpha(cs) => PreIdV::Alpha(cs@),
        }
    }
}

/// A parsed semantic version. A missing minor or patch component of a tag
/// has already been defaulted to `0` by the parser.
pub struct Version {
    pub major: u64,
    pub minor: u64,
    pub patch: u64,
    pub pre: Vec<PreId>,
}

/// Mathematical value of a `Version`.
pub ghost struct VersionV {
    pub major: int,
    pub minor: int,
    pub patch: int,
    pub pre: Seq<PreIdV>,
}

impl View for Version {
    type V = VersionV;

    open spec fn view(&self) -> VersionV {
        VersionV {
            major: self.major as int,
            minor: self.minor as int,
            patch: self.patch as int,
            pre: self.pre@.map_values(|id: PreId| id@),
        }
    }
}

/// Strict lexicographic order on character sequences by character code.
pub open spec fn chars_lt(a: Seq<char>, b: Seq<char>) -> bool
    decreases a.len(),
{
    if b.len() == 0 {
        false
    } else if a.len() == 0 {
        true
    } else if (a[0] as int) != (b[0] as int) {
        (a[0] as int) < (b[0] as int)
    } else {
        chars_lt(a.drop_first(), b.drop_first())
    }
}

/// Strict order on single pre-release identifiers: numeric identifiers come
/// before alphanumeric ones; numeric compare by value, the rest by character.
pub open spec fn pre_id_lt(a: PreIdV, b: PreIdV) -> bool {
    match (a, b) {
        (PreIdV::Num(m), PreIdV::Num(n)) => m < n,
        (PreIdV::Num(_), PreIdV::Alpha(_)) => true,
        (PreIdV::Alpha(_), PreIdV::Num(_)) => false,
        (PreIdV::Alpha(s), PreIdV::Alpha(t)) => chars_lt(s, t),
    }
}

/// Strict lexicographic order on whole pre-release identifier lists; a list
/// that is a proper prefix of another comes first.
pub open spec fn pre_ids_lt(a: Seq<PreIdV>, b: Seq<PreIdV>) -> bool
    decreases a.len(),
{
    if a.len() == 0 {
        b.len() > 0
    } else if b.len() == 0 {
        false
    } else if pre_id_lt(a[0], b[0]) {
        true
    } else if pre_id_lt(b[0], a[0]) {
        false
    } else {
        pre_ids_lt(a.drop_first(), b.drop_first())
    }
}

/// Pre-release part of precedence: a release (empty list) outranks every
/// pre-release of the same version triple.
pub open spec fn pre_lt(a: Seq<PreIdV>, b: Seq<PreIdV>) -> bool {
    if a.len() == 0 {
        false
    } else if b.len() == 0 {
        true
    } else {
        pre_ids_lt(a, b)
    }
}

/// Strict semantic-version precedence.
pub open spec fn version_lt(a: VersionV, b: VersionV) -> bool {
    if a.major != b.major {
        a.major < b.major
    } else if a.minor != b.minor {
        a.minor < b.minor
    } else if a.patch != b.patch {
        a.patch < b.patch
    } else {
        pre_lt(a.pre, b.pre)
    }
}

proof fn lemma_chars_lt_asym(a: Seq<char>, b: Seq<char>)
    ensures
        chars_lt(a, b) ==> !chars_lt(b, a),
    decreases a.len(),
{
    if a.len() > 0 && b.len() > 0 && (a[0] as int) == (b[0] as int) {
        lemma_chars_lt_asym(a.drop_first(), b.drop_first());
    }
}

proof fn lemma_chars_lt_trans2(a: Seq<char>, b: Seq<char>, c: Seq<char>)
    ensures
        chars_lt(a, b) && chars_lt(b, c) ==> chars_lt(a, c),
        !chars_lt(a, b) && !chars_lt(b, c) ==> !chars_lt(a, c),
    decreases a.len() + b.len() + c.len(),
{
    if a.len() > 0 && b.len() > 0 && c.len() > 0 {
        lemma_chars_lt_trans2(a.drop_first(), b.drop_first(), c.drop_first());
    }
}

proof fn lemma_pre_id_lt_asym(a: PreIdV, b: PreIdV)
    ensures
        pre_id_lt(a, b) ==> !pre_id_lt(b, a),
{
    match (a, b) {
        (PreIdV::Alpha(s), PreIdV::Alpha(t)) => lemma_chars_lt_asym(s, t),
        _ => (),
    }
}

proof fn lemma_pre_id_lt_trans2(a: PreIdV, b: PreIdV, c: PreIdV)
    ensures
        pre_id_lt(a, b) && pre_id_lt(b, c) ==> pre_id_lt(a, c),
        !pre_id_lt(a, b) && !pre_id_lt(b, c) ==> !pre_id_lt(a, c),
{
    match (a, b, c) {
        (PreIdV::Alpha(s), PreIdV::Alpha(t), PreIdV::Alpha(u)) => lemma_chars_lt_trans2(s, t, u),
        _ => (),
    }
}

proof fn lemma_pre_ids_lt_asym(a: Seq<PreIdV>, b: Seq<PreIdV>)
    ensures
        pre_ids_lt(a, b) ==> !pre_ids_lt(b, a),
    decreases a.len(),
{
    if a.len() > 0 && b.len() > 0 {
        lemma_pre_id_lt_asym(a[0], b[0]);
        lemma_pre_id_lt_asym(b[0], a[0]);
        lemma_pre_ids_lt_asym(a.drop_first(), b.drop_first());
    }
}

proof fn lemma_pre_ids_lt_trans2(a: Seq<PreIdV>, b: Seq<PreIdV>, c: Seq<PreIdV>)
    ensures
        pre_ids_lt(a, b) && pre_ids_lt(b, c) ==> pre_ids_lt(a, c),
        !pre_ids_lt(a, b) && !pre_ids_lt(b, c) ==> !pre_ids_lt(a, c),
    decreases a.len() + b.len() + c.len(),
{
    if a.len() > 0 && b.len() > 0 && c.len() > 0 {
        lemma_pre_id_lt_trans2(a[0], b[0], c[0]);
        lemma_pre_id_lt_trans2(a[0], c[0], b[0]);
        lemma_pre_id_lt_trans2(b[0], a[0], c[0]);
        lemma_pre_id_lt_trans2(b[0], c[0], a[0]);
        lemma_pre_id_lt_trans2(c[0], a[0], b[0]);
        lemma_pre_id_lt_trans2(c[0], b[0], a[0]);
        lemma_pre_ids_lt_trans2(a.drop_first(), b.drop_first(), c.drop_first());
    }
}

/// The precedence order is asymmetric: no two versions precede each other.
pub proof fn lemma_version_order_asym(a: VersionV, b: VersionV)
    ensures
        version_lt(a, b) ==> !version_lt(b, a),
{
    lemma_pre_ids_lt_asym(a.pre, b.pre);
}

/// The precedence order is transitive, and so is its complement.
pub proof fn lemma_version_order_trans(a: VersionV, b: VersionV, c: VersionV)
    ensures
        version_lt(a, b) && version_lt(b, c) ==> version_lt(a, c),
        !version_lt(a, b) && !version_lt(b, c) ==> !version_lt(a, c),
{
    lemma_pre_ids_lt_trans2(a.pre, b.pre, c.pre);
    lemma_pre_ids_lt_asym(a.pre, b.pre);
    lemma_pre_ids_lt_asym(b.pre, c.pre);
    lemma_pre_ids_lt_asym(a.pre, c.pre);
}

fn chars_lt_exec(a: &Vec<char>, b: &Vec<char>) -> (r: bool)
    ensures
        r == chars_lt(a@, b@),
{
    let mut i: usize = 0;
    assert(a@.skip(0) =~= a@);
    assert(b@.skip(0) =~= b@);
    while i < a.len() && i < b.len()
        invariant
            i <= a.len(),
            i <= b.len(),
            chars_lt(a@, b@) == chars_lt(a@.skip(i as int), b@.skip(i as int)),
        decreases a.len() - i,
    {
        let ca = a[i];
        let cb = b[i];
        if ca != cb {
            assert(a@.skip(i as int)[0] == ca);
            assert(b@.skip(i as int)[0] == cb);
            return ca < cb;
        }
        assert(a@.skip(i as int).drop_first() =~= a@.skip(i as int + 1));
        assert(b@.skip(i as int).drop_first() =~= b@.skip(i as int + 1));
        i = i + 1;
    }
    assert(a@.skip(i as int).len() == 0 || b@.skip(i as int).len() == 0);
    a.len() < b.len()
}

fn pre_id_lt_exec(a: &PreId, b: &PreId) -> (r: bool)
    ensures
        r == pre_id_lt(a@, b@),
{
    match (a, b) {
        (PreId::Num(m), PreId::Num(n)) => m < n,
        (PreId::Num(_), PreId::Alpha(_)) => true,
        (PreId::Alpha(_), PreId::Num(_)) => false,
        (PreId::Alpha(s), PreId::Alpha(t)) => chars_lt_exec(s, t),
    }
}

/// Decide the strict order on pre-release identifier lists.
pub fn pre_ids_lt_exec(a: &Vec<PreId>, b: &Vec<PreId>) -> (r: bool)
    ensures
        r == pre_ids_lt(a@.map_values(|id: PreId| id@), b@.map_values(|id: PreId| id@)),
{
    let ghost av = a@.map_values(|id: PreId| id@);
    let ghost bv = b@.map_values(|id: PreId| id@);
    let mut i: usize = 0;
    assert(av.skip(0) =~= av);
    assert(bv.skip(0) =~= bv);
    while i < a.len() && i < b.len()
        invariant
            i <= a.len(),
            i <= b.len(),
            av == a@.map_values(|id: PreId| id@),
            bv == b@.map_values(|id: PreId| id@),
            pre_ids_lt(av, bv) == pre_ids_lt(av.skip(i as int), bv.skip(i as int)),
        decreases a.len() - i,
    {
        assert(av.skip(i as int)[0] == a@[i as int]@);
        assert(bv.skip(i as int)[0] == b@[i as int]@);
        if pre_id_lt_exec(&a[i], &b[i]) {
            return true;
        }
        if pre_id_lt_exec(&b[i], &a[i]) {
            return false;
        }
        assert(av.skip(i as int).drop_first() =~= av.skip(i as int + 1));
        assert(bv.skip(i as int).drop_first() =~= bv.skip(i as int + 1));
        i = i + 1;
    }
    assert(av.skip(i as int).len() == 0 || bv.skip(i as int).len() == 0);
    a.len() < b.len()
}

/// Decide strict semantic-version precedence between two parsed versions.
pub fn version_lt_exec(a: &Version, b: &Version) -> (r: bool)
    ensures
        r == version_lt(a@, b@),
{
    if a.major != b.major {
        a.major < b.major
    } else if a.minor != b.minor {
        a.minor < b.minor
    } else if a.patch != b.patch {
        a.patch < b.patch
    } else if a.pre.len() == 0 {
        false
    } else if b.pre.len() == 0 {
        true
    } else {
        assert(a@.pre.len() == a.pre@.len());
        assert(b@.pre.len() == b.pre@.len());
        pre_ids_lt_exec(&a.pre, &b.pre)
    }
}

} // verus!
