//! Vendor-tree discovery: walk the directory tree below the vendor root and
//! collect every leaf that is itself a checked-out repository, with its
//! import path and its current resolved label.
//!
//! The walk itself is pure: the tree is handed in as a value. The bounded
//! worker pool that reads the real directory tree drives the same traversal
//! through `ScanCoordinator`, whose counter protocol decides when the scan
//! is complete.

use vstd::prelude::*;
use crate::package::{Package, PackageV};
use crate::gitio::HeadFacts;

verus! {

/// One directory below the vendor root: a repository leaf when `label` is
/// set (the directory holds version-control metadata), else a plain
/// directory whose subdirectories are walked.
pub struct VendorDir {
    pub name: String,
    pub label: Option<String>,
    pub children: Vec<VendorDir>,
}

/// One discovered package: its import path and its resolved label.
pub struct ScanEntry {
    pub import: String,
    pub version: String,
}

/// Mathematical value of a `ScanEntry`.
pub ghost struct ScanEntryV {
    pub import: Seq<char>,
    pub version: Seq<char>,
}

impl View for ScanEntry {
    type V = ScanEntryV;

    open spec fn view(&self) -> ScanEntryV {
        ScanEntryV { import: self.import@, version: self.version@ }
    }
}

pub open spec fn entries_view(s: Seq<ScanEntry>) -> Seq<ScanEntryV> {
    s.map_values(|e: ScanEntry| e@)
}

/// Import path of a directory under a prefix; the vendor root itself is
/// the empty prefix and leaves no separator behind.
pub open spec fn join_path(prefix: Seq<char>, name: Seq<char>) -> Seq<char> {
    if prefix.len() == 0 {
        name
    } else {
        prefix + seq!['/'] + name
    }
}

/// The repository leaves below one directory, left to right and depth
/// first: a labelled directory is one leaf and its subdirectories are not
/// entered; an unlabelled one contributes the leaves of its children.
pub open spec fn leaf_entries(d: VendorDir, prefix: Seq<char>) -> Seq<ScanEntryV>
    decreases d,
{
    let path = join_path(prefix, d.name@);
    match d.label {
        Option::Some(l) => seq![ScanEntryV { import: path, version: l@ }],
        Option::None => leaf_entries_list(d.children@, path),
    }
}

/// The leaves below a run of sibling directories.
pub open spec fn leaf_entries_list(cs: Seq<VendorDir>, prefix: Seq<char>) -> Seq<ScanEntryV>
    decreases cs,
{
    if cs.len() == 0 {
        Seq::empty()
    } else {
        leaf_entries_list(cs.drop_last(), prefix) + leaf_entries(cs.last(), prefix)
    }
}

/// Build the path of a child directory.
fn join_path_exec(prefix: &str, name: &String) -> (r: String)
    ensures
        r@ == join_path(prefix@, name@),
{
    if prefix.unicode_len() == 0 {
        name.clone()
    } else {
        let mut r = prefix.to_owned();
        r.append("/");
        r.append(name.as_str());
        proof {
            reveal_strlit("/");
            assert("/"@ =~= seq!['/']);
            assert(r@ =~= prefix@ + seq!['/'] + name@);
        }
        r
    }
}

fn scan_dir(d: &VendorDir, prefix: &str, out: &mut Vec<ScanEntry>)
    ensures
        entries_view(final(out)@) == entries_view(old(out)@) + leaf_entries(*d, prefix@),
    decreases *d,
{
    let path = join_path_exec(prefix, &d.name);
    match &d.label {
        Option::Some(l) => {
            let ghost prev = entries_view(out@);
            out.push(ScanEntry { import: path, version: l.clone() });
            proof {
                assert(entries_view(out@) =~= prev + leaf_entries(*d, prefix@));
            }
        },
        Option::None => {
            let ghost base = entries_view(out@);
            let ghost kids = d.children@;
            let mut i: usize = 0;
            proof {
                assert(leaf_entries_list(kids.take(0), path@) =~= Seq::<ScanEntryV>::empty());
                assert(entries_view(out@) =~= base + leaf_entries_list(kids.take(0), path@));
            }
            while i < d.children.len()
                invariant
                    i <= d.children@.len(),
                    kids == d.children@,
                    path@ == join_path(prefix@, d.name@),
                    entries_view(out@) == base + leaf_entries_list(
                        kids.take(i as int),
                        path@,
                    ),
                decreases d.children@.len() - i,
            {
                proof {
                    assert(decreases_to!(*d => d.children));
                }
                scan_dir(&d.children[i], path.as_str(), out);
                proof {
                    assert(kids.take(i as int + 1).drop_last() =~= kids.take(i as int));
                    assert(kids.take(i as int + 1).last() == kids[i as int]);
                    assert(entries_view(out@) =~= base + leaf_entries_list(
                        kids.take(i as int + 1),
                        path@,
                    ));
                }
                i = i + 1;
            }
            proof {
                assert(kids.take(kids.len() as int) =~= kids);
            }
        },
    }
}

/// Discover every repository leaf below the vendor root, handed in as the
/// root's list of subdirectories: the ground truth that `reset` rebuilds
/// the documents from.
pub fn scan_vendor_tree(root: &Vec<VendorDir>) -> (r: Vec<ScanEntry>)
    ensures
        entries_view(r@) == leaf_entries_list(root@, Seq::<char>::empty()),
{
    let mut out: Vec<ScanEntry> = Vec::new();
    let ghost dirs = root@;
    let mut i: usize = 0;
    proof {
        assert(entries_view(out@) =~= leaf_entries_list(
            dirs.take(0),
            Seq::<char>::empty(),
        ));
    }
    while i < root.len()
        invariant
            i <= root@.len(),
            dirs == root@,
            entries_view(out@) == leaf_entries_list(dirs.take(i as int), Seq::<char>::empty()),
        decreases root@.len() - i,
    {
        scan_dir(&root[i], "", &mut out);
        proof {
            reveal_strlit("");
            assert(""@ =~= Seq::<char>::empty());
            assert(dirs.take(i as int + 1).drop_last() =~= dirs.take(i as int));
            assert(dirs.take(i as int + 1).last() == dirs[i as int]);
            assert(entries_view(out@) =~= leaf_entries_list(
                dirs.take(i as int + 1),
                Seq::<char>::empty(),
            ));
        }
        i = i + 1;
    }
    proof {
        assert(dirs.take(dirs.len() as int) =~= dirs);
    }
    out
}

/// Turn discovered entries into lock-record descriptors.
pub fn entries_to_packages(entries: Vec<ScanEntry>) -> (r: Vec<Package>)
    ensures
        r@.len() == entries@.len(),
        forall|i: int|
            0 <= i < r@.len() ==> r@[i]@ == (PackageV {
                import: entries_view(entries@)[i].import,
                update: Option::None,
                version: Option::Some(entries_view(entries@)[i].version),
                repo: Option::None,
            }),
{
    let ghost evs = entries_view(entries@);
    let n = entries.len();
    proof {
        assert(evs.len() == n);
    }
    let mut r: Vec<Package> = Vec::new();
    let mut entries = entries;
    let mut k: usize = 0;
    while entries.len() > 0
        invariant
            evs.len() <= usize::MAX,
            k + entries@.len() == evs.len(),
            k == r@.len(),
            forall|i: int| 0 <= i < entries@.len() ==> entries@[i]@ == evs[k + i],
            forall|i: int|
                0 <= i < r@.len() ==> r@[i]@ == (PackageV {
                    import: evs[i].import,
                    update: Option::None,
                    version: Option::Some(evs[i].version),
                    repo: Option::None,
                }),
        decreases entries@.len(),
    {
        let e = entries.remove(0);
        r.push(Package {
            import: e.import,
            update: Option::None,
            version: Option::Some(e.version),
            repo: Option::None,
        });
        k = k + 1;
    }
    r
}

/// A directory name fit for an import path: nonempty and without the
/// separator.
pub open spec fn valid_name(n: Seq<char>) -> bool {
    n.len() > 0 && forall|i: int| 0 <= i < n.len() ==> n[i] != '/'
}

/// A well-formed vendor tree: every directory has a usable name and no two
/// siblings share one.
pub open spec fn wf_dirs(cs: Seq<VendorDir>) -> bool
    decreases cs,
{
    &&& (forall|i: int| 0 <= i < cs.len() ==> valid_name(#[trigger] cs[i].name@))
    &&& (forall|i: int, j: int| 0 <= i < j < cs.len() ==> cs[i].name@ != cs[j].name@)
    &&& (forall|i: int| 0 <= i < cs.len() ==> wf_dirs(#[trigger] cs[i].children@))
}

/// An import path lies at or below a directory path.
pub open spec fn path_extends(imp: Seq<char>, path: Seq<char>) -> bool {
    &&& imp.len() >= path.len()
    &&& imp.take(path.len() as int) == path
    &&& (imp.len() == path.len() || imp[path.len() as int] == '/')
}

proof fn lemma_extends_join(x: Seq<char>, p: Seq<char>, n: Seq<char>)
    requires
        p.len() > 0,
        path_extends(x, join_path(p, n)),
    ensures
        path_extends(x, p),
{
    let pn = join_path(p, n);
    assert(pn.take(p.len() as int) =~= p);
    assert(x.take(p.len() as int) =~= x.take(pn.len() as int).take(p.len() as int));
    if x.len() > p.len() {
        if x.len() == pn.len() {
            assert(x[p.len() as int] == pn[p.len() as int]);
        } else {
            assert(x[p.len() as int] == pn[p.len() as int]);
        }
    }
}

proof fn lemma_extends_separate_one(
    x: Seq<char>,
    y: Seq<char>,
    p: Seq<char>,
    n1: Seq<char>,
    n2: Seq<char>,
)
    requires
        valid_name(n1),
        valid_name(n2),
        n1 != n2,
        n1.len() <= n2.len(),
        path_extends(x, join_path(p, n1)),
        path_extends(y, join_path(p, n2)),
    ensures
        x != y,
{
    let p1 = join_path(p, n1);
    let p2 = join_path(p, n2);
    let base: int = if p.len() == 0 {
        0
    } else {
        p.len() as int + 1
    };
    assert(p1.len() == base + n1.len());
    assert(p2.len() == base + n2.len());
    assert(forall|i: int| 0 <= i < n1.len() ==> p1[base + i] == n1[i]);
    assert(forall|i: int| 0 <= i < n2.len() ==> p2[base + i] == n2[i]);
    if x == y {
        assert(forall|i: int| 0 <= i < p1.len() ==> x[i] == p1[i]) by {
            assert(forall|i: int| 0 <= i < p1.len() ==> x.take(p1.len() as int)[i] == x[i]);
        }
        assert(forall|i: int| 0 <= i < p2.len() ==> y[i] == p2[i]) by {
            assert(forall|i: int| 0 <= i < p2.len() ==> y.take(p2.len() as int)[i] == y[i]);
        }
        if n1.len() == n2.len() {
            assert(n1 =~= n2);
        } else {
            // x continues past the shorter name with a separator, but the
            // longer sibling name has none at that position
            assert(y.len() >= p2.len());
            assert(x.len() > p1.len());
            assert(x[p1.len() as int] == '/');
            assert(y[base + n1.len() as int] == n2[n1.len() as int]);
            assert(n2[n1.len() as int] != '/');
        }
    }
}

proof fn lemma_extends_separate(
    x: Seq<char>,
    y: Seq<char>,
    p: Seq<char>,
    n1: Seq<char>,
    n2: Seq<char>,
)
    requires
        valid_name(n1),
        valid_name(n2),
        n1 != n2,
        path_extends(x, join_path(p, n1)),
        path_extends(y, join_path(p, n2)),
    ensures
        x != y,
{
    if n1.len() <= n2.len() {
        lemma_extends_separate_one(x, y, p, n1, n2);
    } else {
        lemma_extends_separate_one(y, x, p, n2, n1);
    }
}

proof fn lemma_dir_entries(d: VendorDir, prefix: Seq<char>)
    requires
        valid_name(d.name@),
        wf_dirs(d.children@),
    ensures
        ({
            let es = leaf_entries(d, prefix);
            &&& (forall|k: int|
                0 <= k < es.len() ==> path_extends(
                    #[trigger] es[k].import,
                    join_path(prefix, d.name@),
                ))
            &&& (forall|k: int, l: int| 0 <= k < l < es.len() ==> es[k].import != es[l].import)
        }),
    decreases d,
{
    let path = join_path(prefix, d.name@);
    assert(path.len() > 0);
    match d.label {
        Option::Some(_) => {
            let es = leaf_entries(d, prefix);
            assert(es.len() == 1);
            assert(es[0].import == path);
            assert(es[0].import.take(path.len() as int) =~= path);
            assert(path_extends(es[0].import, path));
        },
        Option::None => {
            assert(decreases_to!(d => d.children));
            lemma_list_entries(d.children@, path);
            let es = leaf_entries(d, prefix);
            let ls = leaf_entries_list(d.children@, path);
            assert(es == ls);
            assert forall|k: int| 0 <= k < es.len() implies path_extends(
                #[trigger] es[k].import,
                path,
            ) by {
                assert(ls[k].import == es[k].import);
                let i = choose|i: int|
                    0 <= i < d.children@.len() && path_extends(
                        ls[k].import,
                        join_path(path, d.children@[i].name@),
                    );
                lemma_extends_join(es[k].import, path, d.children@[i].name@);
            }
            assert(forall|k: int, l: int|
                0 <= k < l < es.len() ==> es[k].import != es[l].import);
        },
    }
}

proof fn lemma_list_entries(cs: Seq<VendorDir>, prefix: Seq<char>)
    requires
        wf_dirs(cs),
    ensures
        ({
            let es = leaf_entries_list(cs, prefix);
            &&& (forall|k: int|
                0 <= k < es.len() ==> exists|i: int|
                    0 <= i < cs.len() && path_extends(
                        #[trigger] es[k].import,
                        join_path(prefix, cs[i].name@),
                    ))
            &&& (forall|k: int, l: int| 0 <= k < l < es.len() ==> es[k].import != es[l].import)
        }),
    decreases cs,
{
    if cs.len() > 0 {
        let front = cs.drop_last();
        let d = cs.last();
        assert(wf_dirs(front)) by {
            assert(forall|i: int| 0 <= i < front.len() ==> front[i] == cs[i]);
        }
        lemma_list_entries(front, prefix);
        assert(cs[cs.len() - 1] == d);
        lemma_dir_entries(d, prefix);
        let fs = leaf_entries_list(front, prefix);
        let ds = leaf_entries(d, prefix);
        let es = leaf_entries_list(cs, prefix);
        assert(es == fs + ds);
        assert forall|k: int| 0 <= k < es.len() implies exists|i: int|
            0 <= i < cs.len() && path_extends(
                #[trigger] es[k].import,
                join_path(prefix, cs[i].name@),
            ) by {
            if k < fs.len() {
                assert(es[k] == fs[k]);
                let i = choose|i: int|
                    0 <= i < front.len() && path_extends(
                        fs[k].import,
                        join_path(prefix, front[i].name@),
                    );
                assert(front[i] == cs[i]);
                assert(path_extends(es[k].import, join_path(prefix, cs[i].name@)));
            } else {
                assert(es[k] == ds[k - fs.len()]);
                assert(path_extends(es[k].import, join_path(prefix, cs[cs.len() - 1].name@)));
            }
        }
        assert forall|k: int, l: int| 0 <= k < l < es.len() implies es[k].import
            != es[l].import by {
            if l < fs.len() {
                assert(es[k] == fs[k] && es[l] == fs[l]);
            } else if k >= fs.len() {
                assert(es[k] == ds[k - fs.len()] && es[l] == ds[l - fs.len()]);
            } else {
                assert(es[k] == fs[k] && es[l] == ds[l - fs.len()]);
                let i = choose|i: int|
                    0 <= i < front.len() && path_extends(
                        fs[k].import,
                        join_path(prefix, front[i].name@),
                    );
                assert(front[i] == cs[i]);
                assert(cs[i].name@ != d.name@);
                lemma_extends_separate(
                    es[k].import,
                    es[l].import,
                    prefix,
                    cs[i].name@,
                    d.name@,
                );
            }
        }
    }
}

/// Round trip of discovery: in a well-formed vendor tree the scan finds
/// exactly the repository leaves (that is what `leaf_entries_list` lists),
/// and no import path twice, at any nesting depth; `reset` then rebuilds a
/// lock record whose remote set is exactly these entries.
pub proof fn lemma_scan_imports_distinct(root: Seq<VendorDir>)
    requires
        wf_dirs(root),
    ensures
        ({
            let es = leaf_entries_list(root, Seq::<char>::empty());
            forall|k: int, l: int| 0 <= k < l < es.len() ==> es[k].import != es[l].import
        }),
{
    lemma_list_entries(root, Seq::<char>::empty());
}

/// The resolved label a repository leaf reports: the tag's name when the
/// head points at a tag, else the branch's short name when it points at a
/// branch, else the raw commit id; a name that could not be read falls
/// back to the commit id.
pub fn head_label(f: HeadFacts) -> (r: String)
    ensures
        f.is_tag ==> r@ == (match f.tag_name {
            Option::Some(n) => n@,
            Option::None => f.id_hex@,
        }),
        !f.is_tag && f.is_branch ==> r@ == (match f.shorthand {
            Option::Some(s) => s@,
            Option::None => f.id_hex@,
        }),
        !f.is_tag && !f.is_branch ==> r@ == f.id_hex@,
{
    if f.is_tag {
        match f.tag_name {
            Option::Some(n) => n,
            Option::None => f.id_hex,
        }
    } else if f.is_branch {
        match f.shorthand {
            Option::Some(s) => s,
            Option::None => f.id_hex,
        }
    } else {
        f.id_hex
    }
}

/// The termination-detection state of the concurrent scan: how many
/// traversal units have been dispatched and how many have completed, and
/// what the completed units found. The pending count is incremented before
/// each new dispatch and decremented once per received completion, so it
/// reads zero only when every dispatched unit has completed.
pub struct ScanCoordinator {
    pub dispatched: u64,
    pub completed: u64,
    pub entries: Vec<ScanEntry>,
}

impl ScanCoordinator {
    /// Every completion belongs to a dispatch.
    pub open spec fn wf(&self) -> bool {
        self.completed <= self.dispatched
    }

    /// Traversal units whose completion signal is still outstanding.
    pub open spec fn pending(&self) -> int {
        self.dispatched - self.completed
    }

    /// Start a scan: the vendor root itself is the first dispatched unit.
    pub fn new() -> (r: Self)
        ensures
            r.wf(),
            r.pending() == 1,
            r.entries@.len() == 0,
    {
        ScanCoordinator { dispatched: 1, completed: 0, entries: Vec::new() }
    }

    /// Record one completion signal: the unit found `discovered` new
    /// subdirectories, each of which is dispatched (and counted) before the
    /// unit's own completion is counted, and at most one leaf entry.
    pub fn unit_completed(&mut self, discovered: u64, found: Option<ScanEntry>) -> (r: bool)
        requires
            old(self).wf(),
            old(self).pending() > 0,
            old(self).dispatched + discovered <= u64::MAX,
        ensures
            final(self).wf(),
            final(self).pending() == old(self).pending() - 1 + discovered,
            r == (final(self).pending() == 0),
            entries_view(final(self).entries@) == match found {
                Option::Some(e) => entries_view(old(self).entries@).push(e@),
                Option::None => entries_view(old(self).entries@),
            },
    {
        self.dispatched = self.dispatched + discovered;
        self.completed = self.completed + 1;
        let ghost prev = entries_view(self.entries@);
        match found {
            Option::Some(e) => {
                self.entries.push(e);
                proof {
                    assert(entries_view(self.entries@) =~= prev.push(
                        entries_view(self.entries@).last(),
                    ));
                }
            },
            Option::None => (),
        }
        self.completed == self.dispatched
    }

    /// The scan is complete exactly when no dispatched unit is outstanding.
    pub fn is_done(&self) -> (r: bool)
        ensures
            r == (self.pending() == 0),
    {
        self.completed == self.dispatched
    }

    /// Hand out what the completed units found.
    pub fn into_entries(self) -> (r: Vec<ScanEntry>)
        ensures
            r == self.entries,
    {
        self.entries
    }
}

} // verus!
