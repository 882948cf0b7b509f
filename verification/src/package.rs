//! The package data model: descriptors, the manifest of declared intent and
//! the lock record of resolved state.

use vstd::prelude::*;
use crate::strutil::str_eq;

verus! {

/// How a remote package is meant to move on update.
#[derive(PartialEq, Eq, Structural, Clone, Copy, Debug)]
pub enum PackageUpdate {
    Fixed,
    Minor,
    Patch,
    Latest,
}

/// A remote package descriptor. In a manifest `version` holds a constraint;
/// in a lock record it holds the resolved label actually checked out.
pub struct Package {
    pub import: String,
    pub update: Option<PackageUpdate>,
    pub version: Option<String>,
    pub repo: Option<String>,
}

/// Mathematical value of a `Package`.
pub ghost struct PackageV {
    pub import: Seq<char>,
    pub update: Option<PackageUpdate>,
    pub version: Option<Seq<char>>,
    pub repo: Option<Seq<char>>,
}

impl View for Package {
    type V = PackageV;

    open spec fn view(&self) -> PackageV {
        PackageV {
            import: self.import@,
            update: self.update,
            version: match self.version {
                Option::Some(ref v) => Option::Some(v@),
                Option::None => Option::None,
            },
            repo: match self.repo {
                Option::Some(ref r) => Option::Some(r@),
                Option::None => Option::None,
            },
        }
    }
}

impl Package {
    /// An empty descriptor, filled in field by field by its builders.
    pub fn new() -> (r: Self)
        ensures
            r@.import == Seq::<char>::empty(),
            r@.update is None,
            r@.version is None,
            r@.repo is None,
    {
        Package { import: String::new(), update: Option::None, version: Option::None, repo:
            Option::None }
    }
}

/// Copy a descriptor; the derived clone of `String` fields carries no
/// specification, so the copy is spelled out.
pub fn clone_package(p: &Package) -> (r: Package)
    ensures
        r@ == p@,
{
    Package {
        import: p.import.clone(),
        update: p.update,
        version: match p.version {
            Option::Some(ref v) => Option::Some(v.clone()),
            Option::None => Option::None,
        },
        repo: match p.repo {
            Option::Some(ref r) => Option::Some(r.clone()),
            Option::None => Option::None,
        },
    }
}

/// The import paths of a run of descriptors, in order.
pub open spec fn imports_of(s: Seq<PackageV>) -> Seq<Seq<char>> {
    s.map_values(|p: PackageV| p.import)
}

/// View of a descriptor list.
pub open spec fn pkgs_view(s: Seq<Package>) -> Seq<PackageV> {
    s.map_values(|p: Package| p@)
}

/// View of a name list.
pub open spec fn names_view(s: Seq<String>) -> Seq<Seq<char>> {
    s.map_values(|n: String| n@)
}

/// The manifest: the project-info block, carried through opaquely, and the
/// three declared package sets.
pub struct Manifest {
    pub info: String,
    pub remote: Vec<Package>,
    pub local: Vec<String>,
    pub global: Vec<String>,
}

/// Mathematical value of a `Manifest`.
pub ghost struct ManifestV {
    pub info: Seq<char>,
    pub remote: Seq<PackageV>,
    pub local: Seq<Seq<char>>,
    pub global: Seq<Seq<char>>,
}

impl View for Manifest {
    type V = ManifestV;

    open spec fn view(&self) -> ManifestV {
        ManifestV {
            info: self.info@,
            remote: pkgs_view(self.remote@),
            local: names_view(self.local@),
            global: names_view(self.global@),
        }
    }
}

/// The lock record: the three resolved package sets.
pub struct LockRecord {
    pub remote: Vec<Package>,
    pub local: Vec<String>,
    pub global: Vec<String>,
}

/// Mathematical value of a `LockRecord`.
pub ghost struct LockRecordV {
    pub remote: Seq<PackageV>,
    pub local: Seq<Seq<char>>,
    pub global: Seq<Seq<char>>,
}

impl View for LockRecord {
    type V = LockRecordV;

    open spec fn view(&self) -> LockRecordV {
        LockRecordV {
            remote: pkgs_view(self.remote@),
            local: names_view(self.local@),
            global: names_view(self.global@),
        }
    }
}

/// Copy a descriptor list, entry by entry.
pub fn clone_packages(pkgs: &Vec<Package>) -> (r: Vec<Package>)
    ensures
        pkgs_view(r@) == pkgs_view(pkgs@),
{
    let mut r: Vec<Package> = Vec::new();
    let mut i: usize = 0;
    while i < pkgs.len()
        invariant
            i <= pkgs@.len(),
            pkgs_view(r@) =~= pkgs_view(pkgs@).take(i as int),
        decreases pkgs@.len() - i,
    {
        let c = clone_package(&pkgs[i]);
        let ghost prev = r@;
        r.push(c);
        proof {
            assert(pkgs_view(prev).len() == i as int);
            assert(prev.len() == i as int);
            assert forall|j: int| 0 <= j < i + 1 implies pkgs_view(r@)[j] == pkgs_view(
                pkgs@,
            ).take(i as int + 1)[j] by {
                if j < i {
                    assert(r@[j] == prev[j]);
                    assert(pkgs_view(prev)[j] == pkgs_view(pkgs@).take(i as int)[j]);
                }
            }
            assert(pkgs_view(r@) =~= pkgs_view(pkgs@).take(i as int + 1));
        }
        i = i + 1;
    }
    proof {
        assert(pkgs_view(pkgs@).take(pkgs@.len() as int) =~= pkgs_view(pkgs@));
        assert(pkgs_view(r@) =~= pkgs_view(pkgs@));
    }
    r
}

/// Copy a name list, entry by entry.
pub fn clone_names(names: &Vec<String>) -> (r: Vec<String>)
    ensures
        names_view(r@) == names_view(names@),
{
    let mut r: Vec<String> = Vec::new();
    let mut i: usize = 0;
    while i < names.len()
        invariant
            i <= names@.len(),
            names_view(r@) =~= names_view(names@).take(i as int),
        decreases names@.len() - i,
    {
        let c = names[i].clone();
        let ghost prev = r@;
        r.push(c);
        proof {
            assert(names_view(prev).len() == i as int);
            assert(prev.len() == i as int);
            assert forall|j: int| 0 <= j < i + 1 implies names_view(r@)[j] == names_view(
                names@,
            ).take(i as int + 1)[j] by {
                if j < i {
                    assert(r@[j] == prev[j]);
                    assert(names_view(prev)[j] == names_view(names@).take(i as int)[j]);
                }
            }
            assert(names_view(r@) =~= names_view(names@).take(i as int + 1));
        }
        i = i + 1;
    }
    proof {
        assert(names_view(names@).take(names@.len() as int) =~= names_view(names@));
        assert(names_view(r@) =~= names_view(names@));
    }
    r
}

/// Unique import keys within one descriptor set: the manifest and lock
/// invariant that the workflows preserve.
pub open spec fn unique_imports(s: Seq<PackageV>) -> bool {
    forall|i: int, j: int| 0 <= i < j < s.len() ==> s[i].import != s[j].import
}

/// Unique names within one name set.
pub open spec fn unique_names(s: Seq<Seq<char>>) -> bool {
    forall|i: int, j: int| 0 <= i < j < s.len() ==> s[i] != s[j]
}

/// Well-formedness of a manifest: within each of its three sets the keys
/// are unique.
pub open spec fn manifest_wf(m: ManifestV) -> bool {
    unique_imports(m.remote) && unique_names(m.local) && unique_names(m.global)
}

/// Well-formedness of a lock record.
pub open spec fn lock_wf(l: LockRecordV) -> bool {
    unique_imports(l.remote) && unique_names(l.local) && unique_names(l.global)
}

/// Removing a descriptor never introduces a duplicate key.
pub proof fn lemma_remove_import_unique(s: Seq<PackageV>, import: Seq<char>)
    ensures
        unique_imports(s) ==> unique_imports(spec_remove_import(s, import)),
{
    if unique_imports(s) && exists|i: int| 0 <= i < s.len() && s[i].import == import {
        let i = choose|i: int|
            0 <= i < s.len() && s[i].import == import && forall|j: int|
                0 <= j < i ==> s[j].import != import;
        let t = s.remove(i);
        assert forall|k: int, l: int| 0 <= k < l < t.len() implies t[k].import
            != t[l].import by {
            assert(t[k] == if k < i {
                s[k]
            } else {
                s[k + 1]
            });
            assert(t[l] == if l < i {
                s[l]
            } else {
                s[l + 1]
            });
        }
    }
}

/// Removing a name never introduces a duplicate.
pub proof fn lemma_remove_name_unique(s: Seq<Seq<char>>, name: Seq<char>)
    ensures
        unique_names(s) ==> unique_names(spec_remove_name(s, name)),
{
    if unique_names(s) && exists|i: int| 0 <= i < s.len() && s[i] == name {
        let i = choose|i: int|
            0 <= i < s.len() && s[i] == name && forall|j: int| 0 <= j < i ==> s[j] != name;
        let t = s.remove(i);
        assert forall|k: int, l: int| 0 <= k < l < t.len() implies t[k] != t[l] by {
            assert(t[k] == if k < i {
                s[k]
            } else {
                s[k + 1]
            });
            assert(t[l] == if l < i {
                s[l]
            } else {
                s[l + 1]
            });
        }
    }
}

/// Appending a fresh import keeps the keys unique.
pub proof fn lemma_push_import_unique(s: Seq<PackageV>, p: PackageV)
    ensures
        unique_imports(s) && !imports_of(s).contains(p.import) ==> unique_imports(s.push(p)),
{
    if unique_imports(s) && !imports_of(s).contains(p.import) {
        let t = s.push(p);
        assert forall|k: int, l: int| 0 <= k < l < t.len() implies t[k].import
            != t[l].import by {
            if l == s.len() {
                assert(imports_of(s)[k] == s[k].import);
            }
        }
    }
}

/// Appending a fresh name keeps the names unique.
pub proof fn lemma_push_name_unique(s: Seq<Seq<char>>, n: Seq<char>)
    ensures
        unique_names(s) && !s.contains(n) ==> unique_names(s.push(n)),
{
    if unique_names(s) && !s.contains(n) {
        let t = s.push(n);
        assert forall|k: int, l: int| 0 <= k < l < t.len() implies t[k] != t[l] by {
            if l == s.len() {
                assert(s[k] == t[k]);
            }
        }
    }
}

/// Index of the first descriptor with the given import path.
pub fn find_import(pkgs: &Vec<Package>, import: &str) -> (r: Option<usize>)
    ensures
        match r {
            Option::Some(i) => i < pkgs@.len() && pkgs@[i as int]@.import == import@
                && forall|j: int| 0 <= j < i ==> pkgs@[j]@.import != import@,
            Option::None => forall|j: int|
                0 <= j < pkgs@.len() ==> pkgs@[j]@.import != import@,
        },
{
    let mut i: usize = 0;
    while i < pkgs.len()
        invariant
            i <= pkgs@.len(),
            forall|j: int| 0 <= j < i ==> pkgs@[j]@.import != import@,
        decreases pkgs@.len() - i,
    {
        if str_eq(pkgs[i].import.as_str(), import) {
            return Option::Some(i);
        }
        i = i + 1;
    }
    Option::None
}

/// Whether some descriptor declares the import path.
pub fn has_import(pkgs: &Vec<Package>, import: &str) -> (r: bool)
    ensures
        r == imports_of(pkgs_view(pkgs@)).contains(import@),
{
    let found = find_import(pkgs, import);
    proof {
        match found {
            Option::Some(i) => {
                assert(imports_of(pkgs_view(pkgs@))[i as int] == import@);
            },
            Option::None => {
                assert(forall|j: int|
                    0 <= j < pkgs@.len() ==> imports_of(pkgs_view(pkgs@))[j] != import@);
            },
        }
    }
    found.is_some()
}

/// Index of the first name equal to the given one.
pub fn find_name(names: &Vec<String>, name: &str) -> (r: Option<usize>)
    ensures
        match r {
            Option::Some(i) => i < names@.len() && names@[i as int]@ == name@ && forall|j: int|
                0 <= j < i ==> names@[j]@ != name@,
            Option::None => forall|j: int| 0 <= j < names@.len() ==> names@[j]@ != name@,
        },
{
    let mut i: usize = 0;
    while i < names.len()
        invariant
            i <= names@.len(),
            forall|j: int| 0 <= j < i ==> names@[j]@ != name@,
        decreases names@.len() - i,
    {
        if str_eq(names[i].as_str(), name) {
            return Option::Some(i);
        }
        i = i + 1;
    }
    Option::None
}

/// Whether the list holds the name.
pub fn has_name(names: &Vec<String>, name: &str) -> (r: bool)
    ensures
        r == names_view(names@).contains(name@),
{
    let found = find_name(names, name);
    proof {
        match found {
            Option::Some(i) => {
                assert(names_view(names@)[i as int] == name@);
            },
            Option::None => {
                assert(forall|j: int| 0 <= j < names@.len() ==> names_view(names@)[j] != name@);
            },
        }
    }
    found.is_some()
}

/// A descriptor list after dropping the first entry with the given import
/// path, if one is there.
pub open spec fn spec_remove_import(s: Seq<PackageV>, import: Seq<char>) -> Seq<PackageV> {
    if exists|i: int| 0 <= i < s.len() && s[i].import == import {
        let i = choose|i: int|
            0 <= i < s.len() && s[i].import == import && forall|j: int|
                0 <= j < i ==> s[j].import != import;
        s.remove(i)
    } else {
        s
    }
}

/// Drop the first descriptor with the given import path: the removal step
/// shared by the removal workflow across both documents.
pub fn remove_package_from_array(pkgs: Vec<Package>, import: &str) -> (r: Vec<Package>)
    ensures
        pkgs_view(r@) == spec_remove_import(pkgs_view(pkgs@), import@),
{
    let ghost orig = pkgs_view(pkgs@);
    let mut pkgs = pkgs;
    match find_import(&pkgs, import) {
        Option::Some(i) => {
            pkgs.remove(i);
            proof {
                assert(orig[i as int].import == import@);
                let w = choose|w: int|
                    0 <= w < orig.len() && orig[w].import == import@ && forall|j: int|
                        0 <= j < w ==> orig[j].import != import@;
                assert(w == i);
                assert(pkgs_view(pkgs@) =~= orig.remove(i as int));
            }
            pkgs
        },
        Option::None => {
            proof {
                assert(forall|j: int| 0 <= j < orig.len() ==> orig[j].import != import@);
                assert(pkgs_view(pkgs@) =~= orig);
            }
            pkgs
        },
    }
}

/// A name list after dropping the first entry equal to the name.
pub open spec fn spec_remove_name(s: Seq<Seq<char>>, name: Seq<char>) -> Seq<Seq<char>> {
    if exists|i: int| 0 <= i < s.len() && s[i] == name {
        let i = choose|i: int|
            0 <= i < s.len() && s[i] == name && forall|j: int| 0 <= j < i ==> s[j] != name;
        s.remove(i)
    } else {
        s
    }
}

/// Drop the first name equal to the given one.
pub fn remove_name_from_array(names: Vec<String>, name: &str) -> (r: Vec<String>)
    ensures
        names_view(r@) == spec_remove_name(names_view(names@), name@),
{
    let ghost orig = names_view(names@);
    let mut names = names;
    match find_name(&names, name) {
        Option::Some(i) => {
            names.remove(i);
            proof {
                assert(orig[i as int] == name@);
                let w = choose|w: int|
                    0 <= w < orig.len() && orig[w] == name@ && forall|j: int|
                        0 <= j < w ==> orig[j] != name@;
                assert(w == i);
                assert(names_view(names@) =~= orig.remove(i as int));
            }
            names
        },
        Option::None => {
            proof {
                assert(names_view(names@) =~= orig);
            }
            names
        },
    }
}

} // verus!
