//! Render the lock record's package lists for display.

use vstd::prelude::*;
use crate::package::{PackageV, LockRecord, pkgs_view, names_view};
use crate::strutil::{dec_rep, u64_to_string};

verus! {

pub open spec fn import_label() -> Seq<char> {
    seq!['\t', 'I', 'm', 'p', 'o', 'r', 't', ':', ' ']
}

pub open spec fn version_label() -> Seq<char> {
    seq!['\t', 'V', 'e', 'r', 's', 'i', 'o', 'n', ':', ' ']
}

pub open spec fn repo_label() -> Seq<char> {
    seq!['\t', 'R', 'e', 'p', 'o', 's', 'i', 't', 'o', 'r', 'y', ':', ' ']
}

/// `title (count):` and a line break.
pub open spec fn header_line(title: Seq<char>, n: int) -> Seq<char> {
    title + seq![' ', '('] + dec_rep(n) + seq![')', ':', '\n']
}

/// The `[i]` tag before an entry.
pub open spec fn entry_tag(i: int) -> Seq<char> {
    seq!['['] + dec_rep(i) + seq![']']
}

/// One name entry: its one-based position and its import line.
pub open spec fn str_entry(i: int, name: Seq<char>) -> Seq<char> {
    entry_tag(i) + import_label() + name + seq!['\n', '\n']
}

/// All name entries, numbered from one.
pub open spec fn str_entries(names: Seq<Seq<char>>) -> Seq<char>
    decreases names.len(),
{
    if names.len() == 0 {
        Seq::empty()
    } else {
        str_entries(names.drop_last()) + str_entry(names.len() as int, names.last())
    }
}

/// One remote-package entry: import, the resolved label when there is one,
/// and the override URL when there is one.
pub open spec fn git_entry(i: int, p: PackageV) -> Seq<char> {
    entry_tag(i) + import_label() + p.import + seq!['\n'] + (match p.version {
        Option::Some(v) => version_label() + v + seq!['\n'],
        Option::None => Seq::empty(),
    }) + (match p.repo {
        Option::Some(r) => repo_label() + r + seq!['\n', '\n'],
        Option::None => seq!['\n'],
    })
}

/// All remote-package entries, numbered from one.
pub open spec fn git_entries(pkgs: Seq<PackageV>) -> Seq<char>
    decreases pkgs.len(),
{
    if pkgs.len() == 0 {
        Seq::empty()
    } else {
        git_entries(pkgs.drop_last()) + git_entry(pkgs.len() as int, pkgs.last())
    }
}

/// A titled section; an empty set prints nothing at all.
pub open spec fn name_section(title: Seq<char>, names: Seq<Seq<char>>) -> Seq<char> {
    if names.len() == 0 {
        Seq::empty()
    } else {
        header_line(title, names.len() as int) + str_entries(names)
    }
}

pub open spec fn remote_section(title: Seq<char>, pkgs: Seq<PackageV>) -> Seq<char> {
    if pkgs.len() == 0 {
        Seq::empty()
    } else {
        header_line(title, pkgs.len() as int) + git_entries(pkgs)
    }
}

/// The whole listing: the selected sections in the fixed order remote,
/// local, global; no flag at all selects every section.
pub open spec fn listing_text(
    lock: crate::package::LockRecordV,
    is_local: bool,
    is_remote: bool,
    is_global: bool,
) -> Seq<char> {
    let all = !(is_local || is_remote || is_global);
    (if is_remote || all {
        remote_section("Remote packages"@, lock.remote)
    } else {
        Seq::empty()
    }) + (if is_local || all {
        name_section("Local packages"@, lock.local)
    } else {
        Seq::empty()
    }) + (if is_global || all {
        name_section("Global packages"@, lock.global)
    } else {
        Seq::empty()
    })
}

fn push_header(out: &mut String, title: &str, n: usize)
    ensures
        final(out)@ == old(out)@ + header_line(title@, n as int),
{
    out.append(title);
    out.append(" (");
    let num = u64_to_string(n as u64);
    out.append(num.as_str());
    out.append("):\n");
    proof {
        reveal_strlit(" (");
        reveal_strlit("):\n");
        assert(" ("@ =~= seq![' ', '(']);
        assert("):\n"@ =~= seq![')', ':', '\n']);
        assert(final(out)@ =~= old(out)@ + header_line(title@, n as int));
    }
}

fn push_entry_tag(out: &mut String, i: usize)
    requires
        i < usize::MAX,
    ensures
        final(out)@ == old(out)@ + entry_tag(i as int + 1),
{
    out.append("[");
    let num = u64_to_string((i as u64) + 1);
    out.append(num.as_str());
    out.append("]");
    proof {
        reveal_strlit("[");
        reveal_strlit("]");
        assert("["@ =~= seq!['[']);
        assert("]"@ =~= seq![']']);
        assert(final(out)@ =~= old(out)@ + entry_tag(i as int + 1));
    }
}

fn push_str_entries(out: &mut String, names: &Vec<String>)
    ensures
        final(out)@ == old(out)@ + str_entries(names_view(names@)),
{
    let ghost ns = names_view(names@);
    let mut i: usize = 0;
    proof {
        assert(str_entries(ns.take(0)) =~= Seq::<char>::empty());
        assert(old(out)@ + str_entries(ns.take(0)) =~= old(out)@);
    }
    while i < names.len()
        invariant
            i <= names@.len(),
            ns == names_view(names@),
            out@ == old(out)@ + str_entries(ns.take(i as int)),
        decreases names@.len() - i,
    {
        push_entry_tag(out, i);
        out.append("\tImport: ");
        out.append(names[i].as_str());
        out.append("\n\n");
        proof {
            reveal_strlit("\tImport: ");
            reveal_strlit("\n\n");
            assert("\tImport: "@ =~= import_label());
            assert("\n\n"@ =~= seq!['\n', '\n']);
            assert(ns.take(i as int + 1).drop_last() =~= ns.take(i as int));
            assert(ns.take(i as int + 1).last() == ns[i as int]);
            assert(out@ =~= old(out)@ + str_entries(ns.take(i as int + 1)));
        }
        i = i + 1;
    }
    proof {
        assert(ns.take(names@.len() as int) =~= ns);
    }
}

fn push_git_entries(out: &mut String, pkgs: &Vec<crate::package::Package>)
    ensures
        final(out)@ == old(out)@ + git_entries(pkgs_view(pkgs@)),
{
    let ghost ps = pkgs_view(pkgs@);
    let mut i: usize = 0;
    proof {
        assert(git_entries(ps.take(0)) =~= Seq::<char>::empty());
        assert(old(out)@ + git_entries(ps.take(0)) =~= old(out)@);
    }
    while i < pkgs.len()
        invariant
            i <= pkgs@.len(),
            ps == pkgs_view(pkgs@),
            out@ == old(out)@ + git_entries(ps.take(i as int)),
        decreases pkgs@.len() - i,
    {
        push_entry_tag(out, i);
        out.append("\tImport: ");
        out.append(pkgs[i].import.as_str());
        out.append("\n");
        match &pkgs[i].version {
            Option::Some(v) => {
                out.append("\tVersion: ");
                out.append(v.as_str());
                out.append("\n");
            },
            Option::None => (),
        }
        match &pkgs[i].repo {
            Option::Some(r) => {
                out.append("\tRepository: ");
                out.append(r.as_str());
                out.append("\n\n");
            },
            Option::None => {
                out.append("\n");
            },
        }
        proof {
            reveal_strlit("\tImport: ");
            reveal_strlit("\tVersion: ");
            reveal_strlit("\tRepository: ");
            reveal_strlit("\n");
            reveal_strlit("\n\n");
            assert("\tImport: "@ =~= import_label());
            assert("\tVersion: "@ =~= version_label());
            assert("\tRepository: "@ =~= repo_label());
            assert("\n"@ =~= seq!['\n']);
            assert("\n\n"@ =~= seq!['\n', '\n']);
            assert(ps.take(i as int + 1).drop_last() =~= ps.take(i as int));
            assert(ps.take(i as int + 1).last() == ps[i as int]);
            assert(out@ =~= old(out)@ + git_entries(ps.take(i as int + 1)));
        }
        i = i + 1;
    }
    proof {
        assert(ps.take(pkgs@.len() as int) =~= ps);
    }
}

/// The text that listing the lock record prints: the selected package
/// sections, or every section when no flag is given.
pub fn list(is_local: bool, is_remote: bool, is_global: bool, lock: &LockRecord) -> (r: String)
    ensures
        r@ == listing_text(lock@, is_local, is_remote, is_global),
{
    let all = !(is_local || is_remote || is_global);
    let mut out = String::new();
    if (is_remote || all) && lock.remote.len() > 0 {
        push_header(&mut out, "Remote packages", lock.remote.len());
        push_git_entries(&mut out, &lock.remote);
    }
    let ghost after_remote = out@;
    if (is_local || all) && lock.local.len() > 0 {
        push_header(&mut out, "Local packages", lock.local.len());
        push_str_entries(&mut out, &lock.local);
    }
    let ghost after_local = out@;
    if (is_global || all) && lock.global.len() > 0 {
        push_header(&mut out, "Global packages", lock.global.len());
        push_str_entries(&mut out, &lock.global);
    }
    proof {
        assert(out@ =~= listing_text(lock@, is_local, is_remote, is_global));
    }
    out
}

} // verus!
