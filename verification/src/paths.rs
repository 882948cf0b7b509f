//! Import paths, clone URLs and vendor-tree paths.

use vstd::prelude::*;
use crate::strutil::{str_eq, push_char};

verus! {

/// `https://`, as characters.
pub open spec fn https_scheme() -> Seq<char> {
    seq!['h', 't', 't', 'p', 's', ':', '/', '/']
}

/// `http://`, as characters.
pub open spec fn http_scheme() -> Seq<char> {
    seq!['h', 't', 't', 'p', ':', '/', '/']
}

pub open spec fn starts_with(s: Seq<char>, p: Seq<char>) -> bool {
    s.len() >= p.len() && s.take(p.len() as int) == p
}

/// The import with every URL-scheme occurrence removed, scanning left to
/// right.
pub open spec fn strip_schemes(s: Seq<char>) -> Seq<char>
    decreases s.len(),
{
    if s.len() == 0 {
        s
    } else if starts_with(s, https_scheme()) {
        strip_schemes(s.skip(8))
    } else if starts_with(s, http_scheme()) {
        strip_schemes(s.skip(7))
    } else {
        seq![s[0]] + strip_schemes(s.drop_first())
    }
}

fn scheme_at(cs: &Vec<char>, i: usize) -> (r: Option<u8>)
    requires
        i <= cs@.len(),
    ensures
        ({
            let rest = cs@.skip(i as int);
            match r {
                Option::Some(n) => (n == 8 && starts_with(rest, https_scheme())) || (n == 7
                    && !starts_with(rest, https_scheme()) && starts_with(rest, http_scheme())),
                Option::None => !starts_with(rest, https_scheme()) && !starts_with(
                    rest,
                    http_scheme(),
                ),
            }
        }),
{
    let ghost rest = cs@.skip(i as int);
    let n = cs.len();
    if n - i >= 8 && cs[i] == 'h' && cs[i + 1] == 't' && cs[i + 2] == 't' && cs[i + 3] == 'p'
        && cs[i + 4] == 's' && cs[i + 5] == ':' && cs[i + 6] == '/' && cs[i + 7] == '/' {
        proof {
            assert(rest.take(8) =~= https_scheme());
        }
        return Option::Some(8);
    }
    if n - i >= 7 && cs[i] == 'h' && cs[i + 1] == 't' && cs[i + 2] == 't' && cs[i + 3] == 'p'
        && cs[i + 4] == ':' && cs[i + 5] == '/' && cs[i + 6] == '/' {
        proof {
            assert(rest.take(7) =~= http_scheme());
            if starts_with(rest, https_scheme()) {
                assert(rest[4] == 's');
            }
        }
        return Option::Some(7);
    }
    proof {
        if starts_with(rest, https_scheme()) {
            assert(rest.len() >= 8);
            assert(forall|k: int|
                0 <= k < 8 ==> rest.take(8)[k] == #[trigger] https_scheme()[k]);
            assert(false);
        }
        if starts_with(rest, http_scheme()) {
            assert(rest.len() >= 7);
            assert(forall|k: int| 0 <= k < 7 ==> rest.take(7)[k] == #[trigger] http_scheme()[k]);
            assert(false);
        }
    }
    Option::None
}

/// Remove every `http://` or `https://` occurrence from an import path.
pub fn strip_url_scheme(pkg_import: &str) -> (r: String)
    ensures
        r@ == strip_schemes(pkg_import@),
{
    let cs = crate::parse::chars_of(pkg_import);
    let mut r = String::new();
    let mut i: usize = 0;
    proof {
        assert(cs@.skip(0) =~= cs@);
        assert(r@ + strip_schemes(cs@) =~= strip_schemes(cs@));
    }
    while i < cs.len()
        invariant
            i <= cs@.len(),
            cs@ == pkg_import@,
            strip_schemes(pkg_import@) == r@ + strip_schemes(cs@.skip(i as int)),
        decreases cs@.len() - i,
    {
        match scheme_at(&cs, i) {
            Option::Some(n) => {
                proof {
                    assert(cs@.skip(i as int).skip(n as int) =~= cs@.skip(i as int + n as int));
                }
                i = i + (n as usize);
            },
            Option::None => {
                push_char(&mut r, cs[i]);
                proof {
                    assert(cs@.skip(i as int).drop_first() =~= cs@.skip(i as int + 1));
                    assert(cs@.skip(i as int)[0] == cs@[i as int]);
                }
                i = i + 1;
            },
        }
    }
    proof {
        assert(cs@.skip(i as int).len() == 0);
        assert(strip_schemes(cs@.skip(i as int)) =~= Seq::<char>::empty());
        assert(strip_schemes(pkg_import@) =~= r@);
    }
    r
}

/// The vendor-relative path of a remote package: the import path below the
/// fixed vendor root, separated by `/`.
pub fn get_path_from_url(pkg_import: &str) -> (r: String)
    ensures
        r@ == "vendor/"@ + pkg_import@,
{
    let mut r = "vendor/".to_owned();
    r.append(pkg_import);
    r
}

/// `golang.org/x/`, as characters.
pub open spec fn golang_x_prefix() -> Seq<char> {
    seq!['g', 'o', 'l', 'a', 'n', 'g', '.', 'o', 'r', 'g', '/', 'x', '/']
}

/// The clone URL derived from an import path when no override is given:
/// `https://` before the import, except that the well-known hosting domain
/// `golang.org/x/<name>` serves its repositories from
/// `https://go.googlesource.com/<name>`.
pub open spec fn derived_url(import: Seq<char>) -> Seq<char> {
    if starts_with(import, golang_x_prefix()) {
        "https://go.googlesource.com/"@ + import.skip(13)
    } else {
        "https://"@ + import
    }
}

/// Derive the clone URL of an import path.
pub fn derive_import_url(pkg_import: &str) -> (r: String)
    ensures
        r@ == derived_url(pkg_import@),
{
    let cs = crate::parse::chars_of(pkg_import);
    let is_golang_x = cs.len() >= 13 && cs[0] == 'g' && cs[1] == 'o' && cs[2] == 'l' && cs[3]
        == 'a' && cs[4] == 'n' && cs[5] == 'g' && cs[6] == '.' && cs[7] == 'o' && cs[8] == 'r'
        && cs[9] == 'g' && cs[10] == '/' && cs[11] == 'x' && cs[12] == '/';
    proof {
        if is_golang_x {
            assert(cs@.take(13) =~= golang_x_prefix());
        } else {
            if starts_with(cs@, golang_x_prefix()) {
                assert(forall|k: int|
                    0 <= k < 13 ==> cs@.take(13)[k] == #[trigger] golang_x_prefix()[k]);
                assert(false);
            }
        }
    }
    if is_golang_x {
        let mut r = "https://go.googlesource.com/".to_owned();
        let mut i: usize = 13;
        while i < cs.len()
            invariant
                13 <= i <= cs@.len(),
                cs@ == pkg_import@,
                r@ == "https://go.googlesource.com/"@ + cs@.subrange(13, i as int),
            decreases cs@.len() - i,
        {
            push_char(&mut r, cs[i]);
            proof {
                assert(cs@.subrange(13, i as int).push(cs@[i as int]) =~= cs@.subrange(
                    13,
                    i as int + 1,
                ));
                assert(r@ =~= "https://go.googlesource.com/"@ + cs@.subrange(
                    13,
                    i as int + 1,
                ));
            }
            i = i + 1;
        }
        proof {
            assert(cs@.subrange(13, cs@.len() as int) =~= cs@.skip(13));
        }
        r
    } else {
        let mut r = "https://".to_owned();
        r.append(pkg_import);
        r
    }
}

/// The path components that make up an import: everything after the first
/// vendor-root component, leaving out version-control metadata directories.
pub open spec fn import_components(cs: Seq<Seq<char>>) -> Seq<Seq<char>>
    decreases cs.len(),
{
    if cs.len() == 0 {
        Seq::empty()
    } else if cs[0] == "vendor"@ {
        cs.drop_first().filter(|c: Seq<char>| c != ".git"@)
    } else {
        import_components(cs.drop_first())
    }
}

/// Join components with `/`.
pub open spec fn joined(cs: Seq<Seq<char>>) -> Seq<char>
    decreases cs.len(),
{
    if cs.len() == 0 {
        Seq::empty()
    } else if cs.len() == 1 {
        cs[0]
    } else {
        joined(cs.drop_last()) + seq!['/'] + cs.last()
    }
}

/// Rebuild an import path from the components of a directory path: the
/// components after the vendor root, without the metadata directory.
pub fn parse_import(components: &Vec<String>) -> (r: String)
    ensures
        r@ == joined(import_components(components@.map_values(|s: String| s@))),
{
    let ghost all = components@.map_values(|s: String| s@);
    let mut k: usize = 0;
    proof {
        assert(all.skip(0) =~= all);
    }
    // find the vendor root
    while k < components.len() && !str_eq(components[k].as_str(), "vendor")
        invariant
            k <= components@.len(),
            all == components@.map_values(|s: String| s@),
            import_components(all) == import_components(all.skip(k as int)),
        decreases components@.len() - k,
    {
        proof {
            assert(all.skip(k as int)[0] == all[k as int]);
            assert(all.skip(k as int).drop_first() =~= all.skip(k as int + 1));
        }
        k = k + 1;
    }
    if k == components.len() {
        proof {
            assert(all.skip(k as int).len() == 0);
            assert(import_components(all) =~= Seq::<Seq<char>>::empty());
            assert(joined(import_components(all)) =~= Seq::<char>::empty());
        }
        return String::new();
    }
    proof {
        assert(all.skip(k as int)[0] == all[k as int]);
        assert(all.skip(k as int).drop_first() =~= all.skip(k as int + 1));
        assert(import_components(all) == all.skip(k as int + 1).filter(
            |c: Seq<char>| c != ".git"@,
        ));
    }
    // keep the components after it, leaving out metadata directories
    let mut kept: Vec<&String> = Vec::new();
    let mut i: usize = k + 1;
    proof {
        reveal_with_fuel(Seq::filter, 2);
        assert(all.skip(k as int + 1).take(0) =~= Seq::<Seq<char>>::empty());
        assert(Seq::<Seq<char>>::empty().filter(|c: Seq<char>| c != ".git"@)
            =~= Seq::<Seq<char>>::empty());
        assert(kept@.map_values(|s: &String| s@) =~= all.skip(k as int + 1).take(0).filter(
            |c: Seq<char>| c != ".git"@,
        ));
    }
    while i < components.len()
        invariant
            k < i <= components@.len(),
            all == components@.map_values(|s: String| s@),
            kept@.map_values(|s: &String| s@) == all.skip(k as int + 1).take(
                i - k - 1,
            ).filter(|c: Seq<char>| c != ".git"@),
        decreases components@.len() - i,
    {
        let ghost pre = all.skip(k as int + 1).take(i - k - 1);
        let ghost nxt = all.skip(k as int + 1).take(i - k);
        proof {
            assert(nxt.drop_last() =~= pre);
            assert(nxt.last() == all[i as int]);
            reveal_with_fuel(Seq::filter, 2);
        }
        if !str_eq(components[i].as_str(), ".git") {
            let ghost prev_kept = kept@.map_values(|s: &String| s@);
            kept.push(&components[i]);
            proof {
                assert(kept@.map_values(|s: &String| s@) =~= prev_kept.push(all[i as int]));
                assert(nxt.filter(|c: Seq<char>| c != ".git"@) =~= pre.filter(
                    |c: Seq<char>| c != ".git"@,
                ).push(all[i as int]));
            }
        } else {
            proof {
                assert(nxt.filter(|c: Seq<char>| c != ".git"@) =~= pre.filter(
                    |c: Seq<char>| c != ".git"@,
                ));
            }
        }
        i = i + 1;
    }
    proof {
        assert(all.skip(k as int + 1).take(
            components@.len() - k - 1,
        ) =~= all.skip(k as int + 1));
    }
    // join with the separator
    let ghost items = kept@.map_values(|s: &String| s@);
    let mut r = String::new();
    let mut j: usize = 0;
    while j < kept.len()
        invariant
            j <= kept@.len(),
            items == kept@.map_values(|s: &String| s@),
            r@ == joined(items.take(j as int)),
        decreases kept@.len() - j,
    {
        if j > 0 {
            push_char(&mut r, '/');
        }
        r.append(kept[j].as_str());
        proof {
            assert(items.take(j as int + 1).drop_last() =~= items.take(j as int));
            assert(items.take(j as int + 1).last() == items[j as int]);
            if j == 0 {
                assert(r@ =~= joined(items.take(j as int + 1)));
            } else {
                assert(r@ =~= joined(items.take(j as int + 1)));
            }
        }
        j = j + 1;
    }
    proof {
        assert(items.take(kept@.len() as int) =~= items);
    }
    r
}

} // verus!
