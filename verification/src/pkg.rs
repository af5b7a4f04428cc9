//! Package specifiers: splitting `name@version` arguments, validating the
//! version segment as canonical semver text, and pairing each kept specifier
//! with its configured repository.

use vstd::prelude::*;
use vstd::string::StrSliceExecFns;

use crate::cfg::{Repo, RepoV};
use crate::strutil::{find_char, lemma_first_index_of, spec_first_index_of};
use crate::ver::{parse_version, semver_norm};

verus! {

/// One package to resolve: its name, its requested version where the caller
/// supplied one, and the URL of its git remote.
#[derive(Debug)]
pub struct Pkg {
    pub name: String,
    pub version: Option<String>,
    pub url: String,
}

/// The mathematical value of a `Pkg`.
pub struct PkgV {
    pub name: Seq<char>,
    pub version: Option<Seq<char>>,
    pub url: Seq<char>,
}

impl View for Pkg {
    type V = PkgV;

    open spec fn view(&self) -> PkgV {
        PkgV { name: self.name@, version: self.version.deep_view(), url: self.url@ }
    }
}

impl DeepView for Pkg {
    type V = PkgV;

    open spec fn deep_view(&self) -> PkgV {
        self.view()
    }
}

/// A specifier split at its first `@`: the name, and the version text after
/// the `@` where there is one.
pub open spec fn spec_split_arg(s: Seq<char>) -> (Seq<char>, Option<Seq<char>>) {
    let i = spec_first_index_of(s, '@');
    if i < s.len() {
        (s.subrange(0, i), Some(s.skip(i + 1)))
    } else {
        (s, None)
    }
}

/// Whether a specifier is kept: its name is non-empty and its version
/// segment, where present, is canonical semantic-version text (it parses,
/// and re-rendering the parsed version gives the segment back unchanged).
pub open spec fn spec_arg_keep(s: Seq<char>) -> bool {
    let (name, ver) = spec_split_arg(s);
    name.len() > 0 && (ver matches Some(v) ==> semver_norm(v) == Some(v))
}

/// Whether a specifier is dropped with a warning: its name is non-empty but
/// its version segment is present and not canonical semantic-version text.
pub open spec fn spec_arg_invalid_version(s: Seq<char>) -> bool {
    let (name, ver) = spec_split_arg(s);
    name.len() > 0 && (ver matches Some(v) && semver_norm(v) != Some(v))
}

/// The kept specifiers, split, in input order.
pub open spec fn spec_parsed_args(pkgs: Seq<Seq<char>>) -> Seq<(Seq<char>, Option<Seq<char>>)>
    decreases pkgs.len(),
{
    if pkgs.len() == 0 {
        Seq::empty()
    } else {
        let rest = spec_parsed_args(pkgs.drop_last());
        if spec_arg_keep(pkgs.last()) {
            rest.push(spec_split_arg(pkgs.last()))
        } else {
            rest
        }
    }
}

/// The specifiers dropped for an invalid version, unsplit, in input order.
pub open spec fn spec_dropped_args(pkgs: Seq<Seq<char>>) -> Seq<Seq<char>>
    decreases pkgs.len(),
{
    if pkgs.len() == 0 {
        Seq::empty()
    } else {
        let rest = spec_dropped_args(pkgs.drop_last());
        if spec_arg_invalid_version(pkgs.last()) {
            rest.push(pkgs.last())
        } else {
            rest
        }
    }
}

/// Splits one specifier at its first `@`.
fn parse_package_arg(pkg: &str) -> (r: (String, Option<String>))
    ensures
        r.0@ == spec_split_arg(pkg@).0,
        r.1.deep_view() == spec_split_arg(pkg@).1,
{
    let m = pkg.unicode_len();
    match find_char(pkg, '@') {
        Some(i) => {
            proof {
                lemma_first_index_of(pkg@, '@');
            }
            assert(i == spec_first_index_of(pkg@, '@') && i < m);
            let name = pkg.substring_char(0, i).to_owned();
            let ver = pkg.substring_char(i + 1, m).to_owned();
            proof {
                assert(pkg@.subrange(i + 1, m as int) =~= pkg@.skip(i + 1));
            }
            (name, Some(ver))
        },
        None => (pkg.to_owned(), None),
    }
}

/// Splits and validates the given specifiers. Returns the kept ones — a
/// non-empty name, and any version segment canonical semver — in input
/// order, and the specifiers dropped for an invalid version, which callers
/// warn about. Specifiers with an empty name are skipped silently.
pub fn parse_package_args(pkgs: &Vec<String>) -> (r: (
    Vec<(String, Option<String>)>,
    Vec<String>,
))
    ensures
        r.0.deep_view() == spec_parsed_args(pkgs.deep_view()),
        r.1.deep_view() == spec_dropped_args(pkgs.deep_view()),
{
    let ghost pv = pkgs.deep_view();
    let n = pkgs.len();
    let mut kept: Vec<(String, Option<String>)> = Vec::new();
    let mut dropped: Vec<String> = Vec::new();
    proof {
        assert(pv.subrange(0, 0) =~= Seq::<Seq<char>>::empty());
        assert(kept.deep_view() =~= spec_parsed_args(pv.subrange(0, 0)));
        assert(dropped.deep_view() =~= spec_dropped_args(pv.subrange(0, 0)));
    }
    let mut i: usize = 0;
    while i < n
        invariant
            0 <= i <= n,
            n == pkgs@.len(),
            pv == pkgs.deep_view(),
            kept.deep_view() == spec_parsed_args(pv.subrange(0, i as int)),
            dropped.deep_view() == spec_dropped_args(pv.subrange(0, i as int)),
        decreases n - i,
    {
        let ghost pre = pv.subrange(0, i as int);
        let ghost cur = pv.subrange(0, i + 1);
        proof {
            assert(cur.drop_last() =~= pre);
            assert(cur.last() == pv[i as int]);
        }
        let pkg_str = &pkgs[i];
        let (name, ver) = parse_package_arg(pkg_str.as_str());
        if name.as_str().unicode_len() == 0 {
            // neither kept nor warned about
        } else {
            match ver {
                Some(v) => {
                    let keep = match parse_version(v.as_str()) {
                        Some(norm) => norm == v,
                        None => false,
                    };
                    if keep {
                        kept.push((name, Some(v)));
                    } else {
                        dropped.push(pkg_str.clone());
                    }
                },
                None => {
                    kept.push((name, None));
                },
            }
        }
        proof {
            assert(kept.deep_view() =~= spec_parsed_args(cur));
            assert(dropped.deep_view() =~= spec_dropped_args(cur));
        }
        i += 1;
    }
    proof {
        assert(pv.subrange(0, n as int) =~= pv);
    }
    (kept, dropped)
}

/// The first configured repository with this name, if any.
pub open spec fn spec_find_repo(repos: Seq<RepoV>, name: Seq<char>) -> Option<RepoV>
    decreases repos.len(),
{
    if repos.len() == 0 {
        None
    } else if repos.first().name == name {
        Some(repos.first())
    } else {
        spec_find_repo(repos.drop_first(), name)
    }
}

/// `spec_find_repo` returns the repository at the first matching index.
proof fn lemma_find_repo_some(repos: Seq<RepoV>, name: Seq<char>, j: int)
    requires
        0 <= j < repos.len(),
        repos[j].name == name,
        forall|k: int| 0 <= k < j ==> repos[k].name != name,
    ensures
        spec_find_repo(repos, name) == Some(repos[j]),
    decreases repos.len(),
{
    if j > 0 {
        lemma_find_repo_some(repos.drop_first(), name, j - 1);
    }
}

/// Where no repository matches, `spec_find_repo` finds nothing.
proof fn lemma_find_repo_none(repos: Seq<RepoV>, name: Seq<char>)
    requires
        forall|k: int| 0 <= k < repos.len() ==> repos[k].name != name,
    ensures
        spec_find_repo(repos, name) is None,
    decreases repos.len(),
{
    if repos.len() > 0 {
        lemma_find_repo_none(repos.drop_first(), name);
    }
}

/// The kept specifiers that have a configured repository, each paired with
/// its repository's URL, in input order.
pub open spec fn spec_resolved_pkgs(
    args: Seq<(Seq<char>, Option<Seq<char>>)>,
    repos: Seq<RepoV>,
) -> Seq<PkgV>
    decreases args.len(),
{
    if args.len() == 0 {
        Seq::empty()
    } else {
        let rest = spec_resolved_pkgs(args.drop_last(), repos);
        match spec_find_repo(repos, args.last().0) {
            Some(repo) => rest.push(
                PkgV { name: args.last().0, version: args.last().1, url: repo.url },
            ),
            None => rest,
        }
    }
}

/// Index of the first configured repository named `name`, if any.
fn find_repo(repos: &[Repo], name: &String) -> (r: Option<usize>)
    ensures
        ({
            match r {
                Some(j) => 0 <= j < repos@.len() && spec_find_repo(repos.deep_view(), name@)
                    == Some(repos.deep_view()[j as int]),
                None => spec_find_repo(repos.deep_view(), name@) is None,
            }
        }),
{
    let n = repos.len();
    let mut j: usize = 0;
    while j < n
        invariant
            0 <= j <= n,
            n == repos@.len(),
            forall|k: int| 0 <= k < j ==> repos.deep_view()[k].name != name@,
        decreases n - j,
    {
        let repo = vstd::slice::slice_index_get(repos, j);
        if repo.name == *name {
            proof {
                lemma_find_repo_some(repos.deep_view(), name@, j as int);
            }
            return Some(j);
        }
        j += 1;
    }
    proof {
        lemma_find_repo_none(repos.deep_view(), name@);
    }
    None
}

/// Validates the given specifiers and pairs each kept one with its
/// configured repository; specifiers whose name no repository carries are
/// left out.
pub fn get_package_args(pkgs: Vec<String>, cfg_repos: &[Repo]) -> (r: Vec<Pkg>)
    ensures
        r.deep_view() == spec_resolved_pkgs(
            spec_parsed_args(pkgs.deep_view()),
            cfg_repos.deep_view(),
        ),
{
    let (kept, _dropped) = parse_package_args(&pkgs);
    let ghost args = spec_parsed_args(pkgs.deep_view());
    let n = kept.len();
    let mut out: Vec<Pkg> = Vec::new();
    proof {
        assert(args.subrange(0, 0) =~= Seq::<(Seq<char>, Option<Seq<char>>)>::empty());
        assert(out.deep_view() =~= spec_resolved_pkgs(args.subrange(0, 0), cfg_repos.deep_view()));
    }
    let mut i: usize = 0;
    while i < n
        invariant
            0 <= i <= n,
            n == kept@.len(),
            kept.deep_view() == args,
            out.deep_view() == spec_resolved_pkgs(args.subrange(0, i as int), cfg_repos.deep_view()),
        decreases n - i,
    {
        let ghost pre = args.subrange(0, i as int);
        let ghost cur = args.subrange(0, i + 1);
        proof {
            assert(cur.drop_last() =~= pre);
            assert(cur.last() == args[i as int]);
        }
        let name = kept[i].0.clone();
        let version = match &kept[i].1 {
            Some(v) => Some(v.clone()),
            None => None,
        };
        match find_repo(cfg_repos, &name) {
            Some(j) => {
                let url = vstd::slice::slice_index_get(cfg_repos, j).url.clone();
                out.push(Pkg { name, version, url });
                proof {
                    assert(out.deep_view() =~= spec_resolved_pkgs(cur, cfg_repos.deep_view()));
                }
            },
            None => {
                proof {
                    assert(out.deep_view() =~= spec_resolved_pkgs(cur, cfg_repos.deep_view()));
                }
            },
        }
        i += 1;
    }
    proof {
        assert(args.subrange(0, n as int) =~= args);
    }
    out
}

} // verus!
