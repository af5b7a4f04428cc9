//! Configuration data: the repository table a config file supplies, and the
//! rule that picks which config path to read.
//!
//! Reading and decoding the file itself is input/output and stays outside
//! the library; callers probe which candidate paths exist and hand the
//! outcome to `choose_cfg_path`.

use vstd::prelude::*;
use vstd::string::StringExecFns;

use crate::err::TaggerError;

verus! {

/// One configured repository: a package name and the URL of its git remote.
#[derive(Debug)]
pub struct Repo {
    pub name: String,
    pub url: String,
}

/// The mathematical value of a `Repo`.
pub struct RepoV {
    pub name: Seq<char>,
    pub url: Seq<char>,
}

impl View for Repo {
    type V = RepoV;

    open spec fn view(&self) -> RepoV {
        RepoV { name: self.name@, url: self.url@ }
    }
}

impl DeepView for Repo {
    type V = RepoV;

    open spec fn deep_view(&self) -> RepoV {
        self.view()
    }
}

/// A whole configuration: the repository table and an optional command
/// template.
#[derive(Debug)]
pub struct Cfg {
    pub repos: Vec<Repo>,
    pub command: Option<String>,
}

/// A candidate config path together with whether a file exists there.
#[derive(Debug)]
pub struct CandidatePath {
    pub path: String,
    pub exists: bool,
}

/// The mathematical value of a `CandidatePath`.
pub struct CandidatePathV {
    pub path: Seq<char>,
    pub exists: bool,
}

impl View for CandidatePath {
    type V = CandidatePathV;

    open spec fn view(&self) -> CandidatePathV {
        CandidatePathV { path: self.path@, exists: self.exists }
    }
}

impl DeepView for CandidatePath {
    type V = CandidatePathV;

    open spec fn deep_view(&self) -> CandidatePathV {
        self.view()
    }
}

/// The path of the first candidate that exists, if any.
pub open spec fn spec_first_existing(defaults: Seq<CandidatePathV>) -> Option<Seq<char>>
    decreases defaults.len(),
{
    if defaults.len() == 0 {
        None
    } else if defaults.first().exists {
        Some(defaults.first().path)
    } else {
        spec_first_existing(defaults.drop_first())
    }
}

/// `spec_first_existing` returns the path of the candidate at the first
/// existing index.
proof fn lemma_first_existing_some(defaults: Seq<CandidatePathV>, j: int)
    requires
        0 <= j < defaults.len(),
        defaults[j].exists,
        forall|k: int| 0 <= k < j ==> !defaults[k].exists,
    ensures
        spec_first_existing(defaults) == Some(defaults[j].path),
    decreases defaults.len(),
{
    if j > 0 {
        lemma_first_existing_some(defaults.drop_first(), j - 1);
    }
}

/// Where no candidate exists, `spec_first_existing` finds nothing.
proof fn lemma_first_existing_none(defaults: Seq<CandidatePathV>)
    requires
        forall|k: int| 0 <= k < defaults.len() ==> !defaults[k].exists,
    ensures
        spec_first_existing(defaults) is None,
    decreases defaults.len(),
{
    if defaults.len() > 0 {
        lemma_first_existing_none(defaults.drop_first());
    }
}

/// The candidate paths, quoted and joined with ", ".
pub open spec fn spec_paths_inner(paths: Seq<Seq<char>>) -> Seq<char>
    decreases paths.len(),
{
    if paths.len() == 0 {
        Seq::empty()
    } else if paths.len() == 1 {
        "\""@ + paths[0] + "\""@
    } else {
        spec_paths_inner(paths.drop_last()) + ", "@ + "\""@ + paths.last() + "\""@
    }
}

/// The error message reported when an explicitly requested config path does
/// not exist.
pub open spec fn spec_missing_cfg_msg(path: Seq<char>) -> Seq<char> {
    "There is no tagger config in path "@ + path
}

/// The error message reported when no default config path exists.
pub open spec fn spec_no_default_cfg_msg(paths: Seq<Seq<char>>) -> Seq<char> {
    "Cannot find tagger cfg in default pathes ["@ + spec_paths_inner(paths) + "]\n"@
        + "Please specify path to config, for example: \n"@
        + "tagger --cfg C:\\Users\\Alice\\.cfg.json --show-latest my_pkg"@
}

/// Picks the config path to read: an explicitly requested path must exist;
/// otherwise the first default candidate that exists is taken; otherwise the
/// failure says which paths were tried.
pub fn choose_cfg_path(explicit: Option<CandidatePath>, defaults: &Vec<CandidatePath>) -> (r:
    Result<String, TaggerError>)
    ensures
        ({
            match explicit {
                Some(c) => {
                    if c.exists {
                        r matches Ok(p) && p@ == c.path@
                    } else {
                        r matches Err(e) && e@ == spec_missing_cfg_msg(c.path@)
                    }
                },
                None => {
                    match spec_first_existing(defaults.deep_view()) {
                        Some(p) => r matches Ok(q) && q@ == p,
                        None => r matches Err(e) && e@ == spec_no_default_cfg_msg(
                            defaults.deep_view().map_values(|c: CandidatePathV| c.path),
                        ),
                    }
                },
            }
        }),
{
    match explicit {
        Some(c) => {
            if c.exists {
                Ok(c.path)
            } else {
                let mut msg = String::new();
                msg.append("There is no tagger config in path ");
                msg.append(c.path.as_str());
                assert(msg@ =~= spec_missing_cfg_msg(c.path@));
                Err(TaggerError::new(msg.as_str()))
            }
        },
        None => {
            let n = defaults.len();
            let mut i: usize = 0;
            while i < n
                invariant
                    explicit is None,
                    0 <= i <= n,
                    n == defaults@.len(),
                    forall|k: int| 0 <= k < i ==> !defaults.deep_view()[k].exists,
                decreases n - i,
            {
                let c = &defaults[i];
                if c.exists {
                    proof {
                        lemma_first_existing_some(defaults.deep_view(), i as int);
                    }
                    return Ok(c.path.clone());
                }
                i += 1;
            }
            proof {
                lemma_first_existing_none(defaults.deep_view());
            }
            let msg = no_default_cfg_msg(defaults);
            Err(TaggerError::new(msg.as_str()))
        },
    }
}

/// Builds the message of `spec_no_default_cfg_msg` for these candidates.
fn no_default_cfg_msg(defaults: &Vec<CandidatePath>) -> (r: String)
    ensures
        r@ == spec_no_default_cfg_msg(defaults.deep_view().map_values(|c: CandidatePathV| c.path)),
{
    let ghost paths = defaults.deep_view().map_values(|c: CandidatePathV| c.path);
    let n = defaults.len();
    let mut inner = String::new();
    let mut i: usize = 0;
    proof {
        assert(paths.subrange(0, 0) =~= Seq::<Seq<char>>::empty());
    }
    while i < n
        invariant
            0 <= i <= n,
            n == defaults@.len(),
            paths == defaults.deep_view().map_values(|c: CandidatePathV| c.path),
            paths.len() == n,
            inner@ == spec_paths_inner(paths.subrange(0, i as int)),
        decreases n - i,
    {
        if i > 0 {
            inner.append(", ");
        }
        inner.append("\"");
        inner.append(defaults[i].path.as_str());
        inner.append("\"");
        proof {
            let pre = paths.subrange(0, i as int);
            let cur = paths.subrange(0, i + 1);
            assert(cur.drop_last() =~= pre);
            assert(cur.last() == paths[i as int]);
            if i == 0 {
                assert(inner@ =~= spec_paths_inner(cur));
            } else {
                assert(inner@ =~= spec_paths_inner(cur));
            }
        }
        i += 1;
    }
    assert(paths.subrange(0, n as int) =~= paths);
    let mut msg = String::new();
    msg.append("Cannot find tagger cfg in default pathes [");
    msg.append(inner.as_str());
    msg.append("]\n");
    msg.append("Please specify path to config, for example: \n");
    msg.append("tagger --cfg C:\\Users\\Alice\\.cfg.json --show-latest my_pkg");
    assert(msg@ =~= spec_no_default_cfg_msg(paths));
    msg
}

} // verus!
