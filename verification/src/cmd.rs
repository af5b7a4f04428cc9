//! Rendering the configured command template for one resolved package:
//! substituting the `{NAME}`, `{URL}` and `{VERSION}` placeholders.

use vstd::prelude::*;

use crate::err::TaggerError;
use crate::pkg::{Pkg, PkgV};
use crate::strutil::{contains_pat, replace_all, spec_contains, spec_replace_all};

verus! {

/// The placeholder replaced by the package name.
pub open spec fn spec_name_pat() -> Seq<char> {
    "{NAME}"@
}

/// The placeholder replaced by the repository URL.
pub open spec fn spec_url_pat() -> Seq<char> {
    "{URL}"@
}

/// The placeholder replaced by the resolved version.
pub open spec fn spec_version_pat() -> Seq<char> {
    "{VERSION}"@
}

/// The command text after substitution: the version placeholder first where
/// it occurs, then the name placeholder, then the URL placeholder, each
/// replaced everywhere it occurs.
pub open spec fn spec_rendered_cmd(cmd: Seq<char>, pkg: PkgV) -> Seq<char> {
    let c1 = if spec_contains(cmd, spec_version_pat()) {
        spec_replace_all(cmd, spec_version_pat(), pkg.version->0)
    } else {
        cmd
    };
    let c2 = if spec_contains(c1, spec_name_pat()) {
        spec_replace_all(c1, spec_name_pat(), pkg.name)
    } else {
        c1
    };
    if spec_contains(c2, spec_url_pat()) {
        spec_replace_all(c2, spec_url_pat(), pkg.url)
    } else {
        c2
    }
}

/// The message reported when the template uses `{VERSION}` but the package
/// has no resolved version.
pub open spec fn spec_version_unresolved_msg() -> Seq<char> {
    "VERSION is using in command, but couldn't be resolved"@
}

/// Renders the command template for one package. With no template there is
/// nothing to run and the failure carries an empty message; a template that
/// uses `{VERSION}` while the package's version is unresolved is refused;
/// otherwise every placeholder is substituted.
pub fn generate_cmd_str(pkg: &Pkg, cmd_str: Option<&String>) -> (r: Result<String, TaggerError>)
    ensures
        cmd_str is None ==> (r matches Err(e) && e@ == ""@),
        ({
            match cmd_str {
                Some(c) => {
                    if spec_contains(c@, spec_version_pat()) && pkg@.version is None {
                        r matches Err(e) && e@ == spec_version_unresolved_msg()
                    } else {
                        r matches Ok(s) && s@ == spec_rendered_cmd(c@, pkg@)
                    }
                },
                None => true,
            }
        }),
{
    let cs = match cmd_str {
        Some(cs) => cs,
        None => {
            return Err(TaggerError::new(""));
        },
    };
    let mut cmd = cs.clone();
    if contains_pat(cmd.as_str(), "{VERSION}") {
        match &pkg.version {
            Some(v) => {
                proof {
                    reveal_strlit("{VERSION}");
                }
                let replaced = replace_all(cmd.as_str(), "{VERSION}", v.as_str());
                cmd = replaced;
            },
            None => {
                return Err(TaggerError::new(
                    "VERSION is using in command, but couldn't be resolved",
                ));
            },
        }
    }
    if contains_pat(cmd.as_str(), "{NAME}") {
        proof {
            reveal_strlit("{NAME}");
        }
        let replaced = replace_all(cmd.as_str(), "{NAME}", pkg.name.as_str());
        cmd = replaced;
    }
    if contains_pat(cmd.as_str(), "{URL}") {
        proof {
            reveal_strlit("{URL}");
        }
        let replaced = replace_all(cmd.as_str(), "{URL}", pkg.url.as_str());
        cmd = replaced;
    }
    Ok(cmd)
}

} // verus!
