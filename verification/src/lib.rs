//! Resolve the latest install-worthy version of a package backed by a git
//! repository: list the remote's advertised references, keep the ones that
//! name valid semantic-version tags, and select the maximum by semver order.

use vstd::prelude::*;

mod args;
mod cfg;
mod cmd;
mod creds;
mod err;
mod pkg;
mod strutil;
mod tags;
mod ver;

pub use args::Args;
pub use cfg::{
    CandidatePath, CandidatePathV, Cfg, Repo, RepoV, choose_cfg_path, spec_first_existing,
    spec_missing_cfg_msg, spec_no_default_cfg_msg, spec_paths_inner,
};
pub use cmd::{
    generate_cmd_str, spec_name_pat, spec_rendered_cmd, spec_url_pat, spec_version_pat,
    spec_version_unresolved_msg,
};
pub use creds::{CredChoice, credential_decision, spec_cred_user, spec_ssh_key_path};
pub use err::{TaggerError, remote_connect_error, spec_remote_connect_msg};
pub use pkg::{
    Pkg, PkgV, get_package_args, parse_package_args, spec_arg_invalid_version, spec_arg_keep,
    spec_dropped_args, spec_find_repo, spec_parsed_args, spec_resolved_pkgs, spec_split_arg,
};
pub use strutil::{
    contains_pat, find_char, has_prefix, lemma_first_index_of, spec_contains, spec_contains_at,
    spec_first_index_of, spec_has_prefix, spec_replace_all, strip_prefix_owned,
};
pub use tags::{
    Tags, lemma_fetch_idempotent, lemma_valid_tags_all_valid, lemma_valid_tags_from_refs,
    spec_comes_from_ref, spec_is_first_max, spec_is_tag_ref, spec_is_valid_tag_ref,
    spec_no_valid_tags_msg, spec_rendered_all, spec_rendered_latest, spec_tag_lines, spec_tag_of,
    spec_tag_prefix, spec_valid_tags_of,
};
pub use ver::{semver_le, semver_le_total_preorder, semver_norm, semver_valid, version_le_post};
