//! The command-line arguments one invocation runs with. Parsing the actual
//! command line is input handling and stays outside the library; this is
//! the plain carrier the rest of the crate works from.

use vstd::prelude::*;

verus! {

/// One invocation's arguments: the requested package specifiers and the
/// flags selecting what to do with them.
#[allow(non_snake_case)]
#[derive(Debug)]
pub struct Args {
    pub arg_PACKAGES: Vec<String>,
    pub flag_cfg: Option<String>,
    pub flag_help: bool,
    pub flag_version: bool,
    pub flag_show_latest: bool,
    pub flag_list_all: bool,
}

} // verus!
