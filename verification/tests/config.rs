//! Config-path selection: the explicit path wins, defaults are probed in
//! order, and failures name what was tried.

use tagger::{choose_cfg_path, CandidatePath};

fn cand(path: &str, exists: bool) -> CandidatePath {
    CandidatePath { path: path.to_string(), exists }
}

#[test]
fn explicit_existing_path_is_taken() {
    let defaults = vec![cand("./.tagger.cfg.json", true)];
    let chosen = choose_cfg_path(Some(cand("/etc/tagger.json", true)), &defaults).unwrap();
    assert_eq!(chosen, "/etc/tagger.json");
}

#[test]
fn explicit_missing_path_is_an_error() {
    let defaults = vec![cand("./.tagger.cfg.json", true)];
    let err = choose_cfg_path(Some(cand("/etc/tagger.json", false)), &defaults).unwrap_err();
    assert_eq!(err.message(), "There is no tagger config in path /etc/tagger.json");
}

#[test]
fn first_existing_default_is_taken() {
    let defaults = vec![cand("./.tagger.cfg.json", false), cand("/home/u/.tagger.cfg.json", true)];
    let chosen = choose_cfg_path(None, &defaults).unwrap();
    assert_eq!(chosen, "/home/u/.tagger.cfg.json");

    let defaults2 = vec![cand("./.tagger.cfg.json", true), cand("/home/u/.tagger.cfg.json", true)];
    let chosen2 = choose_cfg_path(None, &defaults2).unwrap();
    assert_eq!(chosen2, "./.tagger.cfg.json");
}

#[test]
fn no_existing_default_names_the_paths_tried() {
    let defaults = vec![cand("./.tagger.cfg.json", false), cand("/home/u/.tagger.cfg.json", false)];
    let err = choose_cfg_path(None, &defaults).unwrap_err();
    assert_eq!(
        err.message(),
        "Cannot find tagger cfg in default pathes [\"./.tagger.cfg.json\", \"/home/u/.tagger.cfg.json\"]\nPlease specify path to config, for example: \ntagger --cfg C:\\Users\\Alice\\.cfg.json --show-latest my_pkg"
    );
}
