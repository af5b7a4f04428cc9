//! Package-specifier handling: splitting, version validation, dropping bad
//! specifiers, and pairing with configured repositories.

use tagger::{get_package_args, parse_package_args, Repo};

fn strings(xs: &[&str]) -> Vec<String> {
    xs.iter().map(|x| x.to_string()).collect()
}

fn repo(name: &str, url: &str) -> Repo {
    Repo { name: name.to_string(), url: url.to_string() }
}

#[test]
fn specifier_with_valid_version_resolves_without_remote_contact() {
    let repos = vec![repo("ui", "git://example/ui")];
    let pkgs = get_package_args(strings(&["ui@2.0.0"]), &repos);
    assert_eq!(pkgs.len(), 1);
    assert_eq!(pkgs[0].name, "ui");
    assert_eq!(pkgs[0].version.as_deref(), Some("2.0.0"));
    assert_eq!(pkgs[0].url, "git://example/ui");
}

#[test]
fn specifier_with_invalid_version_is_dropped() {
    let (kept, dropped) = parse_package_args(&strings(&["ui@abc"]));
    assert!(kept.is_empty());
    assert_eq!(dropped, strings(&["ui@abc"]));

    let repos = vec![repo("ui", "git://example/ui")];
    let pkgs = get_package_args(strings(&["ui@abc"]), &repos);
    assert!(pkgs.is_empty());
}

#[test]
fn specifier_without_version_is_kept() {
    let (kept, dropped) = parse_package_args(&strings(&["ui"]));
    assert_eq!(kept, vec![("ui".to_string(), None)]);
    assert!(dropped.is_empty());
}

#[test]
fn version_must_be_canonical_semver_text() {
    // a version that parses but re-renders differently is not accepted
    let (kept, dropped) = parse_package_args(&strings(&["ui@ 1.0.0"]));
    assert!(kept.is_empty());
    assert_eq!(dropped, strings(&["ui@ 1.0.0"]));
}

#[test]
fn empty_name_is_skipped_silently() {
    let (kept, dropped) = parse_package_args(&strings(&["@1.0.0", ""]));
    assert!(kept.is_empty());
    assert!(dropped.is_empty());
}

#[test]
fn splits_at_first_at_sign_only() {
    // "a@b@c" has name "a" and version text "b@c", which is invalid semver
    let (kept, dropped) = parse_package_args(&strings(&["a@1.0.0@x"]));
    assert!(kept.is_empty());
    assert_eq!(dropped, strings(&["a@1.0.0@x"]));
}

#[test]
fn mixed_specifiers_keep_their_order() {
    let (kept, dropped) = parse_package_args(&strings(&["a@1.0.0", "bad@nope", "b", "c@2.1.3"]));
    assert_eq!(
        kept,
        vec![
            ("a".to_string(), Some("1.0.0".to_string())),
            ("b".to_string(), None),
            ("c".to_string(), Some("2.1.3".to_string())),
        ]
    );
    assert_eq!(dropped, strings(&["bad@nope"]));
}

#[test]
fn package_without_configured_repo_is_left_out() {
    let repos = vec![repo("ui", "git://example/ui")];
    let pkgs = get_package_args(strings(&["other@1.0.0", "ui"]), &repos);
    assert_eq!(pkgs.len(), 1);
    assert_eq!(pkgs[0].name, "ui");
    assert_eq!(pkgs[0].version, None);
}

#[test]
fn first_matching_repo_supplies_the_url() {
    let repos = vec![
        repo("ui", "git://example/first"),
        repo("ui", "git://example/second"),
    ];
    let pkgs = get_package_args(strings(&["ui"]), &repos);
    assert_eq!(pkgs.len(), 1);
    assert_eq!(pkgs[0].url, "git://example/first");
}
