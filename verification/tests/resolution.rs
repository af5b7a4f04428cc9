//! End-to-end resolution behavior: filtering advertised references, the
//! no-valid-tags outcome, latest-tag selection, and idempotence.

use tagger::{Pkg, Tags};

fn pkg(name: &str) -> Pkg {
    Pkg { name: name.to_string(), version: None, url: "git://example/demo".to_string() }
}

fn refs(names: &[&str]) -> Vec<String> {
    names.iter().map(|n| n.to_string()).collect()
}

#[test]
fn filters_to_valid_tags_and_picks_latest() {
    let p = pkg("demo");
    let mut t = Tags::new(&p);
    let listing = refs(&[
        "refs/tags/1.0.0",
        "refs/tags/1.2.0",
        "refs/tags/not-a-version",
        "refs/heads/main",
    ]);
    t.store_listing(&listing).expect("listing with valid tags stores");
    assert!(t.is_fetched());
    assert_eq!(t.tags_list().unwrap(), vec!["1.0.0".to_string(), "1.2.0".to_string()]);
    assert_eq!(t.get_latest().unwrap(), "1.2.0");
}

#[test]
fn v_prefixed_tag_names_are_not_valid_semver() {
    // the semver parser accepts no leading 'v', so such tags are filtered out
    let p = pkg("demo");
    let mut t = Tags::new(&p);
    let listing = refs(&["refs/tags/v1.0.0", "refs/tags/v1.2.0", "refs/tags/2.0.0"]);
    t.store_listing(&listing).expect("one bare version remains");
    assert_eq!(t.tags_list().unwrap(), vec!["2.0.0".to_string()]);
    assert_eq!(t.get_latest().unwrap(), "2.0.0");
}

#[test]
fn branch_only_listing_reports_no_valid_tags() {
    let p = pkg("demo");
    let mut t = Tags::new(&p);
    let listing = refs(&["refs/heads/main"]);
    let err = t.store_listing(&listing).unwrap_err();
    assert_eq!(err.message(), "repo demo does not have any valid tags");
    assert!(!t.is_fetched());
    assert!(t.tags_list().is_none());
}

#[test]
fn excludes_non_tag_references() {
    // every name outside refs/tags/ is excluded, whatever it looks like
    let p = pkg("demo");
    let mut t = Tags::new(&p);
    let listing = refs(&[
        "refs/heads/1.0.0",
        "refs/remotes/origin/2.0.0",
        "1.5.0",
        "refs/tags/3.0.0",
    ]);
    t.store_listing(&listing).expect("only the tag reference survives");
    assert_eq!(t.tags_list().unwrap(), vec!["3.0.0".to_string()]);
}

#[test]
fn empty_listing_reports_no_valid_tags() {
    let p = pkg("empty");
    let mut t = Tags::new(&p);
    let err = t.store_listing(&Vec::new()).unwrap_err();
    assert_eq!(err.message(), "repo empty does not have any valid tags");
}

#[test]
fn strips_the_tag_prefix_once() {
    // the stripped name keeps any further prefix text, which is not semver
    let p = pkg("demo");
    let mut t = Tags::new(&p);
    let listing = refs(&["refs/tags/refs/tags/1.0.0", "refs/tags/2.0.0"]);
    t.store_listing(&listing).expect("stores");
    assert_eq!(t.tags_list().unwrap(), vec!["2.0.0".to_string()]);
}

#[test]
fn every_kept_tag_parses_as_semver() {
    let p = pkg("demo");
    let mut t = Tags::new(&p);
    let listing = refs(&[
        "refs/tags/0.1.0",
        "refs/tags/nope",
        "refs/tags/1.0",
        "refs/tags/1.0.0-alpha.1",
        "refs/tags/2.3.4+build.5",
    ]);
    t.store_listing(&listing).expect("valid tags remain");
    for tag in t.tags_list().unwrap() {
        assert!(semver::Version::parse(&tag).is_ok());
    }
    assert_eq!(
        t.tags_list().unwrap(),
        vec!["0.1.0".to_string(), "1.0.0-alpha.1".to_string(), "2.3.4+build.5".to_string()]
    );
}

#[test]
fn latest_is_numeric_not_lexicographic() {
    let p = pkg("demo");
    let mut t = Tags::new(&p);
    let listing = refs(&["refs/tags/1.9.0", "refs/tags/1.10.0", "refs/tags/0.5.0"]);
    t.store_listing(&listing).expect("stores");
    assert_eq!(t.get_latest().unwrap(), "1.10.0");
}

#[test]
fn latest_is_not_lower_than_any_valid_version() {
    let p = pkg("demo");
    let mut t = Tags::new(&p);
    let listing = refs(&[
        "refs/tags/0.9.9",
        "refs/tags/2.0.0-rc.1",
        "refs/tags/2.0.0",
        "refs/tags/1.99.99",
    ]);
    t.store_listing(&listing).expect("stores");
    let latest = semver::Version::parse(&t.get_latest().unwrap()).unwrap();
    for tag in t.tags_list().unwrap() {
        let v = semver::Version::parse(&tag).unwrap();
        assert!(latest >= v);
    }
    assert_eq!(t.get_latest().unwrap(), "2.0.0");
}

#[test]
fn prerelease_precedes_release() {
    let p = pkg("demo");
    let mut t = Tags::new(&p);
    let listing = refs(&["refs/tags/1.0.0-alpha", "refs/tags/1.0.0"]);
    t.store_listing(&listing).expect("stores");
    assert_eq!(t.get_latest().unwrap(), "1.0.0");
}

#[test]
fn equal_versions_resolve_to_first_encountered() {
    // build metadata is ignored by the comparison, so these tie
    let p = pkg("demo");
    let mut t = Tags::new(&p);
    t.store_listing(&refs(&["refs/tags/1.0.0+one", "refs/tags/1.0.0+two"])).expect("stores");
    assert_eq!(t.get_latest().unwrap(), "1.0.0+one");

    let mut t2 = Tags::new(&p);
    t2.store_listing(&refs(&["refs/tags/1.0.0+two", "refs/tags/1.0.0+one"])).expect("stores");
    assert_eq!(t2.get_latest().unwrap(), "1.0.0+two");
}

#[test]
fn refetching_unchanged_listing_is_idempotent() {
    let p = pkg("demo");
    let listing = refs(&["refs/tags/1.0.0", "refs/tags/2.0.0", "refs/heads/main"]);
    let mut t1 = Tags::new(&p);
    let mut t2 = Tags::new(&p);
    t1.store_listing(&listing).expect("stores");
    t2.store_listing(&listing).expect("stores");
    assert_eq!(t1.tags_list().unwrap(), t2.tags_list().unwrap());
    assert_eq!(t1.get_latest().unwrap(), t2.get_latest().unwrap());

    // storing the same listing again on the same value changes nothing
    t1.store_listing(&listing).expect("stores again");
    assert_eq!(t1.tags_list().unwrap(), t2.tags_list().unwrap());
}

#[test]
fn unfetched_state_has_no_latest() {
    let p = pkg("demo");
    let t = Tags::new(&p);
    assert!(!t.is_fetched());
    assert!(t.tags_list().is_none());
    assert_eq!(t.get_latest().unwrap_err().message(), "");
}

#[test]
fn renders_all_tags_report() {
    let p = pkg("demo");
    let mut t = Tags::new(&p);
    t.store_listing(&refs(&["refs/tags/1.0.0", "refs/tags/1.2.0"])).expect("stores");
    assert_eq!(
        t.render_all().unwrap(),
        "\nValid tags available in repo demo :\n[\n    1.0.0\n    1.2.0\n]"
    );
}

#[test]
fn renders_latest_report() {
    let p = pkg("demo");
    let mut t = Tags::new(&p);
    t.store_listing(&refs(&["refs/tags/1.0.0", "refs/tags/1.2.0"])).expect("stores");
    assert_eq!(t.render_latest().unwrap(), "\nLatest valid tag for repo `demo`: 1.2.0");
}
