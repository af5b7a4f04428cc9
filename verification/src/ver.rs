//! Trusted bridge to the semver crate: validity and canonical text of
//! version strings, and the precedence order between them.

use vstd::prelude::*;

verus! {

/// The canonical text of the semantic version that `s` parses to, or `None`
/// where `s` is not valid semantic-version text. Names the result of
/// `semver::Version::parse` followed by the `Display` rendering of the parsed
/// value; both depend on the characters of `s` alone.
pub uninterp spec fn semver_norm(s: Seq<char>) -> Option<Seq<char>>;

/// Whether `s` parses as semantic-version text.
pub open spec fn semver_valid(s: Seq<char>) -> bool {
    semver_norm(s) is Some
}

/// The semver precedence order on two valid version texts: whether the
/// version `a` parses to precedes or equals the version `b` parses to. Names
/// the result of `semver::Version::cmp`, which depends on the two texts
/// alone.
pub uninterp spec fn semver_le(a: Seq<char>, b: Seq<char>) -> bool;

/// What `semver::Version`'s `Ord` implementation guarantees of the
/// precedence order: it compares major, minor and patch numerically and then
/// the pre-release identifiers, a total order on parsed versions. Seen
/// through the version texts it is reflexive, total and transitive. Two
/// distinct texts can parse to versions that compare as equal, so
/// antisymmetry over texts is not claimed.
pub open spec fn semver_le_total_preorder() -> bool {
    &&& forall|a: Seq<char>| semver_valid(a) ==> #[trigger] semver_le(a, a)
    &&& forall|a: Seq<char>, b: Seq<char>|
        #![trigger semver_le(a, b)]
        semver_valid(a) && semver_valid(b) ==> semver_le(a, b) || semver_le(b, a)
    &&& forall|a: Seq<char>, b: Seq<char>, c: Seq<char>|
        #![trigger semver_le(a, b), semver_le(b, c)]
        semver_valid(a) && semver_valid(b) && semver_valid(c) && semver_le(a, b) && semver_le(
            b,
            c,
        ) ==> semver_le(a, c)
}

/// Relies on `semver::Version::parse`: `Ok` exactly on valid semantic-version
/// text; and on the parsed value's `Display`, which renders the canonical
/// `major.minor.patch[-pre][+build]` text.
#[verifier::external_body]
pub(crate) fn parse_version(s: &str) -> (r: Option<String>)
    ensures
        r is Some <==> semver_valid(s@),
        r matches Some(n) ==> semver_norm(s@) == Some(n@),
{
    match semver::Version::parse(s) {
        Ok(v) => Some(format!("{}", v)),
        Err(_) => None,
    }
}

/// What a `version_le` call reports: the order between its two arguments,
/// together with the order facts of `semver_le_total_preorder`.
pub open spec fn version_le_post(r: bool, a: Seq<char>, b: Seq<char>) -> bool {
    r == semver_le(a, b) && semver_le_total_preorder()
}

/// Relies on `semver::Version::cmp`: the semver precedence order, an `Ord`
/// (hence reflexive, total and transitive) comparison of the parsed versions.
#[verifier::external_body]
pub(crate) fn version_le(a: &str, b: &str) -> (r: bool)
    requires
        semver_valid(a@),
        semver_valid(b@),
    ensures
        r == semver_le(a@, b@),
        version_le_post(r, a@, b@),
{
    let va = semver::Version::parse(a).unwrap();
    let vb = semver::Version::parse(b).unwrap();
    va <= vb
}

} // verus!
