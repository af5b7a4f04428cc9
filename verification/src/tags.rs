//! The tag resolution core: filtering a remote's advertised references down
//! to valid semantic-version tags, caching them per package, and selecting
//! the latest by semver precedence.
//!
//! Contacting the remote is input/output and stays outside the library; a
//! caller lists the remote's reference names once and hands them to
//! `store_listing`.

use vstd::prelude::*;
use vstd::string::StringExecFns;

use crate::err::TaggerError;
use crate::pkg::Pkg;
use crate::strutil::{has_prefix, spec_has_prefix, strip_prefix_owned};
use crate::ver::{parse_version, semver_le, semver_valid, version_le};

verus! {

/// The reference-name prefix that marks a tag.
pub open spec fn spec_tag_prefix() -> Seq<char> {
    "refs/tags/"@
}

/// Whether a reference name lies in the tag namespace.
pub open spec fn spec_is_tag_ref(r: Seq<char>) -> bool {
    spec_has_prefix(r, spec_tag_prefix())
}

/// The tag name of a reference in the tag namespace: the suffix after the
/// prefix.
pub open spec fn spec_tag_of(r: Seq<char>) -> Seq<char> {
    r.skip(spec_tag_prefix().len() as int)
}

/// Whether a reference names a tag whose name is valid semantic-version
/// text.
pub open spec fn spec_is_valid_tag_ref(r: Seq<char>) -> bool {
    spec_is_tag_ref(r) && semver_valid(spec_tag_of(r))
}

/// The valid tag names among the given reference names, stripped of the tag
/// prefix, in listing order.
pub open spec fn spec_valid_tags_of(refs: Seq<Seq<char>>) -> Seq<Seq<char>>
    decreases refs.len(),
{
    if refs.len() == 0 {
        Seq::empty()
    } else {
        let rest = spec_valid_tags_of(refs.drop_last());
        if spec_is_valid_tag_ref(refs.last()) {
            rest.push(spec_tag_of(refs.last()))
        } else {
            rest
        }
    }
}

/// The message reported when a repository has no valid tags.
pub open spec fn spec_no_valid_tags_msg(name: Seq<char>) -> Seq<char> {
    "repo "@ + name + " does not have any valid tags"@
}

/// Every filtered tag parses as semantic-version text: nothing that fails
/// semver parsing survives the filter.
pub proof fn lemma_valid_tags_all_valid(refs: Seq<Seq<char>>)
    ensures
        forall|i: int|
            0 <= i < spec_valid_tags_of(refs).len() ==> semver_valid(
                #[trigger] spec_valid_tags_of(refs)[i],
            ),
    decreases refs.len(),
{
    if refs.len() > 0 {
        lemma_valid_tags_all_valid(refs.drop_last());
        let rest = spec_valid_tags_of(refs.drop_last());
        assert forall|i: int|
            0 <= i < spec_valid_tags_of(refs).len() implies semver_valid(
            #[trigger] spec_valid_tags_of(refs)[i],
        ) by {
            if spec_is_valid_tag_ref(refs.last()) {
                assert(spec_valid_tags_of(refs) == rest.push(spec_tag_of(refs.last())));
                if i < rest.len() {
                    assert(spec_valid_tags_of(refs)[i] == rest[i]);
                }
            } else {
                assert(spec_valid_tags_of(refs) == rest);
            }
        }
    }
}

/// Whether `t` is the tag name of some advertised reference in the tag
/// namespace that parses as semver.
pub open spec fn spec_comes_from_ref(refs: Seq<Seq<char>>, t: Seq<char>) -> bool {
    exists|j: int|
        0 <= j < refs.len() && spec_is_valid_tag_ref(#[trigger] refs[j]) && t == spec_tag_of(
            refs[j],
        )
}

/// Every filtered tag comes from an advertised reference with the tag
/// prefix, stripped of that prefix: references outside the tag namespace are
/// excluded.
pub proof fn lemma_valid_tags_from_refs(refs: Seq<Seq<char>>)
    ensures
        forall|i: int|
            0 <= i < spec_valid_tags_of(refs).len() ==> spec_comes_from_ref(
                refs,
                #[trigger] spec_valid_tags_of(refs)[i],
            ),
    decreases refs.len(),
{
    if refs.len() > 0 {
        let prefix = refs.drop_last();
        lemma_valid_tags_from_refs(prefix);
        assert forall|i: int|
            0 <= i < spec_valid_tags_of(refs).len() implies spec_comes_from_ref(
            refs,
            #[trigger] spec_valid_tags_of(refs)[i],
        ) by {
            let t = spec_valid_tags_of(refs)[i];
            if i < spec_valid_tags_of(prefix).len() {
                assert(spec_comes_from_ref(prefix, t));
                let j = choose|j: int|
                    0 <= j < prefix.len() && spec_is_valid_tag_ref(#[trigger] prefix[j])
                        && t == spec_tag_of(prefix[j]);
                assert(refs[j] == prefix[j]);
                assert(spec_comes_from_ref(refs, t));
            } else {
                let j = refs.len() - 1;
                assert(spec_is_valid_tag_ref(refs[j]) && t == spec_tag_of(refs[j]));
            }
        }
    }
}

/// Whether `r` stands at `j` in `tags` as the latest tag: no tag precedes
/// it in semver order, and every tag before index `j` is strictly lower, so
/// `j` is the first index where the maximum appears.
pub open spec fn spec_is_first_max(tags: Seq<Seq<char>>, r: Seq<char>, j: int) -> bool {
    &&& 0 <= j < tags.len()
    &&& tags[j] == r
    &&& forall|i: int| 0 <= i < tags.len() ==> semver_le(#[trigger] tags[i], r)
    &&& forall|i: int| 0 <= i < j ==> !semver_le(r, #[trigger] tags[i])
}

/// One package's tag state: unfetched, or holding the non-empty list of
/// valid tag names a listing produced.
pub struct Tags {
    pkg_name: String,
    tags: Option<Vec<String>>,
    is_fetched: bool,
}

impl Tags {
    #[verifier::type_invariant]
    closed spec fn wf(self) -> bool {
        &&& self.is_fetched <==> self.tags is Some
        &&& match self.tags {
            Some(ts) => ts@.len() > 0 && forall|i: int|
                0 <= i < ts@.len() ==> semver_valid(#[trigger] ts@[i]@),
            None => true,
        }
    }

    /// The name of the package these tags belong to.
    pub closed spec fn pkg_name_view(self) -> Seq<char> {
        self.pkg_name@
    }

    /// Whether a listing has been stored.
    pub closed spec fn fetched(self) -> bool {
        self.is_fetched
    }

    /// The stored valid tag names, where a listing has been stored.
    pub closed spec fn tags_view(self) -> Option<Seq<Seq<char>>> {
        match self.tags {
            Some(ts) => Some(ts.deep_view()),
            None => None,
        }
    }

    /// Fresh, unfetched tag state for one package.
    pub fn new(pkg: &Pkg) -> (t: Tags)
        ensures
            t.pkg_name_view() == pkg.name@,
            !t.fetched(),
            t.tags_view() is None,
    {
        Tags { pkg_name: pkg.name.clone(), tags: None, is_fetched: false }
    }

    /// Whether a listing has been stored.
    pub fn is_fetched(&self) -> (b: bool)
        ensures
            b == self.fetched(),
    {
        self.is_fetched
    }

    /// A copy of the stored valid tag names, where a listing has been
    /// stored.
    pub fn tags_list(&self) -> (r: Option<Vec<String>>)
        ensures
            r is Some <==> self.fetched(),
            r matches Some(ts) ==> self.tags_view() == Some(ts.deep_view()),
    {
        proof {
            use_type_invariant(&*self);
        }
        match &self.tags {
            Some(ts) => {
                let n = ts.len();
                let mut out: Vec<String> = Vec::new();
                let mut i: usize = 0;
                while i < n
                    invariant
                        0 <= i <= n,
                        n == ts@.len(),
                        out@.len() == i,
                        forall|k: int| 0 <= k < i ==> out@[k]@ == ts@[k]@,
                    decreases n - i,
                {
                    out.push(ts[i].clone());
                    i += 1;
                }
                assert(out.deep_view() =~= ts.deep_view());
                Some(out)
            },
            None => None,
        }
    }

    /// Keeps the reference names that carry the tag prefix and whose
    /// stripped tag name parses as semver; fails with the no-valid-tags
    /// message where none qualifies.
    pub fn filter_tags(&self, heads: &Vec<String>) -> (r: Result<Vec<String>, TaggerError>)
        ensures
            ({
                let vt = spec_valid_tags_of(heads.deep_view());
                if vt.len() > 0 {
                    r matches Ok(ts) && ts.deep_view() == vt
                } else {
                    r matches Err(e) && e@ == spec_no_valid_tags_msg(self.pkg_name_view())
                }
            }),
    {
        let ghost hv = heads.deep_view();
        let n = heads.len();
        let mut tags: Vec<String> = Vec::new();
        proof {
            assert(hv.subrange(0, 0) =~= Seq::<Seq<char>>::empty());
            assert(tags.deep_view() =~= spec_valid_tags_of(hv.subrange(0, 0)));
        }
        let mut i: usize = 0;
        while i < n
            invariant
                0 <= i <= n,
                n == heads@.len(),
                hv == heads.deep_view(),
                tags.deep_view() == spec_valid_tags_of(hv.subrange(0, i as int)),
            decreases n - i,
        {
            let ghost pre = hv.subrange(0, i as int);
            let ghost cur = hv.subrange(0, i + 1);
            proof {
                assert(cur.drop_last() =~= pre);
                assert(cur.last() == hv[i as int]);
            }
            let name = &heads[i];
            if has_prefix(name.as_str(), "refs/tags/") {
                let tag = strip_prefix_owned(name.as_str(), "refs/tags/");
                if parse_version(tag.as_str()).is_some() {
                    tags.push(tag);
                }
            }
            proof {
                assert(tags.deep_view() =~= spec_valid_tags_of(cur));
            }
            i += 1;
        }
        proof {
            assert(hv.subrange(0, n as int) =~= hv);
        }
        if tags.len() == 0 {
            let mut msg = String::new();
            msg.append("repo ");
            msg.append(self.pkg_name.as_str());
            msg.append(" does not have any valid tags");
            assert(msg@ =~= spec_no_valid_tags_msg(self.pkg_name_view()));
            Err(TaggerError::new(msg.as_str()))
        } else {
            assert(tags.deep_view().len() == tags@.len());
            Ok(tags)
        }
    }

    /// Stores the valid tags of one listing of the remote's advertised
    /// reference names. The stored set is a function of the listing alone;
    /// where the listing yields no valid tag, the state is left unfetched
    /// and the no-valid-tags failure names the package.
    pub fn store_listing(&mut self, heads: &Vec<String>) -> (r: Result<(), TaggerError>)
        ensures
            final(self).pkg_name_view() == old(self).pkg_name_view(),
            ({
                let vt = spec_valid_tags_of(heads.deep_view());
                if vt.len() > 0 {
                    r is Ok && final(self).fetched() && final(self).tags_view() == Some(vt)
                } else {
                    r matches Err(e) && e@ == spec_no_valid_tags_msg(old(self).pkg_name_view())
                        && final(self).fetched() == old(self).fetched()
                        && final(self).tags_view() == old(self).tags_view()
                }
            }),
    {
        match self.filter_tags(heads) {
            Ok(ts) => {
                proof {
                    lemma_valid_tags_all_valid(heads.deep_view());
                    assert(ts.deep_view().len() == ts@.len());
                    assert forall|i: int| 0 <= i < ts@.len() implies semver_valid(
                        #[trigger] ts@[i]@,
                    ) by {
                        assert(ts.deep_view()[i] == ts@[i]@);
                    }
                }
                let name = self.pkg_name.clone();
                *self = Tags { pkg_name: name, tags: Some(ts), is_fetched: true };
                Ok(())
            },
            Err(e) => Err(e),
        }
    }

    /// The stored tag at the first index where the semver maximum appears:
    /// no stored tag is higher, and every earlier one is strictly lower.
    /// Where no listing has been stored there is no latest tag and the
    /// failure carries an empty message.
    pub fn get_latest(&self) -> (r: Result<String, TaggerError>)
        ensures
            self.tags_view() is Some ==> r is Ok && (exists|j: int|
                spec_is_first_max(self.tags_view()->0, (r->Ok_0)@, j)),
            self.tags_view() is None ==> (r matches Err(e) && e@ == ""@),
    {
        proof {
            use_type_invariant(&*self);
        }
        match &self.tags {
            Some(ts) => {
                let latest = latest_of(ts);
                let res: Result<String, TaggerError> = Ok(latest);
                proof {
                    assert(self.tags_view() == Some(ts.deep_view()));
                    let w = choose|j: int| spec_is_first_max(ts.deep_view(), (res->Ok_0)@, j);
                    assert(spec_is_first_max(ts.deep_view(), (res->Ok_0)@, w));
                    assert(spec_is_first_max(self.tags_view()->0, (res->Ok_0)@, w));
                    assert(exists|j: int| spec_is_first_max(self.tags_view()->0, (res->Ok_0)@, j));
                }
                res
            },
            None => Err(TaggerError::new("")),
        }
    }
}

impl Tags {
    /// The listing report: every stored valid tag, rendered as its original
    /// tag text in stored order. Where no listing has been stored there is
    /// nothing to report and the failure carries an empty message.
    pub fn render_all(&self) -> (r: Result<String, TaggerError>)
        ensures
            self.tags_view() matches Some(ts) ==> (r matches Ok(s) && s@ == spec_rendered_all(
                self.pkg_name_view(),
                ts,
            )),
            self.tags_view() is None ==> (r matches Err(e) && e@ == ""@),
    {
        proof {
            use_type_invariant(&*self);
        }
        match &self.tags {
            Some(ts) => {
                let ghost tv = ts.deep_view();
                let n = ts.len();
                let mut lines = String::new();
                let mut i: usize = 0;
                proof {
                    assert(tv.len() == n);
                    assert(tv.subrange(0, 0) =~= Seq::<Seq<char>>::empty());
                }
                while i < n
                    invariant
                        0 <= i <= n,
                        n == ts@.len(),
                        tv == ts.deep_view(),
                        tv.len() == n,
                        lines@ == spec_tag_lines(tv.subrange(0, i as int)),
                    decreases n - i,
                {
                    let ghost pre = tv.subrange(0, i as int);
                    let ghost cur = tv.subrange(0, i + 1);
                    proof {
                        assert(cur.drop_last() =~= pre);
                        assert(cur.last() == tv[i as int]);
                        assert(ts.deep_view()[i as int] == ts@[i as int]@);
                    }
                    lines.append("    ");
                    lines.append(ts[i].as_str());
                    lines.append("\n");
                    assert(lines@ =~= spec_tag_lines(cur));
                    i += 1;
                }
                proof {
                    assert(tv.subrange(0, n as int) =~= tv);
                }
                let mut msg = String::new();
                msg.append("\nValid tags available in repo ");
                msg.append(self.pkg_name.as_str());
                msg.append(" :\n[\n");
                msg.append(lines.as_str());
                msg.append("]");
                proof {
                    assert(msg@ =~= spec_rendered_all(self.pkg_name_view(), tv));
                    assert(self.tags_view() == Some(tv));
                }
                Ok(msg)
            },
            None => Err(TaggerError::new("")),
        }
    }

    /// The latest-tag report: names the package and the stored tag at the
    /// first index where the semver maximum appears. Where no listing has
    /// been stored the failure carries an empty message.
    pub fn render_latest(&self) -> (r: Result<String, TaggerError>)
        ensures
            self.tags_view() is Some ==> r is Ok && (exists|j: int|
                spec_is_first_max(self.tags_view()->0, self.tags_view()->0[j], j) && (
                r->Ok_0)@ == spec_rendered_latest(
                    self.pkg_name_view(),
                    self.tags_view()->0[j],
                )),
            self.tags_view() is None ==> (r matches Err(e) && e@ == ""@),
    {
        proof {
            use_type_invariant(&*self);
        }
        match self.get_latest() {
            Ok(latest) => {
                let mut msg = String::new();
                msg.append("\nLatest valid tag for repo `");
                msg.append(self.pkg_name.as_str());
                msg.append("`: ");
                msg.append(latest.as_str());
                let res: Result<String, TaggerError> = Ok(msg);
                proof {
                    let ghost tsv = self.tags_view()->0;
                    let w = choose|j: int| spec_is_first_max(tsv, latest@, j);
                    assert(spec_is_first_max(tsv, latest@, w));
                    assert(tsv[w] == latest@);
                    assert((res->Ok_0)@ =~= spec_rendered_latest(self.pkg_name_view(), tsv[w]));
                    assert(spec_is_first_max(tsv, tsv[w], w) && (res->Ok_0)@
                        == spec_rendered_latest(self.pkg_name_view(), tsv[w]));
                    assert(exists|j: int|
                        spec_is_first_max(tsv, tsv[j], j) && (res->Ok_0)@ == spec_rendered_latest(
                            self.pkg_name_view(),
                            tsv[j],
                        ));
                }
                res
            },
            Err(e) => Err(e),
        }
    }
}

/// The tag at the first index of `ts` where the semver maximum appears.
fn latest_of(ts: &Vec<String>) -> (r: String)
    requires
        ts@.len() > 0,
        forall|k: int| 0 <= k < ts@.len() ==> semver_valid(#[trigger] ts@[k]@),
    ensures
        exists|j: int| spec_is_first_max(ts.deep_view(), r@, j),
{
    let ghost tv = ts.deep_view();
    proof {
        assert(tv.len() == ts@.len());
        assert forall|k: int| 0 <= k < tv.len() implies #[trigger] tv[k] == ts@[k]@
            && semver_valid(tv[k]) by {
            assert(ts.deep_view()[k] == ts@[k]@);
        }
    }
    let n = ts.len();
    let mut best: usize = 0;
    let mut i: usize = 0;
    while i < n
        invariant
            0 <= i <= n,
            0 <= best < n,
            n == ts@.len(),
            tv == ts.deep_view(),
            tv.len() == n,
            forall|k: int| 0 <= k < tv.len() ==> #[trigger] tv[k] == ts@[k]@,
            forall|k: int| 0 <= k < n ==> semver_valid(#[trigger] ts@[k]@),
            forall|k: int| 0 <= k < tv.len() ==> semver_valid(#[trigger] tv[k]),
            i > 0 ==> crate::ver::semver_le_total_preorder(),
            forall|k: int| 0 <= k < i ==> semver_le(#[trigger] tv[k], tv[best as int]),
            forall|k: int| 0 <= k < best ==> !semver_le(tv[best as int], #[trigger] tv[k]),
        decreases n - i,
    {
        let cand_le_best = version_le(ts[i].as_str(), ts[best].as_str());
        if !cand_le_best {
            best = i;
        }
        i += 1;
    }
    let latest = ts[best].clone();
    assert(spec_is_first_max(tv, latest@, best as int));
    latest
}

/// One indented line per tag, in stored order.
pub open spec fn spec_tag_lines(tags: Seq<Seq<char>>) -> Seq<char>
    decreases tags.len(),
{
    if tags.len() == 0 {
        Seq::empty()
    } else {
        spec_tag_lines(tags.drop_last()) + "    "@ + tags.last() + "\n"@
    }
}

/// The listing report for one package: a heading naming the package and a
/// bracketed block with one line per valid tag.
pub open spec fn spec_rendered_all(name: Seq<char>, tags: Seq<Seq<char>>) -> Seq<char> {
    "\nValid tags available in repo "@ + name + " :\n[\n"@ + spec_tag_lines(tags) + "]"@
}

/// The latest-tag report for one package.
pub open spec fn spec_rendered_latest(name: Seq<char>, tag: Seq<char>) -> Seq<char> {
    "\nLatest valid tag for repo `"@ + name + "`: "@ + tag
}

/// Resolving twice against an unchanged listing yields the same tags: the
/// stored set depends on the advertised reference names alone.
pub proof fn lemma_fetch_idempotent(t1: Tags, t2: Tags, refs: Seq<Seq<char>>)
    requires
        t1.tags_view() == Some(spec_valid_tags_of(refs)),
        t2.tags_view() == Some(spec_valid_tags_of(refs)),
    ensures
        t1.tags_view() == t2.tags_view(),
{
}

} // verus!
