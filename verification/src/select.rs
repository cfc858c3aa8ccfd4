//! Choosing the canonical artifact of a package: binary distributions rank
//! above source distributions, and equal ranks keep their order.

use vstd::prelude::*;
use vstd::string::*;
use crate::error::{ErrorView, PipelineError};
use crate::package::{artifact_views, Artifact, ArtifactKind, ArtifactView, PinnedPackage};

verus! {

/// Whether the artifact is a prebuilt binary distribution.
pub open spec fn is_binary(artifact: ArtifactView) -> bool {
    artifact.kind == ArtifactKind::BinaryDistribution
}

/// The candidates in order of preference: every binary distribution, then
/// every source distribution, each group in the order it came in. This is what
/// a stable sort by the two-valued rank gives.
pub open spec fn ranked(artifacts: Seq<ArtifactView>) -> Seq<ArtifactView> {
    artifacts.filter(|a: ArtifactView| is_binary(a)) + artifacts.filter(
        |a: ArtifactView| !is_binary(a),
    )
}

/// Whether some candidate is a binary distribution.
pub open spec fn has_binary(artifacts: Seq<ArtifactView>) -> bool {
    exists|i: int| 0 <= i < artifacts.len() && is_binary(#[trigger] artifacts[i])
}

/// Whether `at` is the index of the first binary distribution.
pub open spec fn is_first_binary(artifacts: Seq<ArtifactView>, at: int) -> bool {
    &&& 0 <= at < artifacts.len()
    &&& is_binary(artifacts[at])
    &&& forall|earlier: int| 0 <= earlier < at ==> !is_binary(#[trigger] artifacts[earlier])
}

/// The index of the canonical artifact: the first binary distribution, or
/// the first candidate where there is no binary distribution.
pub open spec fn preferred_index(artifacts: Seq<ArtifactView>) -> int {
    if has_binary(artifacts) {
        choose|at: int| is_first_binary(artifacts, at)
    } else {
        0
    }
}

/// Below any binary distribution there is a first one.
proof fn lemma_first_binary_exists(artifacts: Seq<ArtifactView>, bound: int) -> (at: int)
    requires
        0 <= bound < artifacts.len(),
        is_binary(artifacts[bound]),
    ensures
        is_first_binary(artifacts, at),
    decreases bound,
{
    if exists|earlier: int| 0 <= earlier < bound && is_binary(#[trigger] artifacts[earlier]) {
        let earlier = choose|earlier: int|
            0 <= earlier < bound && is_binary(#[trigger] artifacts[earlier]);
        lemma_first_binary_exists(artifacts, earlier)
    } else {
        bound
    }
}

/// The first binary distribution is unique, so it is the preferred one.
pub proof fn lemma_first_binary_is_preferred(artifacts: Seq<ArtifactView>, at: int)
    requires
        is_first_binary(artifacts, at),
    ensures
        has_binary(artifacts),
        preferred_index(artifacts) == at,
{
    let chosen = choose|at: int| is_first_binary(artifacts, at);
    assert(is_first_binary(artifacts, chosen));
}

/// The first of the elements that a filter keeps is the first element that
/// meets the predicate.
proof fn lemma_filter_head(artifacts: Seq<ArtifactView>, keep: spec_fn(ArtifactView) -> bool, at: int)
    requires
        0 <= at < artifacts.len(),
        keep(artifacts[at]),
        forall|earlier: int| 0 <= earlier < at ==> !keep(#[trigger] artifacts[earlier]),
    ensures
        artifacts.filter(keep).len() > 0,
        artifacts.filter(keep)[0] == artifacts[at],
    decreases artifacts.len(),
{
    reveal(Seq::filter);
    let front = artifacts.drop_last();
    if at == artifacts.len() - 1 {
        front.lemma_all_neg_filter_empty(keep);
        assert(front.filter(keep).len() == 0);
    } else {
        lemma_filter_head(front, keep, at);
    }
}

/// Where no element meets the predicate, the filter keeps nothing; where
/// every element meets it, the filter keeps everything.
proof fn lemma_filter_all_or_nothing(artifacts: Seq<ArtifactView>, keep: spec_fn(ArtifactView) -> bool)
    ensures
        (forall|i: int| 0 <= i < artifacts.len() ==> !keep(#[trigger] artifacts[i]))
            ==> artifacts.filter(keep).len() == 0,
        (forall|i: int| 0 <= i < artifacts.len() ==> keep(#[trigger] artifacts[i]))
            ==> artifacts.filter(keep) == artifacts,
    decreases artifacts.len(),
{
    reveal(Seq::filter);
    if artifacts.len() > 0 {
        let front = artifacts.drop_last();
        lemma_filter_all_or_nothing(front, keep);
        if forall|i: int| 0 <= i < artifacts.len() ==> keep(#[trigger] artifacts[i]) {
            assert forall|i: int| 0 <= i < front.len() implies keep(#[trigger] front[i]) by {
                assert(front[i] == artifacts[i]);
            }
            assert(artifacts.filter(keep) =~= artifacts);
        }
        if forall|i: int| 0 <= i < artifacts.len() ==> !keep(#[trigger] artifacts[i]) {
            assert forall|i: int| 0 <= i < front.len() implies !keep(#[trigger] front[i]) by {
                assert(front[i] == artifacts[i]);
            }
        }
    } else {
        assert(artifacts.filter(keep) =~= artifacts);
    }
}

/// The head of the ranked candidates is the candidate at the preferred index.
pub proof fn lemma_ranked_head(artifacts: Seq<ArtifactView>)
    requires
        artifacts.len() > 0,
    ensures
        0 <= preferred_index(artifacts) < artifacts.len(),
        ranked(artifacts).len() > 0,
        ranked(artifacts)[0] == artifacts[preferred_index(artifacts)],
{
    let binary = |a: ArtifactView| is_binary(a);
    let source = |a: ArtifactView| !is_binary(a);
    if has_binary(artifacts) {
        let some = choose|i: int| 0 <= i < artifacts.len() && is_binary(#[trigger] artifacts[i]);
        let first = lemma_first_binary_exists(artifacts, some);
        let at = preferred_index(artifacts);
        assert(is_first_binary(artifacts, at));
        lemma_filter_head(artifacts, binary, at);
    } else {
        lemma_filter_all_or_nothing(artifacts, binary);
        lemma_filter_all_or_nothing(artifacts, source);
        assert(artifacts.filter(binary).len() == 0);
        assert(artifacts.filter(source) == artifacts);
    }
}

/// Whenever some candidate is a binary distribution, the canonical artifact
/// is a binary distribution, wherever in the list it stands.
pub proof fn lemma_binary_is_preferred(artifacts: Seq<ArtifactView>)
    requires
        has_binary(artifacts),
    ensures
        0 <= preferred_index(artifacts) < artifacts.len(),
        is_binary(artifacts[preferred_index(artifacts)]),
        is_binary(ranked(artifacts)[0]),
{
    let some = choose|i: int| 0 <= i < artifacts.len() && is_binary(#[trigger] artifacts[i]);
    let first = lemma_first_binary_exists(artifacts, some);
    let at = preferred_index(artifacts);
    assert(is_first_binary(artifacts, at));
    lemma_ranked_head(artifacts);
}

/// Where every candidate is a source distribution, the canonical artifact is
/// the first candidate.
pub proof fn lemma_source_only_keeps_first(artifacts: Seq<ArtifactView>)
    requires
        artifacts.len() > 0,
        forall|i: int| 0 <= i < artifacts.len() ==> !is_binary(#[trigger] artifacts[i]),
    ensures
        preferred_index(artifacts) == 0,
        ranked(artifacts)[0] == artifacts[0],
{
    lemma_ranked_head(artifacts);
}

/// The index of the canonical artifact among `artifacts`, if there is any artifact.
pub fn preferred_position(artifacts: &Vec<Artifact>) -> (r: Option<usize>)
    ensures
        artifacts@.len() == 0 <==> r is None,
        r matches Some(at) ==> at == preferred_index(artifact_views(artifacts@)) && at
            < artifacts@.len(),
{
    if artifacts.len() == 0 {
        return None;
    }
    let ghost views = artifact_views(artifacts@);
    let mut at: usize = 0;
    while at < artifacts.len()
        invariant
            at <= artifacts.len(),
            views == artifact_views(artifacts@),
            forall|earlier: int| 0 <= earlier < at ==> !is_binary(#[trigger] views[earlier]),
        decreases artifacts.len() - at,
    {
        if artifacts[at].kind.is_binary() {
            proof {
                assert(is_binary(views[at as int]));
                lemma_first_binary_is_preferred(views, at as int);
            }
            return Some(at);
        }
        at += 1;
    }
    Some(0)
}

/// Picks the canonical artifact of `package`: the head of its candidates
/// ranked binary first, ties in the order they came in. A package without
/// candidates is refused by name.
pub fn select_artifact(package: &PinnedPackage) -> (r: Result<&Artifact, PipelineError>)
    ensures
        package@.artifacts.len() == 0 <==> r is Err,
        r matches Err(e) ==> e@ == (ErrorView::NoArtifactsAvailable { package: package@.name }),
        r matches Ok(a) ==> {
            &&& a@ == ranked(package@.artifacts)[0]
            &&& *a == package.artifacts@[preferred_index(package@.artifacts)]
            &&& has_binary(package@.artifacts) ==> is_binary(a@)
            &&& !has_binary(package@.artifacts) ==> *a == package.artifacts@[0]
        },
{
    match preferred_position(&package.artifacts) {
        None => Err(PipelineError::NoArtifactsAvailable { package: package.name.clone() }),
        Some(at) => {
            proof {
                lemma_ranked_head(package@.artifacts);
                if has_binary(package@.artifacts) {
                    lemma_binary_is_preferred(package@.artifacts);
                }
            }
            Ok(&package.artifacts[at])
        },
    }
}

} // verus!
