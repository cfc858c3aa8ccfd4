use buck_manifest::select::preferred_position;
use buck_manifest::{select_artifact, Artifact, ArtifactKind, PinnedPackage, PipelineError};

fn wheel(url: &str) -> Artifact {
    Artifact::new(ArtifactKind::BinaryDistribution, url.to_string())
}

fn sdist(url: &str) -> Artifact {
    Artifact::new(ArtifactKind::SourceDistribution, url.to_string())
}

fn package(name: &str, artifacts: Vec<Artifact>) -> PinnedPackage {
    PinnedPackage::new(name.to_string(), "1.0".to_string(), Vec::new(), artifacts)
}

#[test]
fn wheel_is_chosen_when_it_comes_last() {
    let p = package("pkg", vec![sdist("s1"), sdist("s2"), wheel("w1")]);
    let chosen = select_artifact(&p).unwrap();
    assert_eq!(chosen.kind, ArtifactKind::BinaryDistribution);
    assert_eq!(chosen.url, "w1");
}

#[test]
fn wheel_is_chosen_when_it_comes_first() {
    let p = package("pkg", vec![wheel("w1"), sdist("s1")]);
    assert_eq!(select_artifact(&p).unwrap().url, "w1");
}

#[test]
fn wheel_is_chosen_in_the_middle() {
    let p = package("pkg", vec![sdist("s1"), wheel("w1"), sdist("s2")]);
    assert_eq!(select_artifact(&p).unwrap().url, "w1");
}

#[test]
fn first_of_several_wheels_is_chosen() {
    let p = package("pkg", vec![sdist("s1"), wheel("w1"), wheel("w2"), sdist("s2"), wheel("w3")]);
    assert_eq!(select_artifact(&p).unwrap().url, "w1");
}

#[test]
fn first_source_distribution_is_the_fallback() {
    let p = package("pkg", vec![sdist("s1"), sdist("s2"), sdist("s3")]);
    let chosen = select_artifact(&p).unwrap();
    assert_eq!(chosen.kind, ArtifactKind::SourceDistribution);
    assert_eq!(chosen.url, "s1");
}

#[test]
fn single_candidate_is_chosen() {
    let p = package("pkg", vec![sdist("only")]);
    assert_eq!(select_artifact(&p).unwrap().url, "only");
    let q = package("pkg", vec![wheel("only")]);
    assert_eq!(select_artifact(&q).unwrap().url, "only");
}

#[test]
fn selection_hands_out_the_candidate_itself() {
    let p = package("pkg", vec![sdist("s1"), wheel("w1")]);
    let chosen = select_artifact(&p).unwrap();
    assert!(std::ptr::eq(chosen, &p.artifacts[1]));
}

#[test]
fn no_candidates_names_the_package() {
    let p = package("lonely", Vec::new());
    assert_eq!(
        select_artifact(&p),
        Err(PipelineError::NoArtifactsAvailable { package: "lonely".to_string() })
    );
}

#[test]
fn kind_knows_whether_it_is_binary() {
    assert!(ArtifactKind::BinaryDistribution.is_binary());
    assert!(!ArtifactKind::SourceDistribution.is_binary());
}

#[test]
fn preferred_position_is_the_first_wheel_or_the_front() {
    assert_eq!(preferred_position(&Vec::new()), None);
    assert_eq!(preferred_position(&vec![sdist("s1")]), Some(0));
    assert_eq!(preferred_position(&vec![sdist("s1"), sdist("s2")]), Some(0));
    assert_eq!(preferred_position(&vec![sdist("s1"), wheel("w1"), wheel("w2")]), Some(1));
    assert_eq!(preferred_position(&vec![wheel("w1"), sdist("s1")]), Some(0));
}
