use buck_manifest::{
    Action, Artifact, ArtifactKind, Event, PinnedPackage, Pipeline, PipelineError, Stage,
};

fn wheel(url: &str) -> Artifact {
    Artifact::new(ArtifactKind::BinaryDistribution, url.to_string())
}

fn sdist(url: &str) -> Artifact {
    Artifact::new(ArtifactKind::SourceDistribution, url.to_string())
}

fn requests() -> PinnedPackage {
    PinnedPackage::new(
        "requests".to_string(),
        "2.22.0".to_string(),
        Vec::new(),
        vec![
            sdist("https://e.org/p/requests-2.22.0.tar.gz#sha256=11e007a8"),
            wheel("https://e.org/p/requests-2.22.0-py2.py3-none-any.whl#sha256=9cf5292f"),
        ],
    )
}

fn resolving(specifiers: &[&str]) -> Pipeline {
    let (pipeline, first) = Pipeline::start(specifiers.iter().map(|s| s.to_string()).collect());
    assert_eq!(first, Action::ProbeEnvironment);
    assert_eq!(pipeline.stage(), Stage::AwaitingProbe);
    let (pipeline, action) = pipeline.step(Event::EnvironmentProbed);
    assert_eq!(action, Some(Action::Resolve));
    assert_eq!(pipeline.stage(), Stage::AwaitingResolution);
    pipeline
}

#[test]
fn requests_runs_from_start_to_report() {
    let pipeline = resolving(&["requests"]);
    let (pipeline, action) = pipeline.step(Event::Resolved { packages: vec![requests()] });
    assert_eq!(pipeline.stage(), Stage::AwaitingWrite);
    let content = match action {
        Some(Action::WriteManifest { content }) => content,
        other => panic!("no manifest to write: {:?}", other),
    };
    assert_eq!(
        content,
        "remote_file(
    name = \"requests-download\",
    url = \"https://e.org/p/requests-2.22.0-py2.py3-none-any.whl\",
    sha256 = \"9cf5292f\",
    out = \"requests-2.22.0-py2.py3-none-any.whl\",
)

prebuilt_python_library(
    name = \"requests\",
    binary_src = \":requests-download\",
)
"
    );
    assert_eq!(content.matches("remote_file(").count(), 1);
    assert_eq!(content.matches("prebuilt_python_library(").count(), 1);
    assert!(!content.contains("tar.gz"));
    assert_eq!(
        buck_manifest::report_table(&vec![requests()]),
        "Name\tVersion\nrequests\t2.22.0\n"
    );
    let (pipeline, action) = pipeline.step(Event::ManifestWritten);
    assert_eq!(pipeline.stage(), Stage::Finished);
    assert_eq!(
        action,
        Some(Action::PrintReport {
            echo: "Resolved environment:\n- requests\n".to_string(),
            table: "Name      Version\nrequests  2.22.0\n".to_string(),
        })
    );
}

#[test]
fn missing_hash_aborts_before_any_write() {
    let broken = PinnedPackage::new(
        "broken".to_string(),
        "1.0".to_string(),
        Vec::new(),
        vec![wheel("https://e.org/p/broken-1.0-py3-none-any.whl")],
    );
    let pipeline = resolving(&["requests", "broken"]);
    let (pipeline, action) = pipeline.step(Event::Resolved { packages: vec![requests(), broken] });
    assert_eq!(pipeline.stage(), Stage::Aborted);
    assert_eq!(
        action,
        Some(Action::Abort {
            error: PipelineError::MissingIntegrityHash {
                package: "broken".to_string(),
                url: "https://e.org/p/broken-1.0-py3-none-any.whl".to_string(),
            }
        })
    );
    let (pipeline, action) = pipeline.step(Event::ManifestWritten);
    assert_eq!(pipeline.stage(), Stage::Aborted);
    assert_eq!(action, None);
}

#[test]
fn package_without_candidates_aborts() {
    let bare = PinnedPackage::new("bare".to_string(), "1.0".to_string(), Vec::new(), Vec::new());
    let (pipeline, action) = resolving(&["bare"]).step(Event::Resolved { packages: vec![bare] });
    assert_eq!(pipeline, Pipeline::Aborted);
    assert_eq!(
        action,
        Some(Action::Abort { error: PipelineError::NoArtifactsAvailable { package: "bare".to_string() } })
    );
}

#[test]
fn failed_probe_aborts() {
    let (pipeline, _) = Pipeline::start(vec!["requests".to_string()]);
    let (pipeline, action) = pipeline.step(Event::EnvironmentProbeFailed { reason: "no python".to_string() });
    assert_eq!(pipeline.stage(), Stage::Aborted);
    assert_eq!(
        action,
        Some(Action::Abort { error: PipelineError::EnvironmentProbeFailed { reason: "no python".to_string() } })
    );
}

#[test]
fn failed_resolution_aborts_with_the_explanation() {
    let explanation = "requests==99 cannot be installed because there are no viable options";
    let (pipeline, action) =
        resolving(&["requests==99"]).step(Event::ResolutionFailed { explanation: explanation.to_string() });
    assert_eq!(pipeline.stage(), Stage::Aborted);
    let error = match action {
        Some(Action::Abort { error }) => error,
        other => panic!("the run went on: {:?}", other),
    };
    assert_eq!(error, PipelineError::ResolutionFailed { explanation: explanation.to_string() });
    assert_eq!(
        error.message(),
        format!("Could not solve for the requested requirements:\n{}", explanation)
    );
}

#[test]
fn failed_write_aborts_without_report() {
    let (pipeline, _) = resolving(&["requests"]).step(Event::Resolved { packages: vec![requests()] });
    let (pipeline, action) = pipeline.step(Event::ManifestWriteFailed { reason: "disk full".to_string() });
    assert_eq!(pipeline.stage(), Stage::Aborted);
    assert_eq!(
        action,
        Some(Action::Abort { error: PipelineError::OutputWriteFailed { reason: "disk full".to_string() } })
    );
}

#[test]
fn events_out_of_turn_change_nothing() {
    let (pipeline, _) = Pipeline::start(vec!["requests".to_string()]);
    let before = pipeline.clone();
    let (pipeline, action) = pipeline.step(Event::Resolved { packages: vec![requests()] });
    assert_eq!(action, None);
    assert_eq!(pipeline, before);
    let (pipeline, action) = pipeline.step(Event::ManifestWritten);
    assert_eq!(action, None);
    assert_eq!(pipeline, before);

    let waiting = resolving(&["requests"]);
    let before = waiting.clone();
    let (waiting, action) = waiting.step(Event::EnvironmentProbed);
    assert_eq!(action, None);
    assert_eq!(waiting, before);
    let (waiting, action) = waiting.step(Event::ManifestWriteFailed { reason: "x".to_string() });
    assert_eq!(action, None);
    assert_eq!(waiting, before);

    let (writing, _) = waiting.step(Event::Resolved { packages: vec![requests()] });
    let before = writing.clone();
    let (writing, action) = writing.step(Event::ResolutionFailed { explanation: "x".to_string() });
    assert_eq!(action, None);
    assert_eq!(writing, before);
}

#[test]
fn finished_run_asks_for_nothing_more() {
    let (pipeline, _) = resolving(&["requests"]).step(Event::Resolved { packages: vec![requests()] });
    let (pipeline, _) = pipeline.step(Event::ManifestWritten);
    assert_eq!(pipeline, Pipeline::Finished);
    let (pipeline, action) = pipeline.step(Event::ManifestWritten);
    assert_eq!(pipeline, Pipeline::Finished);
    assert_eq!(action, None);
    let (pipeline, action) = pipeline.step(Event::EnvironmentProbed);
    assert_eq!(pipeline, Pipeline::Finished);
    assert_eq!(action, None);
}

#[test]
fn manifest_keeps_resolver_order_while_report_sorts() {
    let zeta = PinnedPackage::new(
        "zeta".to_string(),
        "1.0".to_string(),
        Vec::new(),
        vec![wheel("https://e.org/zeta.whl#sha256=01")],
    );
    let alpha = PinnedPackage::new(
        "alpha".to_string(),
        "2.0".to_string(),
        Vec::new(),
        vec![wheel("https://e.org/alpha.whl#sha256=02")],
    );
    let (pipeline, action) = resolving(&["zeta", "alpha"]).step(Event::Resolved { packages: vec![zeta, alpha] });
    let content = match action {
        Some(Action::WriteManifest { content }) => content,
        other => panic!("no manifest to write: {:?}", other),
    };
    assert!(content.find("zeta-download").unwrap() < content.find("alpha-download").unwrap());
    let (_, action) = pipeline.step(Event::ManifestWritten);
    assert_eq!(
        action,
        Some(Action::PrintReport {
            echo: "Resolved environment:\n- zeta\n- alpha\n".to_string(),
            table: "Name   Version\nalpha  2.0\nzeta   1.0\n".to_string(),
        })
    );
}

#[test]
fn every_error_has_its_message() {
    assert_eq!(
        PipelineError::EnvironmentProbeFailed { reason: "no python".to_string() }.message(),
        "failed to determine environment markers for the current machine: no python"
    );
    assert_eq!(
        PipelineError::ResolutionFailed { explanation: "no solution".to_string() }.message(),
        "Could not solve for the requested requirements:\nno solution"
    );
    assert_eq!(
        PipelineError::NoArtifactsAvailable { package: "bare".to_string() }.message(),
        "no artifacts are available for package bare"
    );
    assert_eq!(
        PipelineError::MissingIntegrityHash { package: "pkg".to_string(), url: "https://e.org/pkg.whl".to_string() }
            .message(),
        "artifact URL of package pkg carries no #sha256= hash: https://e.org/pkg.whl"
    );
    assert_eq!(
        PipelineError::MalformedArtifactUrl { package: "pkg".to_string(), url: "pkg.whl#sha256=aa".to_string() }
            .message(),
        "artifact URL of package pkg has no file name: pkg.whl#sha256=aa"
    );
    assert_eq!(
        PipelineError::OutputWriteFailed { reason: "disk full".to_string() }.message(),
        "failed to write the manifest file: disk full"
    );
}
