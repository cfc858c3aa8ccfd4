use buck_manifest::{
    build_manifest, emit_manifest, manifest_entries, manifest_entry, Artifact, ArtifactKind,
    ManifestEntry, PinnedPackage, PipelineError,
};

fn entry(package: &str, url: &str, sha256: &str, filename: &str) -> ManifestEntry {
    ManifestEntry {
        package: package.to_string(),
        url: url.to_string(),
        sha256: sha256.to_string(),
        filename: filename.to_string(),
    }
}

fn wheel(url: &str) -> Artifact {
    Artifact::new(ArtifactKind::BinaryDistribution, url.to_string())
}

fn sdist(url: &str) -> Artifact {
    Artifact::new(ArtifactKind::SourceDistribution, url.to_string())
}

fn package(name: &str, artifacts: Vec<Artifact>) -> PinnedPackage {
    PinnedPackage::new(name.to_string(), "1.0".to_string(), Vec::new(), artifacts)
}

const REQUESTS: &str = "remote_file(
    name = \"requests-download\",
    url = \"https://e.org/p/requests-2.22.0-py2.py3-none-any.whl\",
    sha256 = \"9cf5292f\",
    out = \"requests-2.22.0-py2.py3-none-any.whl\",
)

prebuilt_python_library(
    name = \"requests\",
    binary_src = \":requests-download\",
)
";

const CHARDET: &str = "remote_file(
    name = \"chardet-download\",
    url = \"https://e.org/p/chardet-5.2.0-py3-none-any.whl\",
    sha256 = \"e1cf59ff\",
    out = \"chardet-5.2.0-py3-none-any.whl\",
)

prebuilt_python_library(
    name = \"chardet\",
    binary_src = \":chardet-download\",
)
";

fn requests() -> ManifestEntry {
    entry(
        "requests",
        "https://e.org/p/requests-2.22.0-py2.py3-none-any.whl",
        "9cf5292f",
        "requests-2.22.0-py2.py3-none-any.whl",
    )
}

fn chardet() -> ManifestEntry {
    entry(
        "chardet",
        "https://e.org/p/chardet-5.2.0-py3-none-any.whl",
        "e1cf59ff",
        "chardet-5.2.0-py3-none-any.whl",
    )
}

#[test]
fn no_entries_give_an_empty_manifest() {
    assert_eq!(emit_manifest(&Vec::new()), "");
}

#[test]
fn one_entry_gives_a_download_and_a_library() {
    assert_eq!(emit_manifest(&vec![requests()]), REQUESTS);
}

#[test]
fn entries_are_parted_by_a_blank_line() {
    assert_eq!(
        emit_manifest(&vec![requests(), chardet()]),
        format!("{}\n{}", REQUESTS, CHARDET)
    );
}

#[test]
fn entries_keep_their_order() {
    assert_eq!(
        emit_manifest(&vec![chardet(), requests(), chardet()]),
        format!("{}\n{}\n{}", CHARDET, REQUESTS, CHARDET)
    );
}

#[test]
fn fields_stand_in_fixed_order() {
    let text = emit_manifest(&vec![requests()]);
    let name = text.find("    name = ").unwrap();
    let url = text.find("    url = ").unwrap();
    let sha = text.find("    sha256 = ").unwrap();
    let out = text.find("    out = ").unwrap();
    assert!(name < url && url < sha && sha < out);
}

#[test]
fn emitting_twice_gives_the_same_text() {
    let entries = vec![requests(), chardet()];
    let first = emit_manifest(&entries);
    let second = emit_manifest(&entries);
    assert_eq!(first, second);
    assert_eq!(first.as_bytes(), emit_manifest(&entries.clone()).as_bytes());
}

#[test]
fn entry_is_built_from_the_wheel() {
    let p = package(
        "requests",
        vec![
            sdist("https://e.org/p/requests-2.22.0.tar.gz#sha256=11e007a8"),
            wheel("https://e.org/p/requests-2.22.0-py2.py3-none-any.whl#sha256=9cf5292f"),
        ],
    );
    assert_eq!(manifest_entry(&p), Ok(requests()));
}

#[test]
fn entry_falls_back_to_the_first_source_distribution() {
    let p = package(
        "pkg",
        vec![
            sdist("https://e.org/p/pkg-1.0.tar.gz#sha256=aa"),
            sdist("https://e.org/p/pkg-1.0.zip#sha256=bb"),
        ],
    );
    assert_eq!(
        manifest_entry(&p),
        Ok(entry("pkg", "https://e.org/p/pkg-1.0.tar.gz", "aa", "pkg-1.0.tar.gz"))
    );
}

#[test]
fn entry_without_candidates_is_refused() {
    assert_eq!(
        manifest_entry(&package("bare", Vec::new())),
        Err(PipelineError::NoArtifactsAvailable { package: "bare".to_string() })
    );
}

#[test]
fn entry_without_hash_is_refused() {
    let p = package("pkg", vec![wheel("https://e.org/p/pkg.whl")]);
    assert_eq!(
        manifest_entry(&p),
        Err(PipelineError::MissingIntegrityHash {
            package: "pkg".to_string(),
            url: "https://e.org/p/pkg.whl".to_string()
        })
    );
}

#[test]
fn entry_without_file_name_is_refused() {
    let p = package("pkg", vec![wheel("pkg.whl#sha256=aa")]);
    assert_eq!(
        manifest_entry(&p),
        Err(PipelineError::MalformedArtifactUrl {
            package: "pkg".to_string(),
            url: "pkg.whl#sha256=aa".to_string()
        })
    );
}

#[test]
fn only_the_selected_artifact_is_parsed() {
    let p = package("pkg", vec![sdist("broken"), wheel("https://e.org/pkg.whl#sha256=aa")]);
    assert_eq!(manifest_entry(&p), Ok(entry("pkg", "https://e.org/pkg.whl", "aa", "pkg.whl")));
    let q = package("pkg", vec![wheel("broken"), sdist("https://e.org/pkg.tar.gz#sha256=aa")]);
    assert_eq!(
        manifest_entry(&q),
        Err(PipelineError::MissingIntegrityHash {
            package: "pkg".to_string(),
            url: "broken".to_string()
        })
    );
}

#[test]
fn entries_come_in_the_order_of_the_packages() {
    let packages = vec![
        package("zeta", vec![wheel("https://e.org/zeta.whl#sha256=01")]),
        package("alpha", vec![wheel("https://e.org/alpha.whl#sha256=02")]),
    ];
    assert_eq!(
        manifest_entries(&packages),
        Ok(vec![
            entry("zeta", "https://e.org/zeta.whl", "01", "zeta.whl"),
            entry("alpha", "https://e.org/alpha.whl", "02", "alpha.whl"),
        ])
    );
    let text = build_manifest(&packages).unwrap();
    assert!(text.find("zeta-download").unwrap() < text.find("alpha-download").unwrap());
}

#[test]
fn first_failing_package_fails_the_whole() {
    let packages = vec![
        package("good", vec![wheel("https://e.org/good.whl#sha256=01")]),
        package("nohash", vec![wheel("https://e.org/nohash.whl")]),
        package("bare", Vec::new()),
    ];
    assert_eq!(
        manifest_entries(&packages),
        Err(PipelineError::MissingIntegrityHash {
            package: "nohash".to_string(),
            url: "https://e.org/nohash.whl".to_string()
        })
    );
    assert_eq!(
        build_manifest(&packages),
        Err(PipelineError::MissingIntegrityHash {
            package: "nohash".to_string(),
            url: "https://e.org/nohash.whl".to_string()
        })
    );
}

#[test]
fn manifest_of_no_packages_is_empty() {
    assert_eq!(build_manifest(&Vec::new()), Ok(String::new()));
}

#[test]
fn manifest_is_built_from_packages() {
    let packages = vec![
        package(
            "requests",
            vec![
                wheel("https://e.org/p/requests-2.22.0-py2.py3-none-any.whl#sha256=9cf5292f"),
                sdist("https://e.org/p/requests-2.22.0.tar.gz#sha256=11e007a8"),
            ],
        ),
        package("chardet", vec![wheel("https://e.org/p/chardet-5.2.0-py3-none-any.whl#sha256=e1cf59ff")]),
    ];
    assert_eq!(build_manifest(&packages), Ok(format!("{}\n{}", REQUESTS, CHARDET)));
}
