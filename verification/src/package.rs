//! What the resolver hands over: pinned packages and their candidate artifacts.

use vstd::prelude::*;

verus! {

/// Whether an artifact is a prebuilt binary distribution or a source distribution.
#[derive(Clone, Copy, Debug, PartialEq, Eq, Structural)]
pub enum ArtifactKind {
    /// A prebuilt artifact that needs no build step when it is consumed.
    BinaryDistribution,
    /// An artifact that has to be built before it can be used.
    SourceDistribution,
}

/// One downloadable candidate of a pinned package.
#[derive(Clone, Debug, PartialEq, Eq)]
pub struct Artifact {
    /// Whether the file is a binary or a source distribution.
    pub kind: ArtifactKind,
    /// Where the file is fetched from, with the content hash as its last fragment.
    pub url: String,
}

/// The mathematical value of an [`Artifact`].
pub struct ArtifactView {
    pub kind: ArtifactKind,
    pub url: Seq<char>,
}

impl View for Artifact {
    type V = ArtifactView;

    open spec fn view(&self) -> ArtifactView {
        ArtifactView { kind: self.kind, url: self.url@ }
    }
}

/// One package at the exact version the resolver chose.
#[derive(Clone, Debug, PartialEq, Eq)]
pub struct PinnedPackage {
    /// The normalized name of the package.
    pub name: String,
    /// The resolved version, as text.
    pub version: String,
    /// The extras that were asked for, in the order they are shown in.
    pub extras: Vec<String>,
    /// The candidate artifacts, in the resolver's order.
    pub artifacts: Vec<Artifact>,
}

/// The mathematical value of a [`PinnedPackage`].
pub struct PackageView {
    pub name: Seq<char>,
    pub version: Seq<char>,
    pub extras: Seq<Seq<char>>,
    pub artifacts: Seq<ArtifactView>,
}

impl View for PinnedPackage {
    type V = PackageView;

    open spec fn view(&self) -> PackageView {
        PackageView {
            name: self.name@,
            version: self.version@,
            extras: crate::text::views_of(self.extras@),
            artifacts: artifact_views(self.artifacts@),
        }
    }
}

/// The values of the artifacts of `artifacts`, in order.
pub open spec fn artifact_views(artifacts: Seq<Artifact>) -> Seq<ArtifactView> {
    Seq::new(artifacts.len(), |i: int| artifacts[i]@)
}

/// The values of the packages of `packages`, in order.
pub open spec fn package_views(packages: Seq<PinnedPackage>) -> Seq<PackageView> {
    Seq::new(packages.len(), |i: int| packages[i]@)
}

/// Whether no two packages of `packages` share a name.
pub open spec fn names_unique(packages: Seq<PackageView>) -> bool {
    forall|i: int, j: int|
        0 <= i < j < packages.len() ==> packages[i].name != packages[j].name
}

impl ArtifactKind {
    /// Whether this is a prebuilt binary distribution.
    pub fn is_binary(self) -> (r: bool)
        ensures
            r == (self == ArtifactKind::BinaryDistribution),
    {
        match self {
            ArtifactKind::BinaryDistribution => true,
            ArtifactKind::SourceDistribution => false,
        }
    }
}

impl Artifact {
    /// An artifact of the given kind at the given URL.
    pub fn new(kind: ArtifactKind, url: String) -> (r: Artifact)
        ensures
            r@ == (ArtifactView { kind, url: url@ }),
            r.kind == kind,
            r.url == url,
    {
        Artifact { kind, url }
    }
}

impl PinnedPackage {
    /// A pinned package with the given name, version, extras and candidates.
    pub fn new(name: String, version: String, extras: Vec<String>, artifacts: Vec<Artifact>) -> (r:
        PinnedPackage)
        ensures
            r.name == name,
            r.version == version,
            r.extras == extras,
            r.artifacts == artifacts,
    {
        PinnedPackage { name, version, extras, artifacts }
    }
}

} // verus!
