//! Turns resolved, pinned packages into a hash-pinned build manifest and a
//! resolution report: one canonical artifact per package, its download
//! location parted from the content hash it carries, and text that is the
//! same for the same input.

pub mod error;
pub mod manifest;
pub mod package;
pub mod pipeline;
pub mod reference;
pub mod report;
pub mod select;
pub mod text;

pub use error::PipelineError;
pub use manifest::{build_manifest, emit_manifest, manifest_entries, manifest_entry, ManifestEntry};
pub use package::{Artifact, ArtifactKind, PinnedPackage};
pub use pipeline::{Action, Event, Pipeline, Stage};
pub use reference::{parse_reference, ArtifactReference, ReferenceError};
pub use report::{render_report, report_table, specifier_echo};
pub use select::select_artifact;
