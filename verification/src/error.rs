//! The ways in which the pipeline ends without a manifest.

use vstd::prelude::*;
use vstd::string::*;

verus! {

/// Why the pipeline stopped. No failure is recovered from.
#[derive(Clone, Debug, PartialEq, Eq)]
pub enum PipelineError {
    /// The platform markers or compatibility tags could not be determined.
    EnvironmentProbeFailed { reason: String },
    /// The resolver could not satisfy the requested specifiers.
    ResolutionFailed { explanation: String },
    /// A pinned package came without a single candidate artifact.
    NoArtifactsAvailable { package: String },
    /// The selected artifact's URL carries no `#sha256=` fragment.
    MissingIntegrityHash { package: String, url: String },
    /// The selected artifact's location has no `/`, so no file name can be taken from it.
    MalformedArtifactUrl { package: String, url: String },
    /// The manifest file could not be created or written.
    OutputWriteFailed { reason: String },
}

/// The mathematical value of a [`PipelineError`].
pub enum ErrorView {
    EnvironmentProbeFailed { reason: Seq<char> },
    ResolutionFailed { explanation: Seq<char> },
    NoArtifactsAvailable { package: Seq<char> },
    MissingIntegrityHash { package: Seq<char>, url: Seq<char> },
    MalformedArtifactUrl { package: Seq<char>, url: Seq<char> },
    OutputWriteFailed { reason: Seq<char> },
}

impl View for PipelineError {
    type V = ErrorView;

    open spec fn view(&self) -> ErrorView {
        match self {
            PipelineError::EnvironmentProbeFailed { reason } => ErrorView::EnvironmentProbeFailed {
                reason: reason@,
            },
            PipelineError::ResolutionFailed { explanation } => ErrorView::ResolutionFailed {
                explanation: explanation@,
            },
            PipelineError::NoArtifactsAvailable { package } => ErrorView::NoArtifactsAvailable {
                package: package@,
            },
            PipelineError::MissingIntegrityHash { package, url } => ErrorView::MissingIntegrityHash {
                package: package@,
                url: url@,
            },
            PipelineError::MalformedArtifactUrl { package, url } => ErrorView::MalformedArtifactUrl {
                package: package@,
                url: url@,
            },
            PipelineError::OutputWriteFailed { reason } => ErrorView::OutputWriteFailed {
                reason: reason@,
            },
        }
    }
}

/// The text that tells the user what went wrong.
pub open spec fn message_text(error: ErrorView) -> Seq<char> {
    match error {
        ErrorView::EnvironmentProbeFailed { reason } =>
            "failed to determine environment markers for the current machine: "@ + reason,
        ErrorView::ResolutionFailed { explanation } =>
            "Could not solve for the requested requirements:\n"@ + explanation,
        ErrorView::NoArtifactsAvailable { package } =>
            "no artifacts are available for package "@ + package,
        ErrorView::MissingIntegrityHash { package, url } =>
            "artifact URL of package "@ + package + " carries no #sha256= hash: "@ + url,
        ErrorView::MalformedArtifactUrl { package, url } =>
            "artifact URL of package "@ + package + " has no file name: "@ + url,
        ErrorView::OutputWriteFailed { reason } =>
            "failed to write the manifest file: "@ + reason,
    }
}

impl PipelineError {
    /// The text that tells the user what went wrong, with the offending
    /// package and URL where there is one, and the resolver's explanation
    /// word for word.
    pub fn message(&self) -> (r: String)
        ensures
            r@ == message_text(self@),
    {
        match self {
            PipelineError::EnvironmentProbeFailed { reason } => {
                let mut text = String::from_str(
                    "failed to determine environment markers for the current machine: ",
                );
                text.append(reason.as_str());
                text
            },
            PipelineError::ResolutionFailed { explanation } => {
                let mut text = String::from_str("Could not solve for the requested requirements:\n");
                text.append(explanation.as_str());
                text
            },
            PipelineError::NoArtifactsAvailable { package } => {
                let mut text = String::from_str("no artifacts are available for package ");
                text.append(package.as_str());
                text
            },
            PipelineError::MissingIntegrityHash { package, url } => {
                let mut text = String::from_str("artifact URL of package ");
                text.append(package.as_str());
                text.append(" carries no #sha256= hash: ");
                text.append(url.as_str());
                text
            },
            PipelineError::MalformedArtifactUrl { package, url } => {
                let mut text = String::from_str("artifact URL of package ");
                text.append(package.as_str());
                text.append(" has no file name: ");
                text.append(url.as_str());
                text
            },
            PipelineError::OutputWriteFailed { reason } => {
                let mut text = String::from_str("failed to write the manifest file: ");
                text.append(reason.as_str());
                text
            },
        }
    }
}

} // verus!
