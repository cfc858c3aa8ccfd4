//! The sequence of the pipeline as a state machine: probe the environment,
//! resolve, write the manifest, print the report. The machine decides; the
//! caller does the outside work and reports back what came of it.

use vstd::prelude::*;
use vstd::string::*;
use crate::error::{ErrorView, PipelineError};
use crate::manifest::{
    all_have_entries, build_manifest, entries_for, manifest_for, manifest_text,
};
use crate::package::{package_views, PackageView, PinnedPackage};
use crate::report::{echo_text, render_report, specifier_echo, tab_aligned, table_text};
use crate::text::views_of;

verus! {

/// How far the pipeline has come.
#[derive(Clone, Copy, Debug, PartialEq, Eq, Structural)]
pub enum Stage {
    /// The environment probe is under way.
    AwaitingProbe,
    /// The resolver is at work.
    AwaitingResolution,
    /// The manifest is being written.
    AwaitingWrite,
    /// The manifest is written and the report was handed out.
    Finished,
    /// A step failed; nothing more will be done.
    Aborted,
}

/// The state of one run of the pipeline.
#[derive(Clone, Debug, PartialEq, Eq)]
pub enum Pipeline {
    /// The environment probe is under way.
    AwaitingProbe { specifiers: Vec<String> },
    /// The resolver is at work.
    AwaitingResolution { specifiers: Vec<String> },
    /// The manifest of `packages` is being written.
    AwaitingWrite { specifiers: Vec<String>, packages: Vec<PinnedPackage> },
    /// The manifest is written and the report was handed out.
    Finished,
    /// A step failed; nothing more will be done.
    Aborted,
}

/// What the outside world reports back.
#[derive(Clone, Debug, PartialEq, Eq)]
pub enum Event {
    /// The platform markers and compatibility tags were determined.
    EnvironmentProbed,
    /// The environment probe could not run.
    EnvironmentProbeFailed { reason: String },
    /// The resolver pinned these packages, in this order.
    Resolved { packages: Vec<PinnedPackage> },
    /// The resolver found no solution, and explains why.
    ResolutionFailed { explanation: String },
    /// The manifest file holds the text that was handed out.
    ManifestWritten,
    /// The manifest file could not be created or written.
    ManifestWriteFailed { reason: String },
}

/// What the caller is to do next.
#[derive(Clone, Debug, PartialEq, Eq)]
pub enum Action {
    /// Determine the platform markers and compatibility tags.
    ProbeEnvironment,
    /// Call the resolver with the specifiers, markers and tags.
    Resolve,
    /// Write this text to the manifest file.
    WriteManifest { content: String },
    /// Print the echo of the specifiers and the table of the packages.
    PrintReport { echo: String, table: String },
    /// Stop and tell the user why.
    Abort { error: PipelineError },
}

/// The mathematical value of a [`Pipeline`].
pub enum PipelineView {
    AwaitingProbe { specifiers: Seq<Seq<char>> },
    AwaitingResolution { specifiers: Seq<Seq<char>> },
    AwaitingWrite { specifiers: Seq<Seq<char>>, packages: Seq<PackageView> },
    Finished,
    Aborted,
}

/// The mathematical value of an [`Event`].
pub enum EventView {
    EnvironmentProbed,
    EnvironmentProbeFailed { reason: Seq<char> },
    Resolved { packages: Seq<PackageView> },
    ResolutionFailed { explanation: Seq<char> },
    ManifestWritten,
    ManifestWriteFailed { reason: Seq<char> },
}

/// The mathematical value of an [`Action`].
pub enum ActionView {
    ProbeEnvironment,
    Resolve,
    WriteManifest { content: Seq<char> },
    PrintReport { echo: Seq<char>, table: Seq<char> },
    Abort { error: ErrorView },
}

impl View for Pipeline {
    type V = PipelineView;

    open spec fn view(&self) -> PipelineView {
        match self {
            Pipeline::AwaitingProbe { specifiers } => PipelineView::AwaitingProbe {
                specifiers: views_of(specifiers@),
            },
            Pipeline::AwaitingResolution { specifiers } => PipelineView::AwaitingResolution {
                specifiers: views_of(specifiers@),
            },
            Pipeline::AwaitingWrite { specifiers, packages } => PipelineView::AwaitingWrite {
                specifiers: views_of(specifiers@),
                packages: package_views(packages@),
            },
            Pipeline::Finished => PipelineView::Finished,
            Pipeline::Aborted => PipelineView::Aborted,
        }
    }
}

impl View for Event {
    type V = EventView;

    open spec fn view(&self) -> EventView {
        match self {
            Event::EnvironmentProbed => EventView::EnvironmentProbed,
            Event::EnvironmentProbeFailed { reason } => EventView::EnvironmentProbeFailed {
                reason: reason@,
            },
            Event::Resolved { packages } => EventView::Resolved {
                packages: package_views(packages@),
            },
            Event::ResolutionFailed { explanation } => EventView::ResolutionFailed {
                explanation: explanation@,
            },
            Event::ManifestWritten => EventView::ManifestWritten,
            Event::ManifestWriteFailed { reason } => EventView::ManifestWriteFailed {
                reason: reason@,
            },
        }
    }
}

impl View for Action {
    type V = ActionView;

    open spec fn view(&self) -> ActionView {
        match self {
            Action::ProbeEnvironment => ActionView::ProbeEnvironment,
            Action::Resolve => ActionView::Resolve,
            Action::WriteManifest { content } => ActionView::WriteManifest { content: content@ },
            Action::PrintReport { echo, table } => ActionView::PrintReport {
                echo: echo@,
                table: table@,
            },
            Action::Abort { error } => ActionView::Abort { error: error@ },
        }
    }
}

/// The value of an action that may be absent.
pub open spec fn action_view(action: Option<Action>) -> Option<ActionView> {
    match action {
        Some(a) => Some(a@),
        None => None,
    }
}

/// The stage of a state.
pub open spec fn stage_of(state: PipelineView) -> Stage {
    match state {
        PipelineView::AwaitingProbe { .. } => Stage::AwaitingProbe,
        PipelineView::AwaitingResolution { .. } => Stage::AwaitingResolution,
        PipelineView::AwaitingWrite { .. } => Stage::AwaitingWrite,
        PipelineView::Finished => Stage::Finished,
        PipelineView::Aborted => Stage::Aborted,
    }
}

/// What follows on resolution: the manifest of the packages is to be
/// written, or, where a package has no entry, the run is over.
pub open spec fn after_resolution(specifiers: Seq<Seq<char>>, packages: Seq<PackageView>) -> (
    PipelineView,
    Option<ActionView>,
) {
    match manifest_for(packages) {
        Ok(content) => (
            PipelineView::AwaitingWrite { specifiers, packages },
            Some(ActionView::WriteManifest { content }),
        ),
        Err(error) => (PipelineView::Aborted, Some(ActionView::Abort { error })),
    }
}

/// The state and the action that follow on `event` in `state`. An event
/// that the state does not wait for changes nothing and asks for nothing.
pub open spec fn next(state: PipelineView, event: EventView) -> (PipelineView, Option<ActionView>) {
    match (state, event) {
        (PipelineView::AwaitingProbe { specifiers }, EventView::EnvironmentProbed) => (
            PipelineView::AwaitingResolution { specifiers },
            Some(ActionView::Resolve),
        ),
        (PipelineView::AwaitingProbe { .. }, EventView::EnvironmentProbeFailed { reason }) => (
            PipelineView::Aborted,
            Some(ActionView::Abort { error: ErrorView::EnvironmentProbeFailed { reason } }),
        ),
        (PipelineView::AwaitingResolution { specifiers }, EventView::Resolved { packages }) =>
            after_resolution(specifiers, packages),
        (
            PipelineView::AwaitingResolution { .. },
            EventView::ResolutionFailed { explanation },
        ) => (
            PipelineView::Aborted,
            Some(ActionView::Abort { error: ErrorView::ResolutionFailed { explanation } }),
        ),
        (PipelineView::AwaitingWrite { specifiers, packages }, EventView::ManifestWritten) => (
            PipelineView::Finished,
            Some(
                ActionView::PrintReport {
                    echo: echo_text(specifiers),
                    table: tab_aligned(table_text(packages)),
                },
            ),
        ),
        (PipelineView::AwaitingWrite { .. }, EventView::ManifestWriteFailed { reason }) => (
            PipelineView::Aborted,
            Some(ActionView::Abort { error: ErrorView::OutputWriteFailed { reason } }),
        ),
        _ => (state, None),
    }
}

/// A manifest is handed out for writing only on resolution, and only where
/// every package has an entry: then it is the manifest of all of them, in
/// the resolver's order. A package without candidates, or whose URL lacks
/// the hash or the file name, leaves no text to write.
pub proof fn lemma_manifest_only_when_all_entries(state: PipelineView, event: EventView)
    requires
        next(state, event).1 matches Some(ActionView::WriteManifest { .. }),
    ensures
        state is AwaitingResolution,
        event is Resolved,
        all_have_entries(event->packages),
        entries_for(event->packages) is Ok,
        next(state, event).1 == Some(
            ActionView::WriteManifest {
                content: manifest_text(entries_for(event->packages)->Ok_0),
            },
        ),
{
}

/// Where some package has no entry, resolution ends the run: the action is
/// to stop with that package's error, and the state is final.
pub proof fn lemma_missing_entry_aborts(specifiers: Seq<Seq<char>>, packages: Seq<PackageView>)
    requires
        !all_have_entries(packages),
    ensures
        next(
            PipelineView::AwaitingResolution { specifiers },
            EventView::Resolved { packages },
        ).0 == PipelineView::Aborted,
        next(
            PipelineView::AwaitingResolution { specifiers },
            EventView::Resolved { packages },
        ).1 matches Some(ActionView::Abort { error }) && entries_for(packages)
            == Err::<Seq<crate::manifest::EntryView>, ErrorView>(error),
{
}

/// A failed resolution ends the run with the resolver's explanation, word
/// for word, and asks for neither a manifest nor a report.
pub proof fn lemma_resolution_failure_aborts(specifiers: Seq<Seq<char>>, explanation: Seq<char>)
    ensures
        next(
            PipelineView::AwaitingResolution { specifiers },
            EventView::ResolutionFailed { explanation },
        ) == (
            PipelineView::Aborted,
            Some(ActionView::Abort { error: ErrorView::ResolutionFailed { explanation } }),
        ),
{
}

/// The report is handed out only once the manifest is written.
pub proof fn lemma_report_only_after_write(state: PipelineView, event: EventView)
    requires
        next(state, event).1 matches Some(ActionView::PrintReport { .. }),
    ensures
        state is AwaitingWrite,
        event is ManifestWritten,
        next(state, event).0 == PipelineView::Finished,
{
}

/// A run that is finished or aborted stays so and asks for nothing more.
pub proof fn lemma_final_states_are_final(state: PipelineView, event: EventView)
    requires
        state is Finished || state is Aborted,
    ensures
        next(state, event) == (state, None::<ActionView>),
{
}

/// The stages follow each other in one line: an event either leaves the
/// stage as it is, moves it one step on, or ends the run.
pub proof fn lemma_stages_are_linear(state: PipelineView, event: EventView)
    ensures
        ({
            let before = stage_of(state);
            let after = stage_of(next(state, event).0);
            ||| after == before
            ||| after == Stage::Aborted
            ||| before == Stage::AwaitingProbe && after == Stage::AwaitingResolution
            ||| before == Stage::AwaitingResolution && after == Stage::AwaitingWrite
            ||| before == Stage::AwaitingWrite && after == Stage::Finished
        }),
{
}

impl Pipeline {
    /// Starts a run for the given specifiers. The first thing to do is to
    /// probe the environment.
    pub fn start(specifiers: Vec<String>) -> (r: (Pipeline, Action))
        ensures
            r.0@ == (PipelineView::AwaitingProbe { specifiers: views_of(specifiers@) }),
            r.1@ == ActionView::ProbeEnvironment,
    {
        (Pipeline::AwaitingProbe { specifiers }, Action::ProbeEnvironment)
    }

    /// How far the run has come.
    pub fn stage(&self) -> (r: Stage)
        ensures
            r == stage_of(self@),
    {
        match self {
            Pipeline::AwaitingProbe { .. } => Stage::AwaitingProbe,
            Pipeline::AwaitingResolution { .. } => Stage::AwaitingResolution,
            Pipeline::AwaitingWrite { .. } => Stage::AwaitingWrite,
            Pipeline::Finished => Stage::Finished,
            Pipeline::Aborted => Stage::Aborted,
        }
    }

    /// Takes in what the outside world reports and says what to do next.
    ///
    /// After the probe comes the resolver; after resolution the manifest of
    /// the pinned packages is to be written, unless a package has no entry;
    /// after the write the report is to be printed. Every failure ends the
    /// run with its error. An event that the run does not wait for changes
    /// nothing and asks for nothing.
    pub fn step(self, event: Event) -> (r: (Pipeline, Option<Action>))
        ensures
            (r.0@, action_view(r.1)) == next(self@, event@),
    {
        match self {
            Pipeline::AwaitingProbe { specifiers } => match event {
                Event::EnvironmentProbed => (
                    Pipeline::AwaitingResolution { specifiers },
                    Some(Action::Resolve),
                ),
                Event::EnvironmentProbeFailed { reason } => (
                    Pipeline::Aborted,
                    Some(Action::Abort { error: PipelineError::EnvironmentProbeFailed { reason } }),
                ),
                _ => (Pipeline::AwaitingProbe { specifiers }, None),
            },
            Pipeline::AwaitingResolution { specifiers } => match event {
                Event::Resolved { packages } => match build_manifest(&packages) {
                    Ok(content) => (
                        Pipeline::AwaitingWrite { specifiers, packages },
                        Some(Action::WriteManifest { content }),
                    ),
                    Err(error) => (Pipeline::Aborted, Some(Action::Abort { error })),
                },
                Event::ResolutionFailed { explanation } => (
                    Pipeline::Aborted,
                    Some(Action::Abort { error: PipelineError::ResolutionFailed { explanation } }),
                ),
                _ => (Pipeline::AwaitingResolution { specifiers }, None),
            },
            Pipeline::AwaitingWrite { specifiers, packages } => match event {
                Event::ManifestWritten => {
                    let echo = specifier_echo(&specifiers);
                    let table = render_report(&packages);
                    (Pipeline::Finished, Some(Action::PrintReport { echo, table }))
                },
                Event::ManifestWriteFailed { reason } => (
                    Pipeline::Aborted,
                    Some(Action::Abort { error: PipelineError::OutputWriteFailed { reason } }),
                ),
                _ => (Pipeline::AwaitingWrite { specifiers, packages }, None),
            },
            Pipeline::Finished => (Pipeline::Finished, None),
            Pipeline::Aborted => (Pipeline::Aborted, None),
        }
    }
}

} // verus!
