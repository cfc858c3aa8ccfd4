//! The build manifest: for each package a download declaration and a library
//! declaration that refers to it, in the resolver's order.

use vstd::prelude::*;
use vstd::string::*;
use crate::error::{ErrorView, PipelineError};
use crate::package::{package_views, PackageView, PinnedPackage};
use crate::reference::{
    hash_marker, lemma_parsed_reassembles, parse_reference, parsed, ReferenceError,
};
use crate::select::{has_binary, is_binary, lemma_binary_is_preferred, ranked, select_artifact};
use crate::text::{join_strings, join_with, views_of};

verus! {

/// What the manifest says of one package: where its artifact is fetched
/// from, under which hash, and into which file.
#[derive(Clone, Debug, PartialEq, Eq)]
pub struct ManifestEntry {
    /// The name of the package.
    pub package: String,
    /// The download URL, without the hash fragment.
    pub url: String,
    /// The SHA-256 digest in hexadecimal, as the artifact's URL gave it.
    pub sha256: String,
    /// The name of the file that the download yields.
    pub filename: String,
}

/// The mathematical value of a [`ManifestEntry`].
pub struct EntryView {
    pub package: Seq<char>,
    pub url: Seq<char>,
    pub sha256: Seq<char>,
    pub filename: Seq<char>,
}

impl View for ManifestEntry {
    type V = EntryView;

    open spec fn view(&self) -> EntryView {
        EntryView {
            package: self.package@,
            url: self.url@,
            sha256: self.sha256@,
            filename: self.filename@,
        }
    }
}

/// The values of the entries of `entries`, in order.
pub open spec fn entry_views(entries: Seq<ManifestEntry>) -> Seq<EntryView> {
    Seq::new(entries.len(), |i: int| entries[i]@)
}

/// The declaration that downloads the artifact. Its fields stand in the
/// order name, url, sha256, out.
pub open spec fn download_declaration(entry: EntryView) -> Seq<char> {
    "remote_file(\n    name = \""@ + entry.package + "-download\",\n    url = \""@ + entry.url
        + "\",\n    sha256 = \""@ + entry.sha256 + "\",\n    out = \""@ + entry.filename
        + "\",\n)\n"@
}

/// The declaration of the library, which names the download as its source.
pub open spec fn library_declaration(entry: EntryView) -> Seq<char> {
    "prebuilt_python_library(\n    name = \""@ + entry.package + "\",\n    binary_src = \":"@
        + entry.package + "-download\",\n)\n"@
}

/// The text of one entry: its download declaration, a blank line, its
/// library declaration.
pub open spec fn entry_text(entry: EntryView) -> Seq<char> {
    download_declaration(entry) + "\n"@ + library_declaration(entry)
}

/// The texts of the entries of `entries`, in order.
pub open spec fn entry_texts(entries: Seq<EntryView>) -> Seq<Seq<char>> {
    Seq::new(entries.len(), |i: int| entry_text(entries[i]))
}

/// The text of the manifest: the entries in their order, a blank line
/// between each two.
pub open spec fn manifest_text(entries: Seq<EntryView>) -> Seq<char> {
    join_with(entry_texts(entries), "\n"@)
}

/// The entry of one package: its canonical artifact's URL, parted; or the
/// reason why the package has none.
pub open spec fn entry_for(package: PackageView) -> Result<EntryView, ErrorView> {
    if package.artifacts.len() == 0 {
        Err(ErrorView::NoArtifactsAvailable { package: package.name })
    } else {
        let url = ranked(package.artifacts)[0].url;
        match parsed(url) {
            Ok(parts) => Ok(
                EntryView {
                    package: package.name,
                    url: parts.url,
                    sha256: parts.digest,
                    filename: parts.filename,
                },
            ),
            Err(ReferenceError::MissingIntegrityHash) => Err(
                ErrorView::MissingIntegrityHash { package: package.name, url },
            ),
            Err(ReferenceError::MalformedArtifactUrl) => Err(
                ErrorView::MalformedArtifactUrl { package: package.name, url },
            ),
        }
    }
}

/// Whether `at` is the index of the first package that has no entry.
pub open spec fn is_first_failure(packages: Seq<PackageView>, at: int) -> bool {
    &&& 0 <= at < packages.len()
    &&& entry_for(packages[at]) is Err
    &&& forall|earlier: int| 0 <= earlier < at ==> entry_for(#[trigger] packages[earlier]) is Ok
}

/// Whether every package has an entry.
pub open spec fn all_have_entries(packages: Seq<PackageView>) -> bool {
    forall|i: int| 0 <= i < packages.len() ==> entry_for(#[trigger] packages[i]) is Ok
}

/// The entries of all packages, in the packages' order; or, where a package
/// has none, the error of the first such package and no entry at all.
pub open spec fn entries_for(packages: Seq<PackageView>) -> Result<Seq<EntryView>, ErrorView> {
    if all_have_entries(packages) {
        Ok(Seq::new(packages.len(), |i: int| entry_for(packages[i])->Ok_0))
    } else {
        Err(entry_for(packages[choose|at: int| is_first_failure(packages, at)])->Err_0)
    }
}

/// The manifest of all packages; or, where a package has no entry, the error
/// of the first such package and no text at all.
pub open spec fn manifest_for(packages: Seq<PackageView>) -> Result<Seq<char>, ErrorView> {
    match entries_for(packages) {
        Ok(entries) => Ok(manifest_text(entries)),
        Err(e) => Err(e),
    }
}

/// The first failure is unique, so its error is the one `entries_for` gives.
pub proof fn lemma_first_failure_decides(packages: Seq<PackageView>, at: int)
    requires
        is_first_failure(packages, at),
    ensures
        entries_for(packages) == Err::<Seq<EntryView>, ErrorView>(
            entry_for(packages[at])->Err_0,
        ),
{
    let chosen = choose|at: int| is_first_failure(packages, at);
    assert(is_first_failure(packages, chosen));
    assert(chosen == at);
}

/// An entry speaks of the canonical artifact of its package and of no other:
/// it bears the package's name, and its URL, the marker and its digest put
/// that artifact's URL together again. Where the package has a binary
/// distribution, that artifact is one.
pub proof fn lemma_entry_refers_to_canonical_artifact(package: PackageView)
    requires
        entry_for(package) is Ok,
    ensures
        package.artifacts.len() > 0,
        ({
            let entry = entry_for(package)->Ok_0;
            let artifact = ranked(package.artifacts)[0];
            &&& entry.package == package.name
            &&& entry.url + hash_marker() + entry.sha256 == artifact.url
            &&& !entry.filename.contains('/')
            &&& has_binary(package.artifacts) ==> is_binary(artifact)
        }),
{
    lemma_parsed_reassembles(ranked(package.artifacts)[0].url);
    if has_binary(package.artifacts) {
        lemma_binary_is_preferred(package.artifacts);
    }
}

/// Where every package has an entry there is one entry for each package, in
/// the packages' order.
pub proof fn lemma_one_entry_per_package(packages: Seq<PackageView>)
    requires
        all_have_entries(packages),
    ensures
        entries_for(packages) is Ok,
        entries_for(packages)->Ok_0.len() == packages.len(),
        forall|i: int|
            0 <= i < packages.len() ==> (#[trigger] entries_for(packages)->Ok_0[i]).package
                == packages[i].name,
{
}

/// The same entries give the same manifest: the text is a function of the
/// entries alone, so emitting twice gives the same characters twice.
pub proof fn lemma_emission_is_deterministic(
    first_entries: Seq<EntryView>,
    second_entries: Seq<EntryView>,
    first_output: Seq<char>,
    second_output: Seq<char>,
)
    requires
        first_entries == second_entries,
        first_output == manifest_text(first_entries),
        second_output == manifest_text(second_entries),
    ensures
        first_output == second_output,
{
}

/// The manifest keeps the resolver's order: the text of a manifest with one
/// more entry at the end is the text so far, a blank line, and that entry.
pub proof fn lemma_manifest_grows_at_the_end(entries: Seq<EntryView>, next: EntryView)
    requires
        entries.len() > 0,
    ensures
        manifest_text(entries.push(next)) == manifest_text(entries) + "\n"@ + entry_text(next),
{
    let longer = entries.push(next);
    assert(entry_texts(longer).drop_last() =~= entry_texts(entries));
    assert(entry_texts(longer).last() == entry_text(next));
}

/// The mathematical value of the result of building an entry.
pub open spec fn entry_result_view(r: Result<ManifestEntry, PipelineError>) -> Result<
    EntryView,
    ErrorView,
> {
    match r {
        Ok(entry) => Ok(entry@),
        Err(e) => Err(e@),
    }
}

/// The mathematical value of the result of building all entries.
pub open spec fn entries_result_view(r: Result<Vec<ManifestEntry>, PipelineError>) -> Result<
    Seq<EntryView>,
    ErrorView,
> {
    match r {
        Ok(entries) => Ok(entry_views(entries@)),
        Err(e) => Err(e@),
    }
}

/// The mathematical value of the result of building a text.
pub open spec fn text_result_view(r: Result<String, PipelineError>) -> Result<
    Seq<char>,
    ErrorView,
> {
    match r {
        Ok(text) => Ok(text@),
        Err(e) => Err(e@),
    }
}

/// Builds the manifest entry of `package`: selects its canonical artifact
/// and parts that artifact's URL. A package without candidates, a URL
/// without hash and a location without file name are refused, each with the
/// package's name.
pub fn manifest_entry(package: &PinnedPackage) -> (r: Result<ManifestEntry, PipelineError>)
    ensures
        entry_result_view(r) == entry_for(package@),
{
    match select_artifact(package) {
        Err(e) => Err(e),
        Ok(artifact) => {
            match parse_reference(artifact.url.as_str()) {
                Ok(parts) => Ok(
                    ManifestEntry {
                        package: package.name.clone(),
                        url: parts.url,
                        sha256: parts.digest,
                        filename: parts.filename,
                    },
                ),
                Err(ReferenceError::MissingIntegrityHash) => Err(
                    PipelineError::MissingIntegrityHash {
                        package: package.name.clone(),
                        url: artifact.url.clone(),
                    },
                ),
                Err(ReferenceError::MalformedArtifactUrl) => Err(
                    PipelineError::MalformedArtifactUrl {
                        package: package.name.clone(),
                        url: artifact.url.clone(),
                    },
                ),
            }
        },
    }
}

/// Builds the entries of all packages, in the packages' order. The first
/// package without an entry fails the whole: its error comes back, and no
/// entry does.
pub fn manifest_entries(packages: &Vec<PinnedPackage>) -> (r: Result<
    Vec<ManifestEntry>,
    PipelineError,
>)
    ensures
        entries_result_view(r) == entries_for(package_views(packages@)),
{
    let ghost views = package_views(packages@);
    let mut entries: Vec<ManifestEntry> = Vec::new();
    let mut i: usize = 0;
    while i < packages.len()
        invariant
            i <= packages.len(),
            views == package_views(packages@),
            entries@.len() == i,
            forall|j: int| 0 <= j < i ==> entry_for(#[trigger] views[j]) == Ok::<
                EntryView,
                ErrorView,
            >(entries@[j]@),
        decreases packages.len() - i,
    {
        match manifest_entry(&packages[i]) {
            Err(e) => {
                proof {
                    assert(views[i as int] == packages@[i as int]@);
                    assert(is_first_failure(views, i as int));
                    lemma_first_failure_decides(views, i as int);
                }
                return Err(e);
            },
            Ok(entry) => {
                proof {
                    assert(views[i as int] == packages@[i as int]@);
                }
                entries.push(entry);
            },
        }
        i += 1;
    }
    proof {
        assert(all_have_entries(views));
        assert(entry_views(entries@) =~= Seq::new(
            views.len(),
            |i: int| entry_for(views[i])->Ok_0,
        ));
    }
    Ok(entries)
}

/// The text of one entry.
pub fn format_entry(entry: &ManifestEntry) -> (r: String)
    ensures
        r@ == entry_text(entry@),
{
    let mut text = String::from_str("remote_file(\n    name = \"");
    text.append(entry.package.as_str());
    text.append("-download\",\n    url = \"");
    text.append(entry.url.as_str());
    text.append("\",\n    sha256 = \"");
    text.append(entry.sha256.as_str());
    text.append("\",\n    out = \"");
    text.append(entry.filename.as_str());
    text.append("\",\n)\n");
    proof {
        assert(text@ == download_declaration(entry@));
    }
    text.append("\n");
    text.append("prebuilt_python_library(\n    name = \"");
    text.append(entry.package.as_str());
    text.append("\",\n    binary_src = \":");
    text.append(entry.package.as_str());
    text.append("-download\",\n)\n");
    proof {
        assert(text@ =~= entry_text(entry@));
    }
    text
}

/// Renders the manifest of `entries`: for each entry its two declarations,
/// in the order of `entries`, a blank line between each two entries. The
/// text depends on the entries alone.
pub fn emit_manifest(entries: &Vec<ManifestEntry>) -> (r: String)
    ensures
        r@ == manifest_text(entry_views(entries@)),
{
    let mut texts: Vec<String> = Vec::new();
    let mut i: usize = 0;
    while i < entries.len()
        invariant
            i <= entries.len(),
            texts@.len() == i,
            forall|j: int| 0 <= j < i ==> (#[trigger] texts@[j])@ == entry_text(entries@[j]@),
        decreases entries.len() - i,
    {
        texts.push(format_entry(&entries[i]));
        i += 1;
    }
    proof {
        assert(views_of(texts@) =~= entry_texts(entry_views(entries@)));
    }
    join_strings(&texts, "\n")
}

/// Builds the manifest of `packages`: one entry per package, in the
/// resolver's order. Where any package has no entry the whole fails with the
/// first such package's error, and there is no text to write.
pub fn build_manifest(packages: &Vec<PinnedPackage>) -> (r: Result<String, PipelineError>)
    ensures
        text_result_view(r) == manifest_for(package_views(packages@)),
{
    match manifest_entries(packages) {
        Err(e) => Err(e),
        Ok(entries) => Ok(emit_manifest(&entries)),
    }
}

} // verus!
