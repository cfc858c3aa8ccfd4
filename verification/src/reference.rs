//! Parting an artifact's URL into the location to fetch from, the content
//! hash it carries, and the name of the file it yields.

use vstd::prelude::*;
use vstd::string::*;
use crate::text::{
    chars_of, contains_pattern, find_first, find_last, first_occurrence,
    is_first_occurrence, is_last_index_of, last_index_of, lemma_first_occurrence_unique,
    lemma_last_index_unique, occurs_at,
};

verus! {

/// Why a URL could not be parted.
#[derive(Clone, Copy, Debug, PartialEq, Eq, Structural)]
pub enum ReferenceError {
    /// The URL holds no `#sha256=` marker.
    MissingIntegrityHash,
    /// The location before the marker holds no `/`.
    MalformedArtifactUrl,
}

/// What a URL of the form `<location>#sha256=<digest>` is made of.
#[derive(Clone, Debug, PartialEq, Eq)]
pub struct ArtifactReference {
    /// The location, without the hash fragment.
    pub url: String,
    /// What follows the marker, as it stands.
    pub digest: String,
    /// The last `/`-delimited segment of the location.
    pub filename: String,
}

/// The mathematical value of an [`ArtifactReference`].
pub struct ReferenceView {
    pub url: Seq<char>,
    pub digest: Seq<char>,
    pub filename: Seq<char>,
}

impl View for ArtifactReference {
    type V = ReferenceView;

    open spec fn view(&self) -> ReferenceView {
        ReferenceView { url: self.url@, digest: self.digest@, filename: self.filename@ }
    }
}

/// The marker that stands between the location and the digest.
pub open spec fn hash_marker() -> Seq<char> {
    "#sha256="@
}

/// The part of `location` after its last `/`; meaningful only where
/// `location` holds one.
pub open spec fn last_segment(location: Seq<char>) -> Seq<char> {
    location.skip(last_index_of(location, '/') + 1)
}

/// What parsing `url` gives: the text before the first marker, the text
/// after it, and the last segment of the former; or the reason why not.
pub open spec fn parsed(url: Seq<char>) -> Result<ReferenceView, ReferenceError> {
    if !contains_pattern(url, hash_marker()) {
        Err(ReferenceError::MissingIntegrityHash)
    } else {
        let at = first_occurrence(url, hash_marker());
        let location = url.take(at);
        if !location.contains('/') {
            Err(ReferenceError::MalformedArtifactUrl)
        } else {
            Ok(
                ReferenceView {
                    url: location,
                    digest: url.skip(at + hash_marker().len()),
                    filename: last_segment(location),
                },
            )
        }
    }
}

/// The value of a parse result.
pub open spec fn result_view(r: Result<ArtifactReference, ReferenceError>) -> Result<
    ReferenceView,
    ReferenceError,
> {
    match r {
        Ok(reference) => Ok(reference@),
        Err(e) => Err(e),
    }
}

/// The parts of a parsed URL put the URL together again: location, marker,
/// digest. The location holds no marker, the file name holds no `/`, and the
/// location ends in the file name.
pub proof fn lemma_parsed_reassembles(url: Seq<char>)
    requires
        parsed(url) is Ok,
    ensures
        ({
            let parts = parsed(url)->Ok_0;
            &&& parts.url + hash_marker() + parts.digest == url
            &&& !contains_pattern(parts.url, hash_marker())
            &&& !parts.filename.contains('/')
            &&& parts.filename.len() < parts.url.len()
            &&& parts.url.skip(parts.url.len() - parts.filename.len()) == parts.filename
            &&& parts.url[parts.url.len() - parts.filename.len() - 1] == '/'
        }),
{
    let marker = hash_marker();
    let at = first_occurrence(url, marker);
    let witness = choose|at: int| occurs_at(url, marker, at);
    let first = lemma_first_occurrence_exists(url, marker, witness);
    assert(is_first_occurrence(url, marker, at));
    let parts = parsed(url)->Ok_0;
    assert(parts.url + marker + parts.digest =~= url) by {
        assert(url.subrange(at, at + marker.len()) == marker);
    }
    if contains_pattern(parts.url, marker) {
        let inner = choose|inner: int| occurs_at(parts.url, marker, inner);
        assert(parts.url.subrange(inner, inner + marker.len()) =~= url.subrange(
            inner,
            inner + marker.len(),
        ));
        assert(occurs_at(url, marker, inner));
        assert(inner < at) by {
            reveal_strlit("#sha256=");
        }
    }
    let slash = last_index_of(parts.url, '/');
    let some = choose|i: int| 0 <= i < parts.url.len() && parts.url[i] == '/';
    let last = lemma_last_index_exists(parts.url, '/', some);
    assert(is_last_index_of(parts.url, '/', slash));
    if parts.filename.contains('/') {
        let i = choose|i: int| 0 <= i < parts.filename.len() && parts.filename[i] == '/';
        assert(parts.url[slash + 1 + i] == '/');
    }
    assert(parts.filename.len() == parts.url.len() - slash - 1);
    assert(parts.url.skip(parts.url.len() - parts.filename.len()) =~= parts.filename);
}

/// Below any occurrence of a pattern there is a leftmost one.
pub proof fn lemma_first_occurrence_exists(text: Seq<char>, pattern: Seq<char>, bound: int) -> (at:
    int)
    requires
        occurs_at(text, pattern, bound),
    ensures
        is_first_occurrence(text, pattern, at),
    decreases bound,
{
    if exists|earlier: int| 0 <= earlier < bound && occurs_at(text, pattern, earlier) {
        let earlier = choose|earlier: int| 0 <= earlier < bound && occurs_at(text, pattern, earlier);
        lemma_first_occurrence_exists(text, pattern, earlier)
    } else {
        bound
    }
}

/// Above any index of a character there is a rightmost one.
pub proof fn lemma_last_index_exists(text: Seq<char>, mark: char, bound: int) -> (at: int)
    requires
        0 <= bound < text.len(),
        text[bound] == mark,
    ensures
        is_last_index_of(text, mark, at),
    decreases text.len() - bound,
{
    if exists|later: int| bound < later < text.len() && text[later] == mark {
        let later = choose|later: int| bound < later < text.len() && text[later] == mark;
        lemma_last_index_exists(text, mark, later)
    } else {
        bound
    }
}

/// Parts `url` at its first `#sha256=` marker. What stands before the marker
/// is the location, what stands after it is the digest, taken as it is, and
/// the location's last `/`-delimited segment is the file name. A URL without
/// the marker, or with no `/` before it, is refused.
pub fn parse_reference(url: &str) -> (r: Result<ArtifactReference, ReferenceError>)
    ensures
        result_view(r) == parsed(url@),
        !contains_pattern(url@, hash_marker()) <==> r == Err::<ArtifactReference, ReferenceError>(
            ReferenceError::MissingIntegrityHash,
        ),
{
    let mut text = chars_of(url);
    let marker = chars_of("#sha256=");
    let length = text.len();
    match find_first(&text, &marker) {
        None => Err(ReferenceError::MissingIntegrityHash),
        Some(at) => {
            proof {
                lemma_first_occurrence_unique(text@, marker@, at as int);
            }
            text.truncate(at);
            match find_last(&text, '/') {
                None => Err(ReferenceError::MalformedArtifactUrl),
                Some(slash) => {
                    proof {
                        lemma_last_index_unique(url@.take(at as int), '/', slash as int);
                    }
                    let location = url.substring_char(0, at);
                    let digest = url.substring_char(at + marker.len(), length);
                    let filename = url.substring_char(slash + 1, at);
                    proof {
                        assert(location@ =~= url@.take(at as int));
                        assert(digest@ =~= url@.skip(at + hash_marker().len()));
                        assert(filename@ =~= last_segment(url@.take(at as int)));
                    }
                    Ok(
                        ArtifactReference {
                            url: location.to_owned(),
                            digest: digest.to_owned(),
                            filename: filename.to_owned(),
                        },
                    )
                },
            }
        },
    }
}

} // verus!
