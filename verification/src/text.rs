//! Text primitives over sequences of characters: substring search, the last
//! path separator, joining with a separator, and the lexicographic order.

use vstd::prelude::*;
use vstd::string::*;
use itertools::Itertools;

verus! {

/// Whether `pattern` stands in `text` at index `at`.
pub open spec fn occurs_at(text: Seq<char>, pattern: Seq<char>, at: int) -> bool {
    &&& 0 <= at
    &&& at + pattern.len() <= text.len()
    &&& text.subrange(at, at + pattern.len()) == pattern
}

/// Whether `pattern` stands somewhere in `text`.
pub open spec fn contains_pattern(text: Seq<char>, pattern: Seq<char>) -> bool {
    exists|at: int| occurs_at(text, pattern, at)
}

/// Whether `at` is the leftmost index at which `pattern` stands in `text`.
pub open spec fn is_first_occurrence(text: Seq<char>, pattern: Seq<char>, at: int) -> bool {
    &&& occurs_at(text, pattern, at)
    &&& forall|earlier: int| 0 <= earlier < at ==> !occurs_at(text, pattern, earlier)
}

/// The leftmost index at which `pattern` stands in `text`; meaningful only
/// where `contains_pattern(text, pattern)`.
pub open spec fn first_occurrence(text: Seq<char>, pattern: Seq<char>) -> int {
    choose|at: int| is_first_occurrence(text, pattern, at)
}

/// Whether `at` is the index of the rightmost `mark` in `text`.
pub open spec fn is_last_index_of(text: Seq<char>, mark: char, at: int) -> bool {
    &&& 0 <= at < text.len()
    &&& text[at] == mark
    &&& forall|later: int| at < later < text.len() ==> text[later] != mark
}

/// The index of the rightmost `mark` in `text`; meaningful only where
/// `text.contains(mark)`.
pub open spec fn last_index_of(text: Seq<char>, mark: char) -> int {
    choose|at: int| is_last_index_of(text, mark, at)
}

/// The parts in order, with `separator` between each two neighbours and
/// nothing before the first or after the last.
pub open spec fn join_with(parts: Seq<Seq<char>>, separator: Seq<char>) -> Seq<char>
    decreases parts.len(),
{
    if parts.len() == 0 {
        Seq::empty()
    } else if parts.len() == 1 {
        parts[0]
    } else {
        join_with(parts.drop_last(), separator) + separator + parts.last()
    }
}

/// The views of the strings of `parts`, in order.
pub open spec fn views_of(parts: Seq<String>) -> Seq<Seq<char>> {
    Seq::new(parts.len(), |i: int| parts[i]@)
}

/// Lexicographic order by code point: `a` comes no later than `b`.
pub open spec fn lex_le(a: Seq<char>, b: Seq<char>) -> bool
    decreases a.len(),
{
    if a.len() == 0 {
        true
    } else if b.len() == 0 {
        false
    } else if a[0] == b[0] {
        lex_le(a.drop_first(), b.drop_first())
    } else {
        (a[0] as int) < (b[0] as int)
    }
}

/// A leftmost occurrence is unique, so it is the one `first_occurrence` names.
pub proof fn lemma_first_occurrence_unique(text: Seq<char>, pattern: Seq<char>, at: int)
    requires
        is_first_occurrence(text, pattern, at),
    ensures
        contains_pattern(text, pattern),
        first_occurrence(text, pattern) == at,
{
    let chosen = first_occurrence(text, pattern);
    assert(is_first_occurrence(text, pattern, chosen));
    if chosen < at {
        assert(!occurs_at(text, pattern, chosen));
    }
    if at < chosen {
        assert(!occurs_at(text, pattern, at));
    }
}

/// A rightmost index is unique, so it is the one `last_index_of` names.
pub proof fn lemma_last_index_unique(text: Seq<char>, mark: char, at: int)
    requires
        is_last_index_of(text, mark, at),
    ensures
        text.contains(mark),
        last_index_of(text, mark) == at,
{
    let chosen = last_index_of(text, mark);
    assert(is_last_index_of(text, mark, chosen));
}

/// The order is total: of two names one comes no later than the other.
pub proof fn lemma_lex_le_total(a: Seq<char>, b: Seq<char>)
    ensures
        lex_le(a, b) || lex_le(b, a),
    decreases a.len(),
{
    if a.len() > 0 && b.len() > 0 {
        if a[0] == b[0] {
            lemma_lex_le_total(a.drop_first(), b.drop_first());
        } else {
            assert(a[0] as int != b[0] as int);
        }
    }
}

/// The order is antisymmetric: names that come no later than each other are equal.
pub proof fn lemma_lex_le_antisymmetric(a: Seq<char>, b: Seq<char>)
    requires
        lex_le(a, b),
        lex_le(b, a),
    ensures
        a == b,
    decreases a.len(),
{
    if a.len() == 0 || b.len() == 0 {
        assert(a =~= b);
    } else {
        lemma_lex_le_antisymmetric(a.drop_first(), b.drop_first());
        assert(a =~= seq![a[0]] + a.drop_first());
        assert(b =~= seq![b[0]] + b.drop_first());
    }
}

/// The order is transitive.
pub proof fn lemma_lex_le_transitive(a: Seq<char>, b: Seq<char>, c: Seq<char>)
    requires
        lex_le(a, b),
        lex_le(b, c),
    ensures
        lex_le(a, c),
    decreases a.len(),
{
    if a.len() > 0 && b.len() > 0 && c.len() > 0 && a[0] == b[0] && b[0] == c[0] {
        lemma_lex_le_transitive(a.drop_first(), b.drop_first(), c.drop_first());
    }
}

/// Whether `x` has the smaller code point.
pub fn char_lt(x: char, y: char) -> (r: bool)
    ensures
        r == ((x as int) < (y as int)),
{
    x < y
}

/// The characters of `s`, in order.
pub fn chars_of(s: &str) -> (v: Vec<char>)
    ensures
        v@ == s@,
{
    let mut v: Vec<char> = Vec::new();
    for c in it: s.chars()
        invariant
            it.seq() == s@,
            v@ == s@.take(it.index() as int),
    {
        v.push(c);
    }
    v
}

/// Whether `pattern` stands in `text` at index `at`.
pub fn matches_at(text: &Vec<char>, pattern: &Vec<char>, at: usize) -> (r: bool)
    ensures
        r == occurs_at(text@, pattern@, at as int),
{
    if pattern.len() > text.len() || at > text.len() - pattern.len() {
        return false;
    }
    let mut k: usize = 0;
    while k < pattern.len()
        invariant
            at + pattern.len() <= text.len(),
            k <= pattern.len(),
            forall|j: int| 0 <= j < k ==> text@[at + j] == pattern@[j],
        decreases pattern.len() - k,
    {
        if text[at + k] != pattern[k] {
            proof {
                let window = text@.subrange(at as int, at + pattern.len());
                assert(window[k as int] == text@[at + k]);
            }
            return false;
        }
        k += 1;
    }
    proof {
        assert(text@.subrange(at as int, at + pattern.len()) =~= pattern@);
    }
    true
}

/// The leftmost index at which `pattern` stands in `text`, if it stands there at all.
pub fn find_first(text: &Vec<char>, pattern: &Vec<char>) -> (r: Option<usize>)
    ensures
        match r {
            Some(at) => is_first_occurrence(text@, pattern@, at as int),
            None => !contains_pattern(text@, pattern@),
        },
{
    if pattern.len() > text.len() {
        return None;
    }
    let last_start: usize = text.len() - pattern.len();
    let mut at: usize = 0;
    loop
        invariant
            last_start + pattern.len() == text.len(),
            at <= last_start,
            forall|earlier: int| 0 <= earlier < at ==> !occurs_at(text@, pattern@, earlier),
        decreases last_start - at,
    {
        if matches_at(text, pattern, at) {
            return Some(at);
        }
        if at == last_start {
            return None;
        }
        at += 1;
    }
}

/// The index of the rightmost `mark` in `text`, if there is one.
pub fn find_last(text: &Vec<char>, mark: char) -> (r: Option<usize>)
    ensures
        match r {
            Some(at) => is_last_index_of(text@, mark, at as int),
            None => !text@.contains(mark),
        },
{
    let mut at: usize = text.len();
    while at > 0
        invariant
            at <= text.len(),
            forall|later: int| at <= later < text.len() ==> text@[later] != mark,
        decreases at,
    {
        at -= 1;
        if text[at] == mark {
            return Some(at);
        }
    }
    None
}

/// Whether `a` comes no later than `b` in lexicographic order by code point.
pub fn lex_le_chars(a: &Vec<char>, b: &Vec<char>) -> (r: bool)
    ensures
        r == lex_le(a@, b@),
{
    let mut i: usize = 0;
    proof {
        assert(a@.skip(0) =~= a@);
        assert(b@.skip(0) =~= b@);
    }
    loop
        invariant
            i <= a.len(),
            i <= b.len(),
            lex_le(a@, b@) == lex_le(a@.skip(i as int), b@.skip(i as int)),
        decreases a.len() - i,
    {
        if i == a.len() {
            return true;
        }
        if i == b.len() {
            return false;
        }
        let x = a[i];
        let y = b[i];
        if x != y {
            return char_lt(x, y);
        }
        proof {
            assert(a@.skip(i as int).drop_first() =~= a@.skip(i + 1));
            assert(b@.skip(i as int).drop_first() =~= b@.skip(i + 1));
        }
        i += 1;
    }
}

/// Joins `parts` with `separator` through `itertools::Itertools::join`, which
/// writes the first part and then, for each further part, the separator and
/// the part. The contract claims exactly that text; nothing of it is proved.
#[verifier::external_body]
pub(crate) fn join_strings(parts: &Vec<String>, separator: &str) -> (r: String)
    ensures
        r@ == join_with(views_of(parts@), separator@),
{
    parts.iter().join(separator)
}

} // verus!
