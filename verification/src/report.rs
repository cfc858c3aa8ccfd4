//! The resolution report: an echo of what was asked for, and a table of the
//! resolved packages in the order of their names.

use std::io::Write;
use vstd::prelude::*;
use vstd::seq_lib::*;
use vstd::string::*;
use crate::package::{names_unique, package_views, PackageView, PinnedPackage};
use crate::text::{
    chars_of, join_strings, join_with, lemma_lex_le_antisymmetric, lemma_lex_le_total,
    lemma_lex_le_transitive, lex_le, lex_le_chars, views_of,
};

verus! {

/// What `tabwriter::TabWriter` makes of `text`: the same lines, the
/// tab-terminated cells of neighbouring lines padded to a common width.
pub uninterp spec fn tab_aligned(text: Seq<char>) -> Seq<char>;

/// Whether the rows stand in the order of their names.
pub open spec fn is_sorted_by_name(rows: Seq<PackageView>) -> bool {
    forall|i: int, j: int| 0 <= i < j < rows.len() ==> lex_le(rows[i].name, rows[j].name)
}

/// Where a row of the given name goes among sorted rows: behind the last
/// row whose name comes no later.
pub open spec fn insertion_point(rows: Seq<PackageView>, name: Seq<char>) -> int
    decreases rows.len(),
{
    if rows.len() == 0 {
        0
    } else if lex_le(rows.last().name, name) {
        rows.len() as int
    } else {
        insertion_point(rows.drop_last(), name)
    }
}

/// The packages in the order of their names; packages of one name keep the
/// order they came in.
pub open spec fn sorted_by_name(packages: Seq<PackageView>) -> Seq<PackageView>
    decreases packages.len(),
{
    if packages.len() == 0 {
        Seq::empty()
    } else {
        let rest = sorted_by_name(packages.drop_last());
        rest.insert(insertion_point(rest, packages.last().name), packages.last())
    }
}

/// The name as the report shows it: the extras, where there are any, behind
/// it in brackets, in their order, with commas between them.
pub open spec fn display_name(package: PackageView) -> Seq<char> {
    if package.extras.len() == 0 {
        package.name
    } else {
        package.name + "["@ + join_with(package.extras, ","@) + "]"@
    }
}

/// One row of the table: name, tab, version, end of line.
pub open spec fn row_text(package: PackageView) -> Seq<char> {
    display_name(package) + "\t"@ + package.version + "\n"@
}

/// The rows of `rows`, one after the other.
pub open spec fn rows_text(rows: Seq<PackageView>) -> Seq<char>
    decreases rows.len(),
{
    if rows.len() == 0 {
        Seq::empty()
    } else {
        rows_text(rows.drop_last()) + row_text(rows.last())
    }
}

/// The table before its columns are aligned: the header row, then one row
/// per package, in the order of the names.
pub open spec fn table_text(packages: Seq<PackageView>) -> Seq<char> {
    "Name\tVersion\n"@ + rows_text(sorted_by_name(packages))
}

/// The lines that repeat the specifiers, one after the other.
pub open spec fn echo_lines(specifiers: Seq<Seq<char>>) -> Seq<char>
    decreases specifiers.len(),
{
    if specifiers.len() == 0 {
        Seq::empty()
    } else {
        echo_lines(specifiers.drop_last()) + "- "@ + specifiers.last() + "\n"@
    }
}

/// The echo of what the user asked for: a heading, then each specifier on a
/// line of its own, in the order given.
pub open spec fn echo_text(specifiers: Seq<Seq<char>>) -> Seq<char> {
    "Resolved environment:\n"@ + echo_lines(specifiers)
}

/// The packages that `order` points at, in that order.
pub open spec fn rows_in_order(packages: Seq<PackageView>, order: Seq<usize>) -> Seq<PackageView> {
    Seq::new(order.len(), |k: int| packages[order[k] as int])
}

/// The insertion point parts the rows: names before it come no later than
/// the new name, names from it on come later.
pub proof fn lemma_insertion_point(rows: Seq<PackageView>, name: Seq<char>)
    ensures
        0 <= insertion_point(rows, name) <= rows.len(),
        insertion_point(rows, name) > 0 ==> lex_le(
            rows[insertion_point(rows, name) - 1].name,
            name,
        ),
        forall|j: int|
            insertion_point(rows, name) <= j < rows.len() ==> !lex_le(
                (#[trigger] rows[j]).name,
                name,
            ),
    decreases rows.len(),
{
    if rows.len() > 0 && !lex_le(rows.last().name, name) {
        lemma_insertion_point(rows.drop_last(), name);
        let front = rows.drop_last();
        assert forall|j: int| insertion_point(rows, name) <= j < rows.len() implies !lex_le(
            (#[trigger] rows[j]).name,
            name,
        ) by {
            if j < front.len() {
                assert(front[j] == rows[j]);
            }
        }
    }
}

/// Putting a row at its insertion point keeps sorted rows sorted.
pub proof fn lemma_insert_keeps_sorted(rows: Seq<PackageView>, package: PackageView)
    requires
        is_sorted_by_name(rows),
    ensures
        is_sorted_by_name(rows.insert(insertion_point(rows, package.name), package)),
{
    let at = insertion_point(rows, package.name);
    let longer = rows.insert(at, package);
    lemma_insertion_point(rows, package.name);
    assert forall|i: int, j: int| 0 <= i < j < longer.len() implies lex_le(
        longer[i].name,
        longer[j].name,
    ) by {
        if j == at {
            assert(longer[i] == rows[i]);
            if i < at - 1 {
                lemma_lex_le_transitive(rows[i].name, rows[at - 1].name, package.name);
            }
        } else if i == at {
            assert(longer[j] == rows[j - 1]);
            lemma_lex_le_total(rows[j - 1].name, package.name);
        } else {
            let before_i = if i < at { i } else { i - 1 };
            let before_j = if j < at { j } else { j - 1 };
            assert(longer[i] == rows[before_i]);
            assert(longer[j] == rows[before_j]);
        }
    }
}

/// The rows of the report stand in the order of their names, whatever order
/// the packages came in.
pub proof fn lemma_sorted_by_name_is_sorted(packages: Seq<PackageView>)
    ensures
        is_sorted_by_name(sorted_by_name(packages)),
    decreases packages.len(),
{
    if packages.len() > 0 {
        lemma_sorted_by_name_is_sorted(packages.drop_last());
        lemma_insert_keeps_sorted(sorted_by_name(packages.drop_last()), packages.last());
    }
}

/// The rows of the report are the packages themselves: each as often as it
/// came in, none added and none lost.
pub proof fn lemma_sorted_by_name_is_permutation(packages: Seq<PackageView>)
    ensures
        sorted_by_name(packages).len() == packages.len(),
        sorted_by_name(packages).to_multiset() == packages.to_multiset(),
    decreases packages.len(),
{
    broadcast use group_to_multiset_ensures;

    if packages.len() > 0 {
        let front = packages.drop_last();
        lemma_sorted_by_name_is_permutation(front);
        lemma_insertion_point(sorted_by_name(front), packages.last().name);
        assert(front.push(packages.last()) =~= packages);
    } else {
        assert(sorted_by_name(packages) =~= packages);
    }
}

/// Rows with the same members have pairwise different names where the
/// packages they were made of have.
pub proof fn lemma_permutation_keeps_names_unique(
    packages: Seq<PackageView>,
    rows: Seq<PackageView>,
)
    requires
        names_unique(packages),
        rows.to_multiset() == packages.to_multiset(),
    ensures
        names_unique(rows),
{
    broadcast use group_to_multiset_ensures;

    assert(packages.no_duplicates());
    packages.lemma_multiset_has_no_duplicates();
    rows.lemma_multiset_has_no_duplicates_conv();
    assert forall|i: int, j: int| 0 <= i < j < rows.len() implies rows[i].name
        != rows[j].name by {
        assert(rows.contains(rows[i]));
        assert(rows.contains(rows[j]));
        assert(packages.to_multiset().count(rows[i]) > 0);
        assert(packages.to_multiset().count(rows[j]) > 0);
        assert(packages.contains(rows[i]));
        assert(packages.contains(rows[j]));
        let a = choose|a: int| 0 <= a < packages.len() && packages[a] == rows[i];
        let b = choose|b: int| 0 <= b < packages.len() && packages[b] == rows[j];
        assert(rows[i] != rows[j]);
        if a < b {
            assert(packages[a].name != packages[b].name);
        } else {
            assert(packages[b].name != packages[a].name);
        }
    }
}

/// Sorted rows with the same members and pairwise different names are the
/// same rows.
pub proof fn lemma_sorted_rows_unique(first: Seq<PackageView>, second: Seq<PackageView>)
    requires
        is_sorted_by_name(first),
        is_sorted_by_name(second),
        names_unique(first),
        first.to_multiset() == second.to_multiset(),
    ensures
        first == second,
    decreases first.len(),
{
    broadcast use group_to_multiset_ensures;
    broadcast use vstd::multiset::group_multiset_axioms;

    assert(first.len() == second.len()) by {
        to_multiset_len(first);
        to_multiset_len(second);
    }
    if first.len() == 0 {
        assert(first =~= second);
    } else {
        assert(first.contains(first[0]));
        assert(second.contains(second[0]));
        assert(second.to_multiset().count(first[0]) > 0);
        assert(first.to_multiset().count(second[0]) > 0);
        assert(second.contains(first[0]));
        assert(first.contains(second[0]));
        let i = choose|i: int| 0 <= i < second.len() && second[i] == first[0];
        let j = choose|j: int| 0 <= j < first.len() && first[j] == second[0];
        if i > 0 && j > 0 {
            lemma_lex_le_antisymmetric(first[0].name, second[0].name);
        }
        assert(first[0] == second[0]);
        assert(first.drop_first() =~= first.remove(0));
        assert(second.drop_first() =~= second.remove(0));
        assert(first.drop_first().to_multiset() == second.drop_first().to_multiset());
        assert forall|a: int, b: int| 0 <= a < b < first.drop_first().len() implies lex_le(
            first.drop_first()[a].name,
            first.drop_first()[b].name,
        ) by {
            assert(first.drop_first()[a] == first[a + 1]);
            assert(first.drop_first()[b] == first[b + 1]);
        }
        assert forall|a: int, b: int| 0 <= a < b < second.drop_first().len() implies lex_le(
            second.drop_first()[a].name,
            second.drop_first()[b].name,
        ) by {
            assert(second.drop_first()[a] == second[a + 1]);
            assert(second.drop_first()[b] == second[b + 1]);
        }
        assert forall|a: int, b: int|
            0 <= a < b < first.drop_first().len() implies first.drop_first()[a].name
            != first.drop_first()[b].name by {
            assert(first.drop_first()[a] == first[a + 1]);
            assert(first.drop_first()[b] == first[b + 1]);
        }
        lemma_sorted_rows_unique(first.drop_first(), second.drop_first());
        assert(first =~= seq![first[0]] + first.drop_first());
        assert(second =~= seq![second[0]] + second.drop_first());
    }
}

/// The order of the rows does not depend on the order the packages came in:
/// two lists of the same packages, whose names are pairwise different, give
/// the same rows.
pub proof fn lemma_rows_ignore_input_order(first: Seq<PackageView>, second: Seq<PackageView>)
    requires
        names_unique(first),
        first.to_multiset() == second.to_multiset(),
    ensures
        sorted_by_name(first) == sorted_by_name(second),
        table_text(first) == table_text(second),
{
    lemma_sorted_by_name_is_sorted(first);
    lemma_sorted_by_name_is_sorted(second);
    lemma_sorted_by_name_is_permutation(first);
    lemma_sorted_by_name_is_permutation(second);
    lemma_permutation_keeps_names_unique(first, sorted_by_name(first));
    lemma_sorted_rows_unique(sorted_by_name(first), sorted_by_name(second));
}

/// The positions of `packages` in the order of their names; packages of one
/// name keep the order they came in.
pub fn name_order(packages: &Vec<PinnedPackage>) -> (order: Vec<usize>)
    ensures
        order@.len() == packages@.len(),
        forall|k: int| 0 <= k < order@.len() ==> (#[trigger] order@[k]) < packages@.len(),
        rows_in_order(package_views(packages@), order@) == sorted_by_name(
            package_views(packages@),
        ),
{
    let ghost views = package_views(packages@);
    let mut names: Vec<Vec<char>> = Vec::new();
    let mut n: usize = 0;
    while n < packages.len()
        invariant
            n <= packages.len(),
            names@.len() == n,
            forall|j: int| 0 <= j < n ==> (#[trigger] names@[j])@ == packages@[j].name@,
        decreases packages.len() - n,
    {
        names.push(chars_of(packages[n].name.as_str()));
        n += 1;
    }
    let mut order: Vec<usize> = Vec::new();
    let mut next: usize = 0;
    proof {
        assert(views.take(0) =~= Seq::<PackageView>::empty());
        assert(rows_in_order(views, order@) =~= sorted_by_name(views.take(0)));
    }
    while next < packages.len()
        invariant
            next <= packages.len(),
            views == package_views(packages@),
            names@.len() == packages@.len(),
            forall|j: int|
                0 <= j < packages@.len() ==> (#[trigger] names@[j])@ == packages@[j].name@,
            order@.len() == next,
            forall|k: int| 0 <= k < order@.len() ==> (#[trigger] order@[k]) < packages@.len(),
            rows_in_order(views, order@) == sorted_by_name(views.take(next as int)),
        decreases packages.len() - next,
    {
        let ghost rows = rows_in_order(views, order@);
        let ghost name = views[next as int].name;
        let mut at: usize = order.len();
        proof {
            assert(rows.take(at as int) =~= rows);
        }
        while at > 0 && !lex_le_chars(&names[order[at - 1]], &names[next])
            invariant
                at <= order@.len(),
                next < packages@.len(),
                rows == rows_in_order(views, order@),
                name == views[next as int].name,
                views == package_views(packages@),
                names@.len() == packages@.len(),
                forall|j: int|
                    0 <= j < packages@.len() ==> (#[trigger] names@[j])@ == packages@[j].name@,
                forall|k: int| 0 <= k < order@.len() ==> (#[trigger] order@[k]) < packages@.len(),
                insertion_point(rows, name) == insertion_point(rows.take(at as int), name),
            decreases at,
        {
            proof {
                assert(rows.take(at as int).last() == rows[at - 1]);
                assert(rows.take(at as int).drop_last() =~= rows.take(at - 1));
            }
            at -= 1;
        }
        proof {
            if at > 0 {
                assert(rows.take(at as int).last() == rows[at - 1]);
            }
            assert(insertion_point(rows, name) == at);
            let grown = views.take(next + 1);
            assert(grown.drop_last() =~= views.take(next as int));
            assert(grown.last() == views[next as int]);
            assert(rows_in_order(views, order@.insert(at as int, next)) =~= rows.insert(
                at as int,
                views[next as int],
            ));
        }
        order.insert(at, next);
        next += 1;
    }
    proof {
        assert(views.take(next as int) =~= views);
    }
    order
}

/// The name of `package` as the report shows it.
pub fn format_name(package: &PinnedPackage) -> (r: String)
    ensures
        r@ == display_name(package@),
{
    let mut text = package.name.clone();
    if package.extras.len() > 0 {
        let extras = join_strings(&package.extras, ",");
        text.append("[");
        text.append(extras.as_str());
        text.append("]");
    }
    text
}

/// Renders the table of `packages` before alignment: the header row `Name`,
/// `Version`, then one row per package with a tab between name and version,
/// the rows in the lexicographic order of the names, whatever order the
/// packages came in. Extras stand behind the name in brackets.
pub fn report_table(packages: &Vec<PinnedPackage>) -> (r: String)
    ensures
        r@ == table_text(package_views(packages@)),
{
    let ghost views = package_views(packages@);
    let order = name_order(packages);
    let ghost rows = rows_in_order(views, order@);
    let mut text = String::from_str("Name\tVersion\n");
    let mut k: usize = 0;
    proof {
        assert(rows.take(0) =~= Seq::<PackageView>::empty());
    }
    while k < order.len()
        invariant
            k <= order@.len(),
            views == package_views(packages@),
            rows == rows_in_order(views, order@),
            forall|i: int| 0 <= i < order@.len() ==> (#[trigger] order@[i]) < packages@.len(),
            text@ == "Name\tVersion\n"@ + rows_text(rows.take(k as int)),
        decreases order@.len() - k,
    {
        let package = &packages[order[k]];
        let name = format_name(package);
        proof {
            let grown = rows.take(k + 1);
            assert(grown.drop_last() =~= rows.take(k as int));
            assert(grown.last() == package@);
        }
        text.append(name.as_str());
        text.append("\t");
        text.append(package.version.as_str());
        text.append("\n");
        proof {
            assert(text@ =~= "Name\tVersion\n"@ + rows_text(rows.take(k + 1)));
        }
        k += 1;
    }
    proof {
        assert(rows.take(k as int) =~= rows);
    }
    text
}

/// Renders the echo of the specifiers: the heading, then each specifier on
/// a line of its own behind a dash, in the order given.
pub fn specifier_echo(specifiers: &Vec<String>) -> (r: String)
    ensures
        r@ == echo_text(views_of(specifiers@)),
{
    let ghost views = views_of(specifiers@);
    let mut text = String::from_str("Resolved environment:\n");
    let mut k: usize = 0;
    proof {
        assert(views.take(0) =~= Seq::<Seq<char>>::empty());
    }
    while k < specifiers.len()
        invariant
            k <= specifiers@.len(),
            views == views_of(specifiers@),
            text@ == "Resolved environment:\n"@ + echo_lines(views.take(k as int)),
        decreases specifiers@.len() - k,
    {
        proof {
            let grown = views.take(k + 1);
            assert(grown.drop_last() =~= views.take(k as int));
            assert(grown.last() == specifiers@[k as int]@);
        }
        text.append("- ");
        text.append(specifiers[k].as_str());
        text.append("\n");
        proof {
            assert(text@ =~= "Resolved environment:\n"@ + echo_lines(views.take(k + 1)));
        }
        k += 1;
    }
    proof {
        assert(views.take(k as int) =~= views);
    }
    text
}

/// Aligns the columns of `text` by writing it through a
/// `tabwriter::TabWriter` with its default settings into a buffer in memory,
/// and taking the buffer back with `into_inner`, which flushes. The contract
/// only names the outcome: it is a function of the text alone.
#[verifier::external_body]
pub(crate) fn align_columns(text: &str) -> (r: String)
    ensures
        r@ == tab_aligned(text@),
{
    let mut writer = tabwriter::TabWriter::new(Vec::new());
    let _ = writer.write_all(text.as_bytes());
    let bytes = writer.into_inner().unwrap_or_default();
    String::from_utf8_lossy(&bytes).into_owned()
}

/// Renders the table of `packages` with its columns aligned: the text of
/// `report_table`, as the tab writer sets it.
pub fn render_report(packages: &Vec<PinnedPackage>) -> (r: String)
    ensures
        r@ == tab_aligned(table_text(package_views(packages@))),
{
    let table = report_table(packages);
    align_columns(table.as_str())
}

} // verus!
