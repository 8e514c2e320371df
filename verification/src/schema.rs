//! Holding a table's header against the expected schema.

use crate::columns::contains_name;
use crate::columns::ColumnSet;
use vstd::prelude::*;

verus! {

/// The names of `expected` that `header` lacks, in the order of `expected`.
pub open spec fn missing_columns(header: Seq<Seq<char>>, expected: Seq<Seq<char>>) -> Seq<
    Seq<char>,
> {
    expected.filter(|name: Seq<char>| !header.contains(name))
}

/// The names of `header` that `expected` does not know, in the order of
/// `header`.
pub open spec fn unexpected_columns(header: Seq<Seq<char>>, expected: Seq<Seq<char>>) -> Seq<
    Seq<char>,
> {
    header.filter(|name: Seq<char>| !expected.contains(name))
}

/// What a header lacks and what it has beyond the expected schema. A report is
/// advice: a header with missing columns is still a header.
#[derive(Debug, PartialEq, Eq)]
pub struct ValidationReport {
    /// Expected columns that the header lacks.
    pub missing: Vec<String>,
    /// Columns of the header that are not expected.
    pub unexpected: Vec<String>,
}

impl ValidationReport {
    /// Whether the report is the one for `header` and `expected`.
    pub open spec fn describes(&self, header: Seq<Seq<char>>, expected: Seq<Seq<char>>) -> bool {
        &&& self.missing.deep_view() == missing_columns(header, expected)
        &&& self.unexpected.deep_view() == unexpected_columns(header, expected)
    }

    /// Whether every expected column was found.
    pub fn all_present(&self) -> (complete: bool)
        ensures
            complete == (self.missing@.len() == 0),
    {
        self.missing.len() == 0
    }
}

/// The names of `names` that are not among `others`, in the order of `names`.
pub fn names_absent_from(names: &Vec<String>, others: &Vec<String>) -> (absent: Vec<String>)
    ensures
        absent.deep_view() == names.deep_view().filter(
            |name: Seq<char>| !others.deep_view().contains(name),
        ),
{
    let ghost keep = |name: Seq<char>| !others.deep_view().contains(name);
    let mut absent: Vec<String> = Vec::new();
    let mut i: usize = 0;
    proof {
        assert(names.deep_view().take(0) =~= Seq::<Seq<char>>::empty());
        reveal(Seq::filter);
        assert(absent.deep_view() =~= names.deep_view().take(0).filter(keep));
    }
    while i < names.len()
        invariant
            i <= names.len(),
            keep == |name: Seq<char>| !others.deep_view().contains(name),
            absent.deep_view() == names.deep_view().take(i as int).filter(keep),
        decreases names.len() - i,
    {
        let ghost before = absent.deep_view();
        let ghost prefix = names.deep_view().take(i as int);
        let ghost name = names.deep_view()[i as int];
        proof {
            assert(names.deep_view().take(i + 1) =~= prefix.push(name));
            assert(prefix.push(name).drop_last() =~= prefix);
            reveal(Seq::filter);
            assert(prefix.push(name).filter(keep) == if keep(name) {
                prefix.filter(keep).push(name)
            } else {
                prefix.filter(keep)
            });
        }
        if !contains_name(others, &names[i]) {
            absent.push(names[i].clone());
            proof {
                assert(absent.deep_view() =~= before.push(name));
            }
        }
        i += 1;
    }
    proof {
        assert(names.deep_view().take(names.len() as int) =~= names.deep_view());
    }
    absent
}

/// Holds `header` against `expected`: which expected columns it lacks, and
/// which of its columns are not expected. An empty header lacks them all.
pub fn validate_header(header: &Vec<String>, expected: &ColumnSet) -> (report: ValidationReport)
    ensures
        report.describes(header.deep_view(), expected@),
{
    let missing = names_absent_from(expected.names(), header);
    let unexpected = names_absent_from(header, expected.names());
    ValidationReport { missing, unexpected }
}

/// A name is reported missing exactly if it is expected and the header lacks
/// it, and reported unexpected exactly if the header has it and it is not
/// expected.
pub proof fn lemma_report_membership(
    header: Seq<Seq<char>>,
    expected: Seq<Seq<char>>,
    name: Seq<char>,
)
    ensures
        missing_columns(header, expected).contains(name) <==> expected.contains(name)
            && !header.contains(name),
        unexpected_columns(header, expected).contains(name) <==> header.contains(name)
            && !expected.contains(name),
{
    lemma_filter_membership(expected, |n: Seq<char>| !header.contains(n), name);
    lemma_filter_membership(header, |n: Seq<char>| !expected.contains(n), name);
}

proof fn lemma_filter_membership(
    names: Seq<Seq<char>>,
    keep: spec_fn(Seq<char>) -> bool,
    name: Seq<char>,
)
    ensures
        names.filter(keep).contains(name) <==> names.contains(name) && keep(name),
    decreases names.len(),
{
    reveal(Seq::filter);
    if names.len() > 0 {
        let front = names.drop_last();
        lemma_filter_membership(front, keep, name);
        if names.contains(name) {
            let i = choose|i: int| 0 <= i < names.len() && names[i] == name;
            if i < names.len() - 1 {
                assert(front[i] == name);
            }
        }
        if front.contains(name) {
            let i = choose|i: int| 0 <= i < front.len() && front[i] == name;
            assert(names[i] == name);
        }
        if keep(names.last()) {
            let kept = front.filter(keep);
            assert(names.filter(keep) == kept.push(names.last()));
            assert(kept.push(names.last()).last() == names.last());
            if kept.contains(name) {
                let i = choose|i: int| 0 <= i < kept.len() && kept[i] == name;
                assert(kept.push(names.last())[i] == name);
            }
            if names.filter(keep).contains(name) {
                let i = choose|i: int|
                    0 <= i < kept.push(names.last()).len() && kept.push(names.last())[i] == name;
                if i < kept.len() {
                    assert(kept[i] == name);
                }
            }
            assert(names[names.len() - 1] == names.last());
        }
    }
}

proof fn lemma_filter_none(names: Seq<Seq<char>>, keep: spec_fn(Seq<char>) -> bool)
    requires
        forall|i: int| 0 <= i < names.len() ==> !keep(#[trigger] names[i]),
    ensures
        names.filter(keep) == Seq::<Seq<char>>::empty(),
    decreases names.len(),
{
    reveal(Seq::filter);
    if names.len() > 0 {
        let front = names.drop_last();
        assert forall|i: int| 0 <= i < front.len() implies !keep(#[trigger] front[i]) by {
            assert(front[i] == names[i]);
        }
        lemma_filter_none(front, keep);
        assert(!keep(names[names.len() - 1]));
    }
}

proof fn lemma_filter_all(names: Seq<Seq<char>>, keep: spec_fn(Seq<char>) -> bool)
    requires
        forall|i: int| 0 <= i < names.len() ==> keep(#[trigger] names[i]),
    ensures
        names.filter(keep) == names,
    decreases names.len(),
{
    reveal(Seq::filter);
    if names.len() > 0 {
        let front = names.drop_last();
        assert forall|i: int| 0 <= i < front.len() implies keep(#[trigger] front[i]) by {
            assert(front[i] == names[i]);
        }
        lemma_filter_all(front, keep);
        assert(keep(names[names.len() - 1]));
        assert(front.push(names.last()) =~= names);
    } else {
        assert(names.filter(keep) =~= names);
    }
}

/// A header that holds every expected column has none missing, whatever else
/// it holds and in whatever order.
pub proof fn lemma_complete_header_misses_nothing(
    header: Seq<Seq<char>>,
    expected: Seq<Seq<char>>,
)
    requires
        forall|i: int| 0 <= i < expected.len() ==> header.contains(#[trigger] expected[i]),
    ensures
        missing_columns(header, expected).len() == 0,
{
    lemma_filter_none(expected, |name: Seq<char>| !header.contains(name));
}

/// A header with a single column that is not expected has exactly that
/// column reported as unexpected.
pub proof fn lemma_single_extra_column(
    header: Seq<Seq<char>>,
    expected: Seq<Seq<char>>,
    extra: int,
)
    requires
        0 <= extra < header.len(),
        !expected.contains(header[extra]),
        forall|i: int|
            0 <= i < header.len() && i != extra ==> expected.contains(#[trigger] header[i]),
    ensures
        unexpected_columns(header, expected) == seq![header[extra]],
{
    let keep = |name: Seq<char>| !expected.contains(name);
    let before = header.take(extra);
    let after = header.skip(extra + 1);
    assert(header =~= before + seq![header[extra]] + after);
    lemma_filter_none(before, keep);
    lemma_filter_none(after, keep);
    lemma_filter_all(seq![header[extra]], keep);
    Seq::filter_distributes_over_add(before + seq![header[extra]], after, keep);
    Seq::filter_distributes_over_add(before, seq![header[extra]], keep);
    assert(header.filter(keep) =~= seq![header[extra]]);
}

/// An empty header lacks every expected column and has no unexpected one.
pub proof fn lemma_empty_header_misses_everything(expected: Seq<Seq<char>>)
    ensures
        missing_columns(Seq::empty(), expected) == expected,
        unexpected_columns(Seq::empty(), expected).len() == 0,
{
    let header = Seq::<Seq<char>>::empty();
    lemma_filter_all(expected, |name: Seq<char>| !header.contains(name));
    lemma_filter_none(header, |name: Seq<char>| !expected.contains(name));
}

} // verus!
