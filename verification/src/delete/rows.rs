//! Which rows of a scan a delete keeps, marks or records.

use vstd::prelude::*;
use vstd::seq_lib::{lemma_flatten_concat, lemma_multiset_commutative};

use crate::delete::marking::ROW_NUMBER_COLUMN;

verus! {

/// How the rows of a scan are filtered by the predicate of a delete.
#[derive(Clone, Copy, Debug, PartialEq, Eq, Structural)]
pub enum RowFilter {
    /// Rows of which the predicate is not true: it is false, or it is unknown
    IsNotTrue,
    /// Rows of which the predicate is true
    IsTrue,
    /// Rows that the predicate itself, as a filter, lets through
    Predicate,
}

/// Whether a filter lets a row through, by what the predicate is of the row. A predicate can be
/// unknown, and a filter lets a row through only where it is true.
pub open spec fn lets_through(filter: RowFilter, verdict: Option<bool>) -> bool {
    match filter {
        RowFilter::IsNotTrue => verdict != Some(true),
        RowFilter::IsTrue => verdict == Some(true),
        RowFilter::Predicate => verdict == Some(true),
    }
}

/// The rows that a filter lets through.
pub open spec fn filtered(filter: RowFilter, verdicts: Seq<Option<bool>>) -> Seq<Option<bool>> {
    verdicts.filter(|verdict: Option<bool>| lets_through(filter, verdict))
}

/// How a delete goes about its work.
#[derive(Clone, Copy, Debug, PartialEq, Eq, Structural)]
pub enum Strategy {
    /// Write the rows that stay to new files
    RewriteFiles,
    /// Write nothing: whole files go
    DropFiles,
    /// Mark the rows that go in deletion vectors
    MarkRows,
}

/// The columns that a scan has besides those of the table.
#[derive(Clone, Copy, Debug)]
pub struct ScanColumns {
    /// Whether there is a column with the path of each row's data file
    pub file_column: bool,
    /// The name of the column with the number of each row in its data file, if there is one
    pub row_number_column: Option<&'static str>,
}

/// The strategy of a delete. Where a scan of the partition values has shown that whole files
/// match, there are no rows to write or to mark: the files go, whether or not deletion vectors
/// were asked for.
pub open spec fn strategy_of(deletion_vectors: bool, partition_scan: bool) -> Strategy {
    if partition_scan {
        Strategy::DropFiles
    } else if deletion_vectors {
        Strategy::MarkRows
    } else {
        Strategy::RewriteFiles
    }
}

/// How the rows that a strategy writes or marks are filtered. Where whole files go, no rows are
/// read.
pub open spec fn written_rows(strategy: Strategy) -> Option<RowFilter> {
    match strategy {
        Strategy::RewriteFiles => Some(RowFilter::IsNotTrue),
        Strategy::DropFiles => None,
        Strategy::MarkRows => Some(RowFilter::IsTrue),
    }
}

impl Strategy {
    /// Chooses the strategy of a delete.
    pub fn select(deletion_vectors: bool, partition_scan: bool) -> (strategy: Strategy)
        ensures
            strategy == strategy_of(deletion_vectors, partition_scan),
    {
        if partition_scan {
            Strategy::DropFiles
        } else if deletion_vectors {
            Strategy::MarkRows
        } else {
            Strategy::RewriteFiles
        }
    }

    /// How the rows to write or to mark are filtered, if there are any to read.
    pub fn row_filter(self) -> (filter: Option<RowFilter>)
        ensures
            filter == written_rows(self),
    {
        match self {
            Strategy::RewriteFiles => Some(RowFilter::IsNotTrue),
            Strategy::DropFiles => None,
            Strategy::MarkRows => Some(RowFilter::IsTrue),
        }
    }

    /// The columns that the scan of the rows needs.
    pub fn scan_columns(self) -> (columns: ScanColumns)
        ensures
            columns.file_column == (self == Strategy::MarkRows),
            columns.row_number_column == (if self == Strategy::MarkRows {
                Some(ROW_NUMBER_COLUMN)
            } else {
                None
            }),
    {
        match self {
            Strategy::MarkRows => ScanColumns {
                file_column: true,
                row_number_column: Some(ROW_NUMBER_COLUMN),
            },
            _ => ScanColumns { file_column: false, row_number_column: None },
        }
    }
}

/// Name of the column that tells how a row changed.
pub const CHANGE_TYPE_COLUMN: &'static str = "_change_type";

/// How a row changed that was deleted.
pub const CHANGE_TYPE_DELETE: &'static str = "delete";

/// What is written to the change data feed of a table.
#[derive(Clone, Copy, Debug)]
pub struct ChangeFeed {
    /// How the rows are filtered
    pub filter: RowFilter,
    /// Name of the column that is added to them
    pub column: &'static str,
    /// Value of that column
    pub change_type: &'static str,
}

/// What a delete writes to the change data feed: the rows that go, each of them marked as
/// deleted. Nothing is written where the table has no feed or where that cannot be told.
pub fn change_feed<E>(should_write: Result<bool, E>) -> (feed: Option<ChangeFeed>)
    ensures
        feed == (if should_write == Ok::<bool, E>(true) {
            Some(
                ChangeFeed {
                    filter: RowFilter::Predicate,
                    column: CHANGE_TYPE_COLUMN,
                    change_type: CHANGE_TYPE_DELETE,
                },
            )
        } else {
            None
        }),
{
    match should_write {
        Ok(true) => Some(
            ChangeFeed {
                filter: RowFilter::Predicate,
                column: CHANGE_TYPE_COLUMN,
                change_type: CHANGE_TYPE_DELETE,
            },
        ),
        _ => None,
    }
}

/// Every row either stays in the rewritten files or goes to the change data feed, and none does
/// both. A deletion vector marks just the rows that rewriting would drop. A row of which the
/// predicate is unknown stays.
pub proof fn lemma_every_row_stays_or_goes(verdict: Option<bool>)
    ensures
        lets_through(RowFilter::IsNotTrue, verdict) != lets_through(RowFilter::Predicate, verdict),
        lets_through(RowFilter::IsTrue, verdict) == lets_through(RowFilter::Predicate, verdict),
        verdict is None ==> lets_through(RowFilter::IsNotTrue, verdict),
{
}

/// The rows that stay and the rows that go are all the rows.
pub proof fn lemma_rows_are_split(verdicts: Seq<Option<bool>>)
    ensures
        filtered(RowFilter::IsNotTrue, verdicts).len() + filtered(
            RowFilter::IsTrue,
            verdicts,
        ).len() == verdicts.len(),
    decreases verdicts.len(),
{
    reveal(Seq::filter);
    if verdicts.len() > 0 {
        lemma_rows_are_split(verdicts.drop_last());
    }
}

/// A predicate that is true of every row leaves none. Such is the predicate of a delete that was
/// given none.
pub proof fn lemma_true_predicate_leaves_nothing(verdicts: Seq<Option<bool>>)
    requires
        forall|i: int| 0 <= i < verdicts.len() ==> #[trigger] verdicts[i] == Some(true),
    ensures
        filtered(RowFilter::IsNotTrue, verdicts).len() == 0,
        filtered(RowFilter::Predicate, verdicts) == verdicts,
    decreases verdicts.len(),
{
    reveal(Seq::filter);
    if verdicts.len() > 0 {
        let shorter = verdicts.drop_last();
        assert forall|i: int| 0 <= i < shorter.len() implies #[trigger] shorter[i] == Some(true) by {
            assert(verdicts[i] == Some(true));
        }
        lemma_true_predicate_leaves_nothing(shorter);
        assert(verdicts[verdicts.len() - 1] == Some(true));
        assert(shorter.push(verdicts.last()) =~= verdicts);
    }
}

/// The rows that stay are those that stay when the same predicate is applied once more, and none
/// of them goes.
pub proof fn lemma_rows_that_stay_stay(verdicts: Seq<Option<bool>>)
    ensures
        filtered(RowFilter::IsNotTrue, filtered(RowFilter::IsNotTrue, verdicts)) == filtered(
            RowFilter::IsNotTrue,
            verdicts,
        ),
        filtered(RowFilter::IsTrue, filtered(RowFilter::IsNotTrue, verdicts)).len() == 0,
        filtered(RowFilter::Predicate, filtered(RowFilter::IsNotTrue, verdicts)).len() == 0,
    decreases verdicts.len(),
{
    reveal(Seq::filter);
    if verdicts.len() > 0 {
        let shorter = verdicts.drop_last();
        lemma_rows_that_stay_stay(shorter);
        if lets_through(RowFilter::IsNotTrue, verdicts.last()) {
            let kept = filtered(RowFilter::IsNotTrue, shorter);
            assert(kept.push(verdicts.last()).drop_last() =~= kept);
        }
    }
}

/// The files, each by what the predicate is of its rows, in which some row goes.
pub open spec fn matching_files(files: Seq<Seq<Option<bool>>>) -> Seq<Seq<Option<bool>>> {
    files.filter(|verdicts: Seq<Option<bool>>| filtered(RowFilter::IsTrue, verdicts).len() > 0)
}

/// The files in which every row stays.
pub open spec fn other_files(files: Seq<Seq<Option<bool>>>) -> Seq<Seq<Option<bool>>> {
    files.filter(|verdicts: Seq<Option<bool>>| filtered(RowFilter::IsTrue, verdicts).len() == 0)
}

/// Whether new files hold just the rows that stay of the files in which some row goes, in any
/// order.
pub open spec fn are_rewritten(
    rewritten: Seq<Seq<Option<bool>>>,
    files: Seq<Seq<Option<bool>>>,
) -> bool {
    rewritten.flatten().to_multiset() == filtered(
        RowFilter::IsNotTrue,
        matching_files(files).flatten(),
    ).to_multiset()
}

/// Once files are rewritten, the same predicate is true of no row that is left: there is no file
/// in which some row goes.
pub proof fn lemma_nothing_matches_after_rewrite(
    files: Seq<Seq<Option<bool>>>,
    rewritten: Seq<Seq<Option<bool>>>,
)
    requires
        are_rewritten(rewritten, files),
    ensures
        matching_files(other_files(files) + rewritten).len() == 0,
{
    broadcast use vstd::seq_lib::group_filter_ensures;

    let kept = filtered(RowFilter::IsNotTrue, matching_files(files).flatten());
    let after = other_files(files) + rewritten;
    let matches = |verdicts: Seq<Option<bool>>| filtered(RowFilter::IsTrue, verdicts).len() > 0;
    if matching_files(after).len() > 0 {
        let found = after.filter(matches)[0];
        assert(after.filter(matches).contains(found));
        after.lemma_filter_contains_rev(matches, found);
        let k = after.index_of(found);
        if k < other_files(files).len() {
            assert(other_files(files)[k] == found);
            assert(other_files(files).contains(found));
        } else {
            let i = k - other_files(files).len();
            assert(rewritten[i] == found);
            let row = filtered(RowFilter::IsTrue, found)[0];
            assert(filtered(RowFilter::IsTrue, found).contains(row));
            found.lemma_filter_contains_rev(
                |verdict: Option<bool>| lets_through(RowFilter::IsTrue, verdict),
                row,
            );
            lemma_flatten_contains(rewritten, i, row);
            rewritten.flatten().to_multiset_ensures();
            kept.to_multiset_ensures();
            assert(kept.to_multiset().count(row) > 0);
            assert(kept.contains(row));
            assert(lets_through(RowFilter::IsNotTrue, row));
        }
    }
}

/// Once files are rewritten, the rows of the table are just those of which the predicate is not
/// true.
pub proof fn lemma_rows_after_rewrite(
    files: Seq<Seq<Option<bool>>>,
    rewritten: Seq<Seq<Option<bool>>>,
)
    requires
        are_rewritten(rewritten, files),
    ensures
        (other_files(files) + rewritten).flatten().to_multiset() == filtered(
            RowFilter::IsNotTrue,
            files.flatten(),
        ).to_multiset(),
{
    let others = other_files(files).flatten();
    lemma_flatten_concat(other_files(files), rewritten);
    lemma_multiset_commutative(others, rewritten.flatten());
    lemma_rows_by_file(files);
}

/// The rows that stay are all those of the files in which every row stays, and some of the others.
proof fn lemma_rows_by_file(files: Seq<Seq<Option<bool>>>)
    ensures
        filtered(RowFilter::IsNotTrue, files.flatten()).to_multiset() == other_files(
            files,
        ).flatten().to_multiset().add(
            filtered(RowFilter::IsNotTrue, matching_files(files).flatten()).to_multiset(),
        ),
    decreases files.len(),
{
    let stays = |verdict: Option<bool>| lets_through(RowFilter::IsNotTrue, verdict);
    if files.len() == 0 {
        reveal(Seq::filter);
        let none = Seq::<Option<bool>>::empty();
        assert(files.flatten() =~= none);
        assert(other_files(files).flatten() =~= none);
        assert(matching_files(files).flatten() =~= none);
        lemma_multiset_commutative(none, none);
        assert(none + none =~= none);
    } else {
        let shorter = files.drop_last();
        let last = files.last();
        let others = other_files(shorter);
        let matching = matching_files(shorter);
        lemma_rows_by_file(shorter);
        assert(files =~= shorter.push(last));
        shorter.lemma_flatten_push(last);
        Seq::filter_distributes_over_add(shorter.flatten(), last, stays);
        let kept = shorter.flatten().filter(stays);
        lemma_multiset_commutative(kept, last.filter(stays));
        if filtered(RowFilter::IsTrue, last).len() == 0 {
            assert(other_files(files) == others.push(last)) by {
                reveal(Seq::filter);
            }
            assert(matching_files(files) == matching) by {
                reveal(Seq::filter);
            }
            others.lemma_flatten_push(last);
            lemma_multiset_commutative(others.flatten(), last);
            lemma_all_rows_stay(last);
        } else {
            assert(other_files(files) == others) by {
                reveal(Seq::filter);
            }
            assert(matching_files(files) == matching.push(last)) by {
                reveal(Seq::filter);
            }
            matching.lemma_flatten_push(last);
            Seq::filter_distributes_over_add(matching.flatten(), last, stays);
            lemma_multiset_commutative(matching.flatten().filter(stays), last.filter(stays));
        }
        assert(filtered(RowFilter::IsNotTrue, files.flatten()).to_multiset() =~= other_files(
            files,
        ).flatten().to_multiset().add(
            filtered(RowFilter::IsNotTrue, matching_files(files).flatten()).to_multiset(),
        ));
    }
}

/// Where no row goes every row stays.
proof fn lemma_all_rows_stay(verdicts: Seq<Option<bool>>)
    requires
        filtered(RowFilter::IsTrue, verdicts).len() == 0,
    ensures
        filtered(RowFilter::IsNotTrue, verdicts) == verdicts,
    decreases verdicts.len(),
{
    reveal(Seq::filter);
    if verdicts.len() > 0 {
        lemma_all_rows_stay(verdicts.drop_last());
        assert(verdicts.drop_last().push(verdicts.last()) =~= verdicts);
    }
}

/// What stands in one of several sequences stands in all of them in a row.
proof fn lemma_flatten_contains(files: Seq<Seq<Option<bool>>>, i: int, row: Option<bool>)
    requires
        0 <= i < files.len(),
        files[i].contains(row),
    ensures
        files.flatten().contains(row),
    decreases files.len(),
{
    let rest = files.drop_first();
    if i == 0 {
        let k = files[0].index_of(row);
        assert(files.flatten()[k] == row);
    } else {
        assert(rest[i - 1] == files[i]);
        lemma_flatten_contains(rest, i - 1, row);
        let k = rest.flatten().index_of(row);
        assert(files.flatten()[files[0].len() + k] == row);
    }
}

} // verus!
