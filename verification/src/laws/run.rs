//! Laws of the course of a delete.

use vstd::prelude::*;

use crate::delete::rows::{
    change_feed, filtered, lets_through, ChangeFeed, RowFilter, ScanColumns, Strategy,
};
use crate::delete::run::{
    file_key, files_after, is_one_of, lemma_found_files_are_removed, tombstones, CandidateFiles,
    DeleteOutcome, DeleteRun, FileKey, PendingDelete, RowCounts, WrittenDelete,
};
use crate::delete::DeleteMetrics;
use crate::errors::{DeltaResult, DeltaTableError};
use crate::kernel::{Action, Remove};

verus! {

/// The number of rows of which the predicate is true.
pub open spec fn num_true(verdicts: Seq<Option<bool>>) -> nat {
    verdicts.filter(|verdict: Option<bool>| verdict == Some(true)).len()
}

/// The number of rows of which the predicate is false or unknown.
pub open spec fn num_not_true(verdicts: Seq<Option<bool>>) -> nat {
    verdicts.filter(|verdict: Option<bool>| verdict == Some(false) || verdict is None).len()
}

/// A delete starts just where the table was loaded with its files.
pub proof fn law_delete_needs_files(
    require_files: bool,
    deletion_vectors: bool,
    started: DeltaResult<PendingDelete>,
)
    requires
        call_ensures(PendingDelete::new, (require_files, deletion_vectors), started),
    ensures
        started is Ok <==> require_files,
        started matches Ok(pending) ==> pending.deletion_vectors == deletion_vectors,
        started matches Err(err) ==> err is NotInitializedWithFiles,
{
}

/// Every file that was found is carried along, nothing is counted yet, and whole files are dropped
/// just where the partition values alone have shown that they match. Otherwise rows are marked
/// just where deletion vectors were asked for.
pub proof fn law_files_found_are_carried_along(
    pending: PendingDelete,
    found: CandidateFiles,
    scan_time_ms: u64,
    run: DeleteRun,
)
    requires
        call_ensures(PendingDelete::files_found, (pending, found, scan_time_ms), run),
    ensures
        run.candidates@ == found.candidates@,
        run.strategy is DropFiles <==> found.partition_scan,
        run.strategy is MarkRows <==> !found.partition_scan && pending.deletion_vectors,
        run.strategy is RewriteFiles <==> !found.partition_scan && !pending.deletion_vectors,
        run.metrics.num_added_files == 0,
        run.metrics.num_removed_files == 0,
        run.metrics.num_deleted_rows == 0,
        run.metrics.num_copied_rows == 0,
        run.metrics.execution_time_ms == 0,
        run.metrics.rewrite_time_ms == 0,
        run.metrics.scan_time_ms == scan_time_ms,
{
}

/// The strategies: where whole files match nothing is read; otherwise the rows that are written
/// are just those of which the predicate is not true, or those that are marked just those of which
/// it is. Only the marking of rows needs the file and the number of each row.
pub proof fn law_strategies(
    deletion_vectors: bool,
    partition_scan: bool,
    strategy: Strategy,
    filter: Option<RowFilter>,
    columns: ScanColumns,
    verdict: Option<bool>,
)
    requires
        call_ensures(Strategy::select, (deletion_vectors, partition_scan), strategy),
        call_ensures(Strategy::row_filter, (strategy,), filter),
        call_ensures(Strategy::scan_columns, (strategy,), columns),
    ensures
        filter is None <==> partition_scan,
        filter matches Some(filter) ==> (lets_through(filter, verdict) <==> (verdict == Some(true)
            <==> deletion_vectors)),
        columns.file_column <==> !partition_scan && deletion_vectors,
        columns.row_number_column is Some <==> !partition_scan && deletion_vectors,
        columns.row_number_column matches Some(column) ==> column@ == "__delta_rs_row_number"@,
{
}

/// What the filters let through, for each thing that a predicate can be of a row.
pub proof fn law_filters()
    ensures
        !lets_through(RowFilter::IsNotTrue, Some(true)),
        lets_through(RowFilter::IsNotTrue, Some(false)),
        lets_through(RowFilter::IsNotTrue, None),
        lets_through(RowFilter::IsTrue, Some(true)),
        !lets_through(RowFilter::IsTrue, Some(false)),
        !lets_through(RowFilter::IsTrue, None),
        lets_through(RowFilter::Predicate, Some(true)),
        !lets_through(RowFilter::Predicate, Some(false)),
        !lets_through(RowFilter::Predicate, None),
{
}

/// The change data feed is written just where the table is known to have one, with the rows that
/// go.
pub proof fn law_change_feed<E>(
    should_write: Result<bool, E>,
    feed: Option<ChangeFeed>,
    verdict: Option<bool>,
)
    requires
        call_ensures(change_feed::<E>, (should_write,), feed),
    ensures
        feed is Some <==> (should_write matches Ok(should) && should),
        feed matches Some(feed) ==> {
            &&& lets_through(feed.filter, verdict) <==> verdict == Some(true)
            &&& feed.column@ == "_change_type"@
            &&& feed.change_type@ == "delete"@
        },
{
}

/// Every row that was read counts once: as copied where the filter let it through, and as deleted
/// otherwise. Nothing else is counted, and what was written and found is carried along.
pub proof fn law_rows_are_accounted_for(
    run: DeleteRun,
    written: Vec<Action>,
    counts: RowCounts,
    noted: DeltaResult<WrittenDelete>,
)
    requires
        call_ensures(DeleteRun::rows_written, (run, written, Some(counts)), noted),
        counts.passed matches Some(passed) ==> passed <= counts.read,
    ensures
        noted matches Ok(noted) && {
            &&& noted.metrics.num_copied_rows + noted.metrics.num_deleted_rows == counts.read
            &&& counts.passed matches Some(passed) ==> noted.metrics.num_copied_rows == passed
            &&& counts.passed is None ==> noted.metrics.num_copied_rows == 0
            &&& noted.metrics.num_added_files == run.metrics.num_added_files
            &&& noted.metrics.num_removed_files == run.metrics.num_removed_files
            &&& noted.metrics.execution_time_ms == run.metrics.execution_time_ms
            &&& noted.metrics.scan_time_ms == run.metrics.scan_time_ms
            &&& noted.metrics.rewrite_time_ms == run.metrics.rewrite_time_ms
            &&& noted.actions@ == written@
            &&& noted.candidates@ == run.candidates@
        },
{
}

/// Every count of rows is accepted of a delete that reads rows, as long as no more rows came out
/// of the filter than were read, and whole files can be dropped by every other delete.
pub proof fn law_every_count_is_accepted(
    run: DeleteRun,
    written: Vec<Action>,
    counts: Option<RowCounts>,
)
    requires
        counts matches Some(counts) ==> (counts.passed matches Some(passed) ==> passed
            <= counts.read),
    ensures
        !(run.strategy is DropFiles) ==> call_requires(
            DeleteRun::rows_written,
            (run, written, counts),
        ),
        run.strategy is DropFiles ==> call_requires(DeleteRun::files_dropped, (run,)),
{
}

/// It is an error where the rows were not counted.
pub proof fn law_rows_must_be_counted(
    run: DeleteRun,
    written: Vec<Action>,
    noted: DeltaResult<WrittenDelete>,
)
    requires
        call_ensures(DeleteRun::rows_written, (run, written, None), noted),
    ensures
        noted matches Err(DeltaTableError::Generic(message)) && message@
            == "Unable to locate expected metric node"@,
{
}

/// The metrics of a rewrite, by what the predicate is of the rows that were read: the rows deleted
/// are those of which it is true, and the rows copied all the others.
pub proof fn law_metrics_of_a_rewrite(
    run: DeleteRun,
    written: Vec<Action>,
    counts: RowCounts,
    noted: DeltaResult<WrittenDelete>,
    filter: Option<RowFilter>,
    verdicts: Seq<Option<bool>>,
)
    requires
        run.strategy is RewriteFiles,
        call_ensures(Strategy::row_filter, (run.strategy,), filter),
        call_ensures(DeleteRun::rows_written, (run, written, Some(counts)), noted),
        counts.read == verdicts.len(),
        counts.passed matches Some(passed) && passed == verdicts.filter(
            |verdict: Option<bool>| lets_through(filter->0, verdict),
        ).len(),
    ensures
        noted matches Ok(noted) && noted.metrics.num_deleted_rows == num_true(verdicts)
            && noted.metrics.num_copied_rows == num_not_true(verdicts),
{
    lemma_numbers(verdicts);
    assert(filtered(RowFilter::IsNotTrue, verdicts) == verdicts.filter(
        |verdict: Option<bool>| lets_through(filter->0, verdict),
    ));
}

/// The metrics of a delete that marks rows, by what the predicate is of the rows that were read:
/// the rows that count as copied are those of which it is true.
pub proof fn law_metrics_of_marking(
    run: DeleteRun,
    written: Vec<Action>,
    counts: RowCounts,
    noted: DeltaResult<WrittenDelete>,
    filter: Option<RowFilter>,
    verdicts: Seq<Option<bool>>,
)
    requires
        run.strategy is MarkRows,
        call_ensures(Strategy::row_filter, (run.strategy,), filter),
        call_ensures(DeleteRun::rows_written, (run, written, Some(counts)), noted),
        counts.read == verdicts.len(),
        counts.passed matches Some(passed) && passed == verdicts.filter(
            |verdict: Option<bool>| lets_through(filter->0, verdict),
        ).len(),
    ensures
        noted matches Ok(noted) && noted.metrics.num_copied_rows == num_true(verdicts)
            && noted.metrics.num_deleted_rows == num_not_true(verdicts),
{
    lemma_numbers(verdicts);
    assert(filtered(RowFilter::IsTrue, verdicts) == verdicts.filter(
        |verdict: Option<bool>| lets_through(filter->0, verdict),
    ));
}

proof fn lemma_numbers(verdicts: Seq<Option<bool>>)
    ensures
        filtered(RowFilter::IsTrue, verdicts).len() == num_true(verdicts),
        filtered(RowFilter::IsNotTrue, verdicts).len() == num_not_true(verdicts),
        num_true(verdicts) + num_not_true(verdicts) == verdicts.len(),
    decreases verdicts.len(),
{
    reveal(Seq::filter);
    if verdicts.len() > 0 {
        lemma_numbers(verdicts.drop_last());
        match verdicts.last() {
            Some(verdict) => {
                assert(verdicts.last() == Some(true) || verdicts.last() == Some(false));
            },
            None => {},
        }
    }
}

/// A delete of whole files has written nothing and counted nothing more.
pub proof fn law_dropped_files_write_nothing(run: DeleteRun, dropped: WrittenDelete)
    requires
        call_ensures(DeleteRun::files_dropped, (run,), dropped),
    ensures
        dropped.actions@.len() == 0,
        dropped.candidates@ == run.candidates@,
        dropped.metrics == run.metrics,
{
}

/// Everything that was written is committed, and comes first: what was written of the rows, and
/// right behind it every file of the change data feed, also where nothing was written of the rows.
/// Then comes one removal for each file that was found, and nothing else.
pub proof fn law_everything_written_is_committed(
    written: WrittenDelete,
    changes: Vec<Action>,
    rewrite_time_ms: u64,
    deletion_timestamp: i64,
    outcome: DeleteOutcome,
)
    requires
        call_ensures(
            WrittenDelete::finish,
            (written, changes, rewrite_time_ms, deletion_timestamp),
            outcome,
        ),
    ensures
        outcome.actions@.len() == written.actions@.len() + changes@.len()
            + written.candidates@.len(),
        forall|i: int|
            0 <= i < written.actions@.len() ==> #[trigger] outcome.actions@[i]
                == written.actions@[i],
        outcome.actions@.take(written.actions@.len() as int) == written.actions@,
        forall|i: int|
            0 <= i < changes@.len() ==> outcome.actions@[written.actions@.len() + i]
                == #[trigger] changes@[i],
        outcome.actions@.skip(written.actions@.len() as int).take(changes@.len() as int)
            == changes@,
{
}

/// Each file that was found is removed: its removal says of it all that is known, that the data
/// changes by it, and when it was removed.
pub proof fn law_found_files_are_removed(
    written: WrittenDelete,
    changes: Vec<Action>,
    rewrite_time_ms: u64,
    deletion_timestamp: i64,
    outcome: DeleteOutcome,
    i: int,
)
    requires
        call_ensures(
            WrittenDelete::finish,
            (written, changes, rewrite_time_ms, deletion_timestamp),
            outcome,
        ),
        0 <= i < written.candidates@.len(),
    ensures
        outcome.actions@[written.actions@.len() + changes@.len() + i] matches Action::Remove(remove)
            && {
            &&& remove.path@ == written.candidates@[i].path@
            &&& remove.data_change
            &&& remove.deletion_timestamp == Some(deletion_timestamp)
            &&& remove.extended_file_metadata == Some(true)
            &&& remove.partition_values == Some(written.candidates@[i].partition_values)
            &&& remove.size == Some(written.candidates@[i].size)
            &&& remove.tags is None
            &&& remove.deletion_vector == written.candidates@[i].deletion_vector
            &&& remove.base_row_id == written.candidates@[i].base_row_id
            &&& remove.default_row_commit_version
                == written.candidates@[i].default_row_commit_version
        },
{
    assert(tombstones(written.candidates@, deletion_timestamp)[i] == outcome.actions@[
        written.actions@.len() + changes@.len() + i]);
}

/// The files that count as added are the actions in front of the removals, those that count as
/// removed are the removals, and of the rest only the time of the rewrite is set.
pub proof fn law_metrics_of_an_outcome(
    written: WrittenDelete,
    changes: Vec<Action>,
    rewrite_time_ms: u64,
    deletion_timestamp: i64,
    outcome: DeleteOutcome,
)
    requires
        call_ensures(
            WrittenDelete::finish,
            (written, changes, rewrite_time_ms, deletion_timestamp),
            outcome,
        ),
    ensures
        outcome.metrics.num_removed_files == written.candidates@.len(),
        outcome.metrics.num_added_files + outcome.metrics.num_removed_files
            == outcome.actions@.len(),
        outcome.metrics.num_deleted_rows == written.metrics.num_deleted_rows,
        outcome.metrics.num_copied_rows == written.metrics.num_copied_rows,
        outcome.metrics.execution_time_ms == written.metrics.execution_time_ms,
        outcome.metrics.scan_time_ms == written.metrics.scan_time_ms,
        outcome.metrics.rewrite_time_ms == rewrite_time_ms,
{
}

/// After the commit no file that was found is left in the table. Every file that was written is
/// there, unless it is one of those that were found, and so is every other file of the table.
pub proof fn law_table_after_the_commit(
    table: Set<FileKey>,
    written: WrittenDelete,
    changes: Vec<Action>,
    rewrite_time_ms: u64,
    deletion_timestamp: i64,
    outcome: DeleteOutcome,
    key: FileKey,
)
    requires
        call_ensures(
            WrittenDelete::finish,
            (written, changes, rewrite_time_ms, deletion_timestamp),
            outcome,
        ),
    ensures
        files_after(table, outcome.actions@).contains(key) <==> files_after(
            table,
            written.actions@ + changes@,
        ).contains(key) && forall|i: int|
            0 <= i < written.candidates@.len() ==> key != (
                (#[trigger] written.candidates@[i]).path@,
                written.candidates@[i].deletion_vector,
            ),
{
    let candidates = written.candidates@;
    lemma_found_files_are_removed(
        table,
        written.actions@ + changes@,
        candidates,
        deletion_timestamp,
        key,
    );
    if is_one_of(key, candidates) {
        let i = choose|i: int|
            0 <= i < candidates.len() && file_key(#[trigger] candidates[i])
                == key;
        assert(key == (candidates[i].path@, candidates[i].deletion_vector));
    } else {
        assert forall|i: int| 0 <= i < candidates.len() implies key != (
            (#[trigger] candidates[i]).path@,
            candidates[i].deletion_vector,
        ) by {
            assert(file_key(candidates[i]) != key);
        }
    }
}

/// There is something to commit just where there is an action.
pub proof fn law_commit(outcome: &DeleteOutcome, needs: bool)
    requires
        call_ensures(DeleteOutcome::needs_commit, (outcome,), needs),
    ensures
        needs <==> exists|action: Action| outcome.actions@.contains(action),
{
    if needs {
        assert(outcome.actions@.contains(outcome.actions@[0]));
    }
}

/// The metrics of a delete start from nothing.
pub proof fn law_metrics_start_from_nothing(metrics: DeleteMetrics)
    requires
        call_ensures(<DeleteMetrics as Default>::default, (), metrics),
    ensures
        metrics.num_added_files == 0,
        metrics.num_removed_files == 0,
        metrics.num_deleted_rows == 0,
        metrics.num_copied_rows == 0,
        metrics.execution_time_ms == 0,
        metrics.scan_time_ms == 0,
        metrics.rewrite_time_ms == 0,
{
}

} // verus!
