//! The course of a delete: what was found, what was written, and what is to be committed.

use vstd::prelude::*;

use crate::delete::rows::{
    are_rewritten, filtered, lemma_nothing_matches_after_rewrite, lemma_rows_are_split,
    matching_files, other_files, strategy_of, written_rows, RowFilter, Strategy,
};
use crate::delete::DeleteMetrics;
use crate::errors::{DeltaResult, DeltaTableError};
use crate::kernel::{Action, Add, DeletionVectorDescriptor, Remove};

verus! {

/// Name of the node of a plan that counts the rows which a scan reads.
pub const SOURCE_COUNT_ID: &'static str = "delete_source_count";

/// Name of the metric with the number of those rows.
pub const SOURCE_COUNT_METRIC: &'static str = "num_source_rows";

/// Whether a node of a plan, by its name, is the one that counts the rows which a scan reads.
pub fn counts_source_rows(id: &String) -> (counts: bool)
    ensures
        counts == (id@ == SOURCE_COUNT_ID@),
{
    *id == SOURCE_COUNT_ID.to_owned()
}

/// The data files with rows that may have to go.
pub struct CandidateFiles {
    /// The files
    pub candidates: Vec<Add>,
    /// Whether the values of the partition columns alone have shown that the files match
    pub partition_scan: bool,
}

/// How many rows a scan has read and how many its filter has let through.
#[derive(Clone, Copy, Debug, PartialEq, Eq, Structural)]
pub struct RowCounts {
    /// Rows that were read
    pub read: usize,
    /// Rows that came out of the filter, where that was counted
    pub passed: Option<usize>,
}

impl RowCounts {
    /// Rows that came out of the filter, none where that was not counted.
    pub open spec fn num_passed(self) -> usize {
        match self.passed {
            Some(passed) => passed,
            None => 0,
        }
    }
}

/// A delete that is yet to find its data files.
pub struct PendingDelete {
    /// Whether it writes deletion vectors
    pub deletion_vectors: bool,
}

/// A delete that has found its data files.
pub struct DeleteRun {
    /// How it goes about its work
    pub strategy: Strategy,
    /// The data files that it removes
    pub candidates: Vec<Add>,
    /// What it has counted so far
    pub metrics: DeleteMetrics,
}

/// A delete that has written or marked its rows.
pub struct WrittenDelete {
    /// The data files that it removes
    pub candidates: Vec<Add>,
    /// What it has written
    pub actions: Vec<Action>,
    /// What it has counted so far
    pub metrics: DeleteMetrics,
}

/// The metrics of a delete with the rows counted: a row that the filter let through counts as
/// copied and every other row that was read as deleted.
pub open spec fn with_rows_counted(metrics: DeleteMetrics, counts: RowCounts) -> DeleteMetrics {
    DeleteMetrics {
        num_copied_rows: counts.num_passed(),
        num_deleted_rows: (counts.read - counts.num_passed()) as usize,
        ..metrics
    }
}

/// What a delete leads to.
pub struct DeleteOutcome {
    /// What is to be committed
    pub actions: Vec<Action>,
    /// What was counted
    pub metrics: DeleteMetrics,
}

/// The removal of a data file of which no row is left, or all that are left were written
/// elsewhere.
pub open spec fn tombstone(add: Add, deletion_timestamp: i64) -> Action {
    Action::Remove(
        Remove {
            path: add.path,
            data_change: true,
            deletion_timestamp: Some(deletion_timestamp),
            extended_file_metadata: Some(true),
            partition_values: Some(add.partition_values),
            size: Some(add.size),
            tags: None,
            deletion_vector: add.deletion_vector,
            base_row_id: add.base_row_id,
            default_row_commit_version: add.default_row_commit_version,
        },
    )
}

/// The removals of several data files.
pub open spec fn tombstones(candidates: Seq<Add>, deletion_timestamp: i64) -> Seq<Action> {
    candidates.map_values(|add: Add| tombstone(add, deletion_timestamp))
}

/// Whether a delete leads to an outcome. It commits what it has written of the rows, then what it
/// has written to the change data feed, and then the removal of every data file that it has found.
/// Its metrics count the files that were written and those that were found.
pub open spec fn is_outcome_of(
    outcome: DeleteOutcome,
    written: WrittenDelete,
    changes: Seq<Action>,
    rewrite_time_ms: u64,
    deletion_timestamp: i64,
) -> bool {
    &&& outcome.actions@ == written.actions@ + changes + tombstones(
        written.candidates@,
        deletion_timestamp,
    )
    &&& outcome.metrics.num_removed_files == written.candidates@.len()
    &&& outcome.metrics.num_added_files == written.actions@.len() + changes.len()
    &&& outcome.metrics == (DeleteMetrics {
        rewrite_time_ms,
        num_removed_files: outcome.metrics.num_removed_files,
        num_added_files: outcome.metrics.num_added_files,
        ..written.metrics
    })
}

impl PendingDelete {
    /// Starts a delete, for which the table must have been loaded with its files.
    pub fn new(require_files: bool, deletion_vectors: bool) -> (started: DeltaResult<PendingDelete>)
        ensures
            match started {
                Ok(pending) => require_files && pending.deletion_vectors == deletion_vectors,
                Err(err) => {
                    &&& !require_files
                    &&& err matches DeltaTableError::NotInitializedWithFiles(operation)
                    &&& operation@ == "DELETE"@
                },
            },
    {
        if !require_files {
            return Err(DeltaTableError::NotInitializedWithFiles("DELETE".to_owned()));
        }
        Ok(PendingDelete { deletion_vectors })
    }

    /// Goes on with the data files that were found. No deletion vector is written where whole files
    /// go.
    pub fn files_found(self, found: CandidateFiles, scan_time_ms: u64) -> (run: DeleteRun)
        ensures
            run.strategy == strategy_of(self.deletion_vectors, found.partition_scan),
            run.candidates == found.candidates,
            run.metrics == (DeleteMetrics {
                num_added_files: 0,
                num_removed_files: 0,
                num_deleted_rows: 0,
                num_copied_rows: 0,
                execution_time_ms: 0,
                scan_time_ms,
                rewrite_time_ms: 0,
            }),
    {
        let mut metrics = DeleteMetrics::default();
        metrics.scan_time_ms = scan_time_ms;
        DeleteRun {
            strategy: Strategy::select(self.deletion_vectors, found.partition_scan),
            candidates: found.candidates,
            metrics,
        }
    }
}

impl DeleteRun {
    /// Goes on with what was written of the filtered rows, and with their number. A row that the
    /// filter let through counts as copied and every other row that was read as deleted. It is
    /// an error where the rows were not counted.
    pub fn rows_written(self, written: Vec<Action>, counts: Option<RowCounts>) -> (noted:
        DeltaResult<WrittenDelete>)
        requires
            written_rows(self.strategy) is Some,
            counts matches Some(counts) ==> counts.num_passed() <= counts.read,
        ensures
            match counts {
                Some(counts) => {
                    &&& noted matches Ok(noted)
                    &&& noted.candidates == self.candidates
                    &&& noted.actions == written
                    &&& noted.metrics == with_rows_counted(self.metrics, counts)
                },
                None => {
                    &&& noted matches Err(DeltaTableError::Generic(message))
                    &&& message@ == "Unable to locate expected metric node"@
                },
            },
    {
        match counts {
            Some(counts) => {
                let passed: usize = counts.passed.unwrap_or(0);
                let mut metrics = self.metrics;
                metrics.num_copied_rows = passed;
                metrics.num_deleted_rows = counts.read - passed;
                Ok(WrittenDelete { candidates: self.candidates, actions: written, metrics })
            },
            None => Err(
                DeltaTableError::Generic("Unable to locate expected metric node".to_owned()),
            ),
        }
    }

    /// Goes on where whole files go and no row is written.
    pub fn files_dropped(self) -> (dropped: WrittenDelete)
        requires
            written_rows(self.strategy) is None,
        ensures
            dropped.candidates == self.candidates,
            dropped.actions@ == Seq::<Action>::empty(),
            dropped.metrics == self.metrics,
    {
        WrittenDelete {
            candidates: self.candidates,
            actions: Vec::new(),
            metrics: self.metrics,
        }
    }
}

impl WrittenDelete {
    /// Ends with what is to be committed: what was written of the rows, then what was written to
    /// the change data feed, and then the removal of every data file that was found.
    pub fn finish(
        self,
        changes: Vec<Action>,
        rewrite_time_ms: u64,
        deletion_timestamp: i64,
    ) -> (outcome: DeleteOutcome)
        ensures
            is_outcome_of(outcome, self, changes@, rewrite_time_ms, deletion_timestamp),
    {
        let mut actions = self.actions;
        let mut changes = changes;
        actions.append(&mut changes);
        let mut metrics = self.metrics;
        metrics.rewrite_time_ms = rewrite_time_ms;
        metrics.num_removed_files = self.candidates.len();
        metrics.num_added_files = actions.len();
        let ghost before = actions@;
        let ghost all = self.candidates@;
        let ghost removals = tombstones(all, deletion_timestamp);
        assert(removals.take(0) =~= Seq::empty());
        for add in iter: self.candidates
            invariant
                iter.seq() == all,
                removals == tombstones(all, deletion_timestamp),
                actions@ == before + removals.take(iter.index()),
        {
            let ghost i = iter.index();
            assert(removals.take(i + 1) =~= removals.take(i).push(removals[i]));
            assert(removals[i] == tombstone(add, deletion_timestamp));
            actions.push(
                Action::Remove(
                    Remove {
                        path: add.path,
                        deletion_timestamp: Some(deletion_timestamp),
                        data_change: true,
                        extended_file_metadata: Some(true),
                        partition_values: Some(add.partition_values),
                        size: Some(add.size),
                        deletion_vector: add.deletion_vector,
                        tags: None,
                        base_row_id: add.base_row_id,
                        default_row_commit_version: add.default_row_commit_version,
                    },
                ),
            );
        }
        assert(removals.take(removals.len() as int) =~= removals);
        DeleteOutcome { actions, metrics }
    }
}

impl DeleteOutcome {
    /// Whether there is anything to commit. No commit is made of a delete that changes nothing.
    pub fn needs_commit(&self) -> (needs: bool)
        ensures
            needs == (self.actions@.len() > 0),
    {
        self.actions.len() > 0
    }
}

/// The row metrics of a delete that rewrites files say what their names say: the rows copied are
/// those that stay, and the rows deleted are those of which the predicate is true.
pub proof fn lemma_rewrite_metrics(verdicts: Seq<Option<bool>>, counts: RowCounts)
    requires
        counts.read == verdicts.len(),
        counts.num_passed() == filtered(
            written_rows(Strategy::RewriteFiles)->0,
            verdicts,
        ).len(),
    ensures
        counts.num_passed() == filtered(RowFilter::IsNotTrue, verdicts).len(),
        counts.read - counts.num_passed() == filtered(RowFilter::IsTrue, verdicts).len(),
{
    lemma_rows_are_split(verdicts);
}

/// The row metrics of a delete that marks rows are the other way round: the rows that count as
/// copied are those that it marks, and the rows that count as deleted are those that stay.
pub proof fn lemma_mark_metrics(verdicts: Seq<Option<bool>>, counts: RowCounts)
    requires
        counts.read == verdicts.len(),
        counts.num_passed() == filtered(written_rows(Strategy::MarkRows)->0, verdicts).len(),
    ensures
        counts.num_passed() == filtered(RowFilter::IsTrue, verdicts).len(),
        counts.read - counts.num_passed() == filtered(RowFilter::IsNotTrue, verdicts).len(),
{
    lemma_rows_are_split(verdicts);
}

/// A delete that finds no data file and writes nothing has nothing to commit, and every other one
/// has.
pub proof fn lemma_commit_needed(
    written: Seq<Action>,
    changes: Seq<Action>,
    candidates: Seq<Add>,
    deletion_timestamp: i64,
)
    ensures
        (written + changes + tombstones(candidates, deletion_timestamp)).len() == 0
            <==> written.len() == 0 && changes.len() == 0 && candidates.len() == 0,
{
}

/// A second delete by the same predicate changes nothing. The first one has rewritten the files in
/// which some row goes. So the second one, which looks for such files, finds none and reads no row.
/// As nothing is written where there are no rows, it has nothing to commit, and it counts nothing.
///
/// Three things are assumed of the scan and of the writers of files, which are not part of this
/// crate: the new files hold the rows that the filter let through, the files that are found are
/// those in which some row goes, and no file is written for no row.
///
/// `files` and `rewritten` are files by what the predicate is of their rows: those of the table
/// before the first delete, and those that it wrote. `table` are the data files that the second
/// one starts from.
pub proof fn lemma_second_delete_changes_nothing(
    files: Seq<Seq<Option<bool>>>,
    rewritten: Seq<Seq<Option<bool>>>,
    run: DeleteRun,
    counts: RowCounts,
    written: WrittenDelete,
    changes: Seq<Action>,
    outcome: DeleteOutcome,
    rewrite_time_ms: u64,
    deletion_timestamp: i64,
    table: Set<FileKey>,
)
    requires
        are_rewritten(rewritten, files),
        ({
            let found = matching_files(other_files(files) + rewritten);
            &&& run.candidates@.len() == found.len()
            &&& counts.read == found.flatten().len()
            &&& found.flatten().len() == 0 ==> written.actions@.len() == 0 && changes.len() == 0
        }),
        counts.num_passed() <= counts.read,
        run.metrics.num_deleted_rows == 0,
        run.metrics.num_copied_rows == 0,
        written.candidates == run.candidates,
        written.metrics == (if written_rows(run.strategy) is Some {
            with_rows_counted(run.metrics, counts)
        } else {
            run.metrics
        }),
        is_outcome_of(outcome, written, changes, rewrite_time_ms, deletion_timestamp),
    ensures
        outcome.actions@.len() == 0,
        files_after(table, outcome.actions@) == table,
        outcome.metrics.num_added_files == 0,
        outcome.metrics.num_removed_files == 0,
        outcome.metrics.num_deleted_rows == 0,
        outcome.metrics.num_copied_rows == 0,
{
    lemma_nothing_matches_after_rewrite(files, rewritten);
    lemma_commit_needed(written.actions@, changes, written.candidates@, deletion_timestamp);
}

/// What a data file of a table is known by: its path and its deletion vector.
pub type FileKey = (Seq<char>, Option<DeletionVectorDescriptor>);

/// The data files of a table after a commit.
pub open spec fn files_after(files: Set<FileKey>, actions: Seq<Action>) -> Set<FileKey>
    decreases actions.len(),
{
    if actions.len() == 0 {
        files
    } else {
        let before = files_after(files, actions.drop_last());
        match actions.last() {
            Action::Add(add) => before.insert(file_key(add)),
            Action::Remove(remove) => before.remove((remove.path@, remove.deletion_vector)),
            Action::Cdc(_) => before,
        }
    }
}

/// What the data file of an entry is known by.
pub open spec fn file_key(add: Add) -> FileKey {
    (add.path@, add.deletion_vector)
}

/// Whether a data file is among several.
pub open spec fn is_one_of(key: FileKey, candidates: Seq<Add>) -> bool {
    exists|i: int| 0 <= i < candidates.len() && file_key(#[trigger] candidates[i]) == key
}

/// After the commit of a delete none of the data files that it has found is left, and every other
/// one is there as it is without the removals.
pub proof fn lemma_found_files_are_removed(
    files: Set<FileKey>,
    actions: Seq<Action>,
    candidates: Seq<Add>,
    deletion_timestamp: i64,
    key: FileKey,
)
    ensures
        files_after(files, actions + tombstones(candidates, deletion_timestamp)).contains(key)
            <==> files_after(files, actions).contains(key) && !is_one_of(key, candidates),
    decreases candidates.len(),
{
    let all = actions + tombstones(candidates, deletion_timestamp);
    if candidates.len() == 0 {
        assert(all =~= actions);
    } else {
        let shorter = candidates.drop_last();
        lemma_found_files_are_removed(files, actions, shorter, deletion_timestamp, key);
        assert(all.drop_last() =~= actions + tombstones(shorter, deletion_timestamp));
        assert(all.last() == tombstone(candidates.last(), deletion_timestamp));
        if is_one_of(key, shorter) {
            let i = choose|i: int| 0 <= i < shorter.len() && file_key(#[trigger] shorter[i]) == key;
            assert(candidates[i] == shorter[i]);
        }
        if is_one_of(key, candidates) {
            let i = choose|i: int|
                0 <= i < candidates.len() && file_key(#[trigger] candidates[i]) == key;
            if i < shorter.len() {
                assert(shorter[i] == candidates[i]);
            }
        }
        assert(candidates[candidates.len() - 1] == candidates.last());
    }
}

/// Files with changes are no data files.
pub proof fn lemma_changes_add_no_files(files: Set<FileKey>, changes: Seq<Action>)
    requires
        forall|i: int| 0 <= i < changes.len() ==> #[trigger] changes[i] is Cdc,
    ensures
        files_after(files, changes) == files,
    decreases changes.len(),
{
    if changes.len() > 0 {
        let shorter = changes.drop_last();
        assert forall|i: int| 0 <= i < shorter.len() implies #[trigger] shorter[i] is Cdc by {
            assert(changes[i] is Cdc);
        }
        lemma_changes_add_no_files(files, shorter);
        assert(changes[changes.len() - 1] is Cdc);
    }
}

/// A delete of all records, for which every data file of the table is found by its partition,
/// leaves the table without data files, whether or not deletion vectors were asked for.
pub proof fn lemma_all_records_go(
    files: Set<FileKey>,
    deletion_vectors: bool,
    run: DeleteRun,
    written: WrittenDelete,
    changes: Seq<Action>,
    outcome: DeleteOutcome,
    rewrite_time_ms: u64,
    deletion_timestamp: i64,
)
    requires
        run.strategy == strategy_of(deletion_vectors, true),
        forall|key: FileKey| #[trigger] files.contains(key) ==> is_one_of(key, run.candidates@),
        written_rows(run.strategy) is None ==> written.actions@ == Seq::<Action>::empty(),
        written.candidates == run.candidates,
        forall|i: int| 0 <= i < changes.len() ==> #[trigger] changes[i] is Cdc,
        is_outcome_of(outcome, written, changes, rewrite_time_ms, deletion_timestamp),
    ensures
        files_after(files, outcome.actions@) == Set::<FileKey>::empty(),
{
    assert(written.actions@ + changes =~= changes);
    lemma_changes_add_no_files(files, changes);
    assert forall|key: FileKey| !files_after(files, outcome.actions@).contains(key) by {
        lemma_found_files_are_removed(
            files,
            changes,
            run.candidates@,
            deletion_timestamp,
            key,
        );
    }
    assert(files_after(files, outcome.actions@) =~= Set::<FileKey>::empty());
}

/// A second delete of all records changes nothing: after the first one the table has no data files,
/// so none of its files can be found. Of the scan it is assumed that it finds files of the table,
/// and of the writer of the change data feed that it writes nothing where no file was found.
pub proof fn lemma_second_delete_of_all_records(
    files: Set<FileKey>,
    first: Seq<Action>,
    deletion_vectors: bool,
    run: DeleteRun,
    written: WrittenDelete,
    changes: Seq<Action>,
    outcome: DeleteOutcome,
    rewrite_time_ms: u64,
    deletion_timestamp: i64,
)
    requires
        files_after(files, first) == Set::<FileKey>::empty(),
        forall|i: int|
            0 <= i < run.candidates@.len() ==> files_after(files, first).contains(
                file_key(#[trigger] run.candidates@[i]),
            ),
        run.candidates@.len() == 0 ==> changes.len() == 0,
        run.strategy == strategy_of(deletion_vectors, true),
        run.metrics.num_deleted_rows == 0,
        run.metrics.num_copied_rows == 0,
        written_rows(run.strategy) is None ==> written.actions@ == Seq::<Action>::empty()
            && written.metrics == run.metrics,
        written.candidates == run.candidates,
        is_outcome_of(outcome, written, changes, rewrite_time_ms, deletion_timestamp),
    ensures
        outcome.actions@.len() == 0,
        files_after(files_after(files, first), outcome.actions@) == files_after(files, first),
        outcome.metrics.num_added_files == 0,
        outcome.metrics.num_removed_files == 0,
        outcome.metrics.num_deleted_rows == 0,
        outcome.metrics.num_copied_rows == 0,
{
    if run.candidates@.len() > 0 {
        assert(files_after(files, first).contains(file_key(run.candidates@[0])));
    }
    lemma_commit_needed(written.actions@, changes, written.candidates@, deletion_timestamp);
}

} // verus!
