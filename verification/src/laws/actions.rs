//! Laws of what the log says of deletion vectors.

use vstd::hash_map::StringHashMap;
use vstd::prelude::*;

use crate::delete::run::{files_after, DeleteOutcome, FileKey, WrittenDelete};
use crate::delete::vector_file::{actions_of_marked_files, deletion_vector_actions};
use crate::kernel::{Action, Add, DeletionVectorDescriptor};
use crate::laws::run::law_table_after_the_commit;

verus! {

/// The number of files that have a descriptor.
pub open spec fn num_described(
    files: Seq<Add>,
    descriptors: Map<Seq<char>, DeletionVectorDescriptor>,
) -> int {
    files.filter(|add: Add| descriptors.contains_key(add.path@)).len() as int
}

/// A data file that has a descriptor is removed and, right behind, added again. It is added with
/// the descriptor as its deletion vector, whatever vector it had, and otherwise as it was. The
/// files come in their order.
pub proof fn law_marked_file_gets_its_vector(
    files: Vec<Add>,
    descriptors: &StringHashMap<DeletionVectorDescriptor>,
    actions: Vec<Action>,
    i: int,
)
    requires
        call_ensures(deletion_vector_actions, (files, descriptors), actions),
        0 <= i < files@.len(),
        descriptors@.contains_key(files@[i].path@),
    ensures
        2 * num_described(files@.take(i), descriptors@) + 1 < actions@.len(),
        actions@[2 * num_described(files@.take(i), descriptors@)] matches Action::Remove(
            remove,
        ) && {
            &&& remove.path@ == files@[i].path@
            &&& remove.data_change
            &&& remove.deletion_timestamp is None
            &&& remove.extended_file_metadata is None
            &&& remove.partition_values is None
            &&& remove.size is None
            &&& remove.tags is None
            &&& remove.deletion_vector is None
            &&& remove.base_row_id is None
            &&& remove.default_row_commit_version is None
        },
        actions@[2 * num_described(files@.take(i), descriptors@) + 1] matches Action::Add(add) && {
            &&& add.path@ == files@[i].path@
            &&& add.deletion_vector == Some(descriptors@[files@[i].path@])
            &&& add.partition_values == files@[i].partition_values
            &&& add.size == files@[i].size
            &&& add.modification_time == files@[i].modification_time
            &&& add.data_change == files@[i].data_change
            &&& add.stats == files@[i].stats
            &&& add.tags == files@[i].tags
            &&& add.base_row_id == files@[i].base_row_id
            &&& add.default_row_commit_version == files@[i].default_row_commit_version
            &&& add.clustering_provider == files@[i].clustering_provider
        },
{
    let described = descriptors@;
    let shorter = files@.take(i);
    let longer = files@.take(i + 1);
    assert(longer.drop_last() =~= shorter);
    assert(longer.last() == files@[i]);
    lemma_number_of_actions(shorter, described);
    lemma_actions_are_kept(files@, described, i + 1);
    let k = actions_of_marked_files(shorter, described).len() as int;
    let upto = actions_of_marked_files(longer, described);
    assert(actions@[k] == upto[k]);
    assert(actions@[k + 1] == upto[k + 1]);
}

/// There are two actions for each file that has a descriptor, and none for any other file.
pub proof fn law_other_files_are_left_alone(
    files: Vec<Add>,
    descriptors: &StringHashMap<DeletionVectorDescriptor>,
    actions: Vec<Action>,
)
    requires
        call_ensures(deletion_vector_actions, (files, descriptors), actions),
    ensures
        actions@.len() == 2 * num_described(files@, descriptors@),
{
    lemma_number_of_actions(files@, descriptors@);
}

/// After the commit of the actions every file that has a descriptor is in the table with the
/// vector that the descriptor speaks of.
pub proof fn law_marked_file_is_in_the_table(
    table: Set<FileKey>,
    files: Vec<Add>,
    descriptors: &StringHashMap<DeletionVectorDescriptor>,
    actions: Vec<Action>,
    i: int,
)
    requires
        call_ensures(deletion_vector_actions, (files, descriptors), actions),
        0 <= i < files@.len(),
        descriptors@.contains_key(files@[i].path@),
    ensures
        files_after(table, actions@).contains(
            (files@[i].path@, Some(descriptors@[files@[i].path@])),
        ),
{
    let described = descriptors@;
    lemma_table_after(table, files@, described, i);
}

/// From end to end: after the commit of a delete that has marked rows, each of their data files is
/// in the table with the vector of this delete, unless it was found with that very vector, and no
/// longer as it was found.
pub proof fn law_marked_file_survives_the_commit(
    table: Set<FileKey>,
    files: Vec<Add>,
    descriptors: &StringHashMap<DeletionVectorDescriptor>,
    actions: Vec<Action>,
    written: WrittenDelete,
    changes: Vec<Action>,
    rewrite_time_ms: u64,
    deletion_timestamp: i64,
    outcome: DeleteOutcome,
    i: int,
)
    requires
        call_ensures(deletion_vector_actions, (files, descriptors), actions),
        written.actions == actions,
        forall|k: int| 0 <= k < changes@.len() ==> #[trigger] changes@[k] is Cdc,
        call_ensures(
            WrittenDelete::finish,
            (written, changes, rewrite_time_ms, deletion_timestamp),
            outcome,
        ),
        0 <= i < files@.len(),
        descriptors@.contains_key(files@[i].path@),
    ensures
        (forall|k: int|
            0 <= k < written.candidates@.len() ==> (
                (#[trigger] written.candidates@[k]).path@,
                written.candidates@[k].deletion_vector,
            ) != (files@[i].path@, Some(descriptors@[files@[i].path@]))) ==> files_after(
            table,
            outcome.actions@,
        ).contains((files@[i].path@, Some(descriptors@[files@[i].path@]))),
        forall|k: int|
            0 <= k < written.candidates@.len() ==> !files_after(table, outcome.actions@).contains(
                (
                    (#[trigger] written.candidates@[k]).path@,
                    written.candidates@[k].deletion_vector,
                ),
            ),
{
    let key = (files@[i].path@, Some(descriptors@[files@[i].path@]));
    law_marked_file_is_in_the_table(table, files, descriptors, actions, i);
    lemma_changes_are_no_files(table, actions@, changes@);
    law_table_after_the_commit(
        table,
        written,
        changes,
        rewrite_time_ms,
        deletion_timestamp,
        outcome,
        key,
    );
    assert forall|k: int| 0 <= k < written.candidates@.len() implies !files_after(
        table,
        outcome.actions@,
    ).contains(
        ((#[trigger] written.candidates@[k]).path@, written.candidates@[k].deletion_vector),
    ) by {
        law_table_after_the_commit(
            table,
            written,
            changes,
            rewrite_time_ms,
            deletion_timestamp,
            outcome,
            (written.candidates@[k].path@, written.candidates@[k].deletion_vector),
        );
    }
}

proof fn lemma_changes_are_no_files(
    table: Set<FileKey>,
    actions: Seq<Action>,
    changes: Seq<Action>,
)
    requires
        forall|k: int| 0 <= k < changes.len() ==> #[trigger] changes[k] is Cdc,
    ensures
        files_after(table, actions + changes) == files_after(table, actions),
    decreases changes.len(),
{
    if changes.len() == 0 {
        assert(actions + changes =~= actions);
    } else {
        let shorter = changes.drop_last();
        assert forall|k: int| 0 <= k < shorter.len() implies #[trigger] shorter[k] is Cdc by {
            assert(changes[k] is Cdc);
        }
        lemma_changes_are_no_files(table, actions, shorter);
        assert((actions + changes).drop_last() =~= actions + shorter);
        assert((actions + changes).last() == changes[changes.len() - 1]);
    }
}

proof fn lemma_number_of_actions(
    files: Seq<Add>,
    descriptors: Map<Seq<char>, DeletionVectorDescriptor>,
)
    ensures
        actions_of_marked_files(files, descriptors).len() == 2 * num_described(files, descriptors),
    decreases files.len(),
{
    reveal(Seq::filter);
    if files.len() > 0 {
        lemma_number_of_actions(files.drop_last(), descriptors);
    }
}

proof fn lemma_actions_are_kept(
    files: Seq<Add>,
    descriptors: Map<Seq<char>, DeletionVectorDescriptor>,
    i: int,
)
    requires
        0 <= i <= files.len(),
    ensures
        actions_of_marked_files(files.take(i), descriptors).is_prefix_of(
            actions_of_marked_files(files, descriptors),
        ),
    decreases files.len(),
{
    let all = actions_of_marked_files(files, descriptors);
    if i == files.len() {
        assert(files.take(i) =~= files);
        assert(all.subrange(0, all.len() as int) =~= all);
    } else {
        let shorter = files.drop_last();
        assert(shorter.take(i) =~= files.take(i));
        lemma_actions_are_kept(shorter, descriptors, i);
        let some = actions_of_marked_files(files.take(i), descriptors);
        assert(some.is_prefix_of(actions_of_marked_files(shorter, descriptors)));
        assert(all.subrange(0, some.len() as int) =~= some);
    }
}

proof fn lemma_table_after(
    table: Set<FileKey>,
    files: Seq<Add>,
    descriptors: Map<Seq<char>, DeletionVectorDescriptor>,
    i: int,
)
    requires
        0 <= i < files.len(),
        descriptors.contains_key(files[i].path@),
    ensures
        files_after(table, actions_of_marked_files(files, descriptors)).contains(
            (files[i].path@, Some(descriptors[files[i].path@])),
        ),
    decreases files.len(),
{
    let shorter = files.drop_last();
    let before = actions_of_marked_files(shorter, descriptors);
    let all = actions_of_marked_files(files, descriptors);
    let add = files.last();
    if i < files.len() - 1 {
        lemma_table_after(table, shorter, descriptors, i);
    }
    if descriptors.contains_key(add.path@) {
        let removed = all.drop_last();
        assert(removed.drop_last() =~= before);
        assert(files_after(table, removed) == files_after(table, before).remove((add.path@, None)));
        assert(files_after(table, all) == files_after(table, removed).insert(
            (add.path@, Some(descriptors[add.path@])),
        ));
    }
}

/// A file that is added is in the table, one that is removed is not, and a file with changes is no
/// file of the table.
pub proof fn law_table_after_an_action(
    table: Set<FileKey>,
    actions: Seq<Action>,
    action: Action,
    key: FileKey,
)
    ensures
        files_after(table, Seq::empty()) == table,
        files_after(table, actions.push(action)).contains(key) <==> match action {
            Action::Add(add) => key == (add.path@, add.deletion_vector) || files_after(
                table,
                actions,
            ).contains(key),
            Action::Remove(remove) => key != (remove.path@, remove.deletion_vector) && files_after(
                table,
                actions,
            ).contains(key),
            Action::Cdc(_) => files_after(table, actions).contains(key),
        },
{
    assert(actions.push(action).drop_last() =~= actions);
}

} // verus!
