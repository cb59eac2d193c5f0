//! Which rows of which data files a delete has marked.

use roaring::RoaringBitmap;
use vstd::prelude::*;

use crate::errors::{DeltaResult, DeltaTableError};
use crate::external::{bitmap_canonical, bitmap_extend, bitmap_merge, bitmap_rows};
use crate::name_map::NameMap;

verus! {

/// The rows that are marked, by data file. Row numbers are held modulo 2^32.
pub type DeletionVectorMap = NameMap<RoaringBitmap>;

/// Name of the column with the number of each row in its data file.
pub const ROW_NUMBER_COLUMN: &'static str = "__delta_rs_row_number";

/// What a [`DeletionVectorMap`] stands for: a set of rows for each data file.
pub open spec fn marked_rows(deletion_vectors: DeletionVectorMap) -> Map<Seq<char>, Set<u32>> {
    Map::new(
        |name: Seq<char>| deletion_vectors@.contains_key(name),
        |name: Seq<char>| bitmap_rows(deletion_vectors@[name]),
    )
}

/// Whether a map is well-formed, and each set in it too.
pub open spec fn marks_wf(deletion_vectors: DeletionVectorMap) -> bool {
    &&& deletion_vectors.wf()
    &&& forall|name: Seq<char>| #[trigger]
        deletion_vectors@.contains_key(name) ==> bitmap_canonical(deletion_vectors@[name])
}

/// The rows that are marked in a data file, none where the file is not among the marked ones.
pub open spec fn rows_in(marks: Map<Seq<char>, Set<u32>>, name: Seq<char>) -> Set<u32> {
    if marks.contains_key(name) {
        marks[name]
    } else {
        Set::empty()
    }
}

/// What is marked by either of two.
pub open spec fn merged(
    a: Map<Seq<char>, Set<u32>>,
    b: Map<Seq<char>, Set<u32>>,
) -> Map<Seq<char>, Set<u32>> {
    Map::new(
        |name: Seq<char>| a.contains_key(name) || b.contains_key(name),
        |name: Seq<char>| rows_in(a, name).union(rows_in(b, name)),
    )
}

/// What is marked by any of several.
pub open spec fn all_merged(parts: Seq<Map<Seq<char>, Set<u32>>>) -> Map<Seq<char>, Set<u32>> {
    Map::new(
        |name: Seq<char>|
            exists|i: int| 0 <= i < parts.len() && (#[trigger] parts[i]).contains_key(name),
        |name: Seq<char>|
            Set::new(
                |row: u32|
                    exists|i: int|
                        0 <= i < parts.len() && rows_in(#[trigger] parts[i], name).contains(row),
            ),
    )
}

/// One data file with some of its rows.
pub open spec fn one_file(name: Seq<char>, rows: Set<u32>) -> Map<Seq<char>, Set<u32>> {
    map![name => rows]
}

/// Rows of a scan that are to be deleted.
pub struct DeletedRows {
    /// The column with the row numbers, if the scan has it
    pub row_numbers: Option<Vec<Option<u64>>>,
    /// The column with the paths of the data files
    pub file_names: DeltaResult<Vec<Option<String>>>,
}

/// The number of rows that have both a row number and a path.
pub open spec fn num_marks(
    row_numbers: Seq<Option<u64>>,
    file_names: Seq<Option<String>>,
) -> nat {
    if row_numbers.len() <= file_names.len() {
        row_numbers.len()
    } else {
        file_names.len()
    }
}

/// Whether every row that has both has them for certain.
pub open spec fn has_no_nulls(
    row_numbers: Seq<Option<u64>>,
    file_names: Seq<Option<String>>,
) -> bool {
    forall|i: int|
        #![trigger row_numbers[i]]
        #![trigger file_names[i]]
        0 <= i < num_marks(row_numbers, file_names) ==> row_numbers[i] is Some
            && file_names[i] is Some
}

/// What each row of a batch marks. A row number is taken modulo 2^32.
pub open spec fn marks_of_rows(
    row_numbers: Seq<Option<u64>>,
    file_names: Seq<Option<String>>,
) -> Seq<Map<Seq<char>, Set<u32>>> {
    Seq::new(
        num_marks(row_numbers, file_names),
        |i: int| one_file(file_names[i]->0@, set![row_numbers[i]->0 as u32]),
    )
}

/// One part more is merged in.
pub proof fn lemma_all_merged_push(
    parts: Seq<Map<Seq<char>, Set<u32>>>,
    part: Map<Seq<char>, Set<u32>>,
)
    ensures
        all_merged(parts.push(part)) == merged(all_merged(parts), part),
{
    let more = parts.push(part);
    assert(more[parts.len() as int] == part);
    assert forall|i: int| 0 <= i < parts.len() implies #[trigger] parts[i] == more[i] by {}
    assert forall|name: Seq<char>| #[trigger]
        all_merged(more).contains_key(name) == merged(all_merged(parts), part).contains_key(
            name,
        ) by {
        if all_merged(more).contains_key(name) {
            let i = choose|i: int| 0 <= i < more.len() && (#[trigger] more[i]).contains_key(name);
            if i < parts.len() {
                assert(parts[i].contains_key(name));
            }
        }
        if all_merged(parts).contains_key(name) {
            let i = choose|i: int| 0 <= i < parts.len() && (#[trigger] parts[i]).contains_key(
                name,
            );
            assert(more[i].contains_key(name));
        }
    }
    assert forall|name: Seq<char>, row: u32|
        all_merged(more).contains_key(name) implies #[trigger] all_merged(more)[name].contains(row)
        == merged(all_merged(parts), part)[name].contains(row) by {
        if all_merged(more)[name].contains(row) {
            let i = choose|i: int|
                0 <= i < more.len() && rows_in(#[trigger] more[i], name).contains(row);
            if i < parts.len() {
                assert(rows_in(parts[i], name).contains(row));
                assert(parts[i].contains_key(name));
                assert(all_merged(parts).contains_key(name));
            }
        }
        if rows_in(all_merged(parts), name).contains(row) {
            let i = choose|i: int|
                0 <= i < parts.len() && rows_in(#[trigger] parts[i], name).contains(row);
            assert(rows_in(more[i], name).contains(row));
        }
    }
    assert forall|name: Seq<char>| #[trigger] all_merged(more).contains_key(name) implies all_merged(
        more,
    )[name] == merged(all_merged(parts), part)[name] by {
        assert(all_merged(more)[name] =~= merged(all_merged(parts), part)[name]);
    }
    assert(all_merged(more) =~= merged(all_merged(parts), part));
}

/// Merging depends neither on the order of two parts nor on how several are grouped, and a part
/// that marks nothing changes nothing.
pub proof fn lemma_merging_laws(
    a: Map<Seq<char>, Set<u32>>,
    b: Map<Seq<char>, Set<u32>>,
    c: Map<Seq<char>, Set<u32>>,
)
    ensures
        merged(a, b) == merged(b, a),
        merged(merged(a, b), c) == merged(a, merged(b, c)),
        merged(a, a) == a,
        merged(a, Map::empty()) == a,
        all_merged(seq![a]) == a,
{
    assert(merged(a, b) =~~= merged(b, a));
    assert(merged(merged(a, b), c) =~~= merged(a, merged(b, c)));
    assert(merged(a, a) =~~= a);
    assert(merged(a, Map::empty()) =~~= a);
    assert(merged(Map::empty(), a) =~~= a);
    assert(Seq::<Map<Seq<char>, Set<u32>>>::empty().push(a) =~= seq![a]);
    lemma_all_merged_push(Seq::empty(), a);
    assert(all_merged(Seq::<Map<Seq<char>, Set<u32>>>::empty()) =~= Map::empty());
}

/// Merging all parts at once is merging some of them, the others, and the two results. So it
/// does not matter how a scan is split over several writers.
pub proof fn lemma_all_merged_concat(
    a: Seq<Map<Seq<char>, Set<u32>>>,
    b: Seq<Map<Seq<char>, Set<u32>>>,
)
    ensures
        all_merged(a + b) == merged(all_merged(a), all_merged(b)),
    decreases b.len(),
{
    if b.len() == 0 {
        assert(a + b =~= a);
        assert(all_merged(b) =~= Map::empty());
        lemma_merging_laws(all_merged(a), all_merged(a), all_merged(a));
    } else {
        let shorter = b.drop_last();
        lemma_all_merged_concat(a, shorter);
        assert(a + b =~= (a + shorter).push(b.last()));
        assert(b =~= shorter.push(b.last()));
        lemma_all_merged_push(a + shorter, b.last());
        lemma_all_merged_push(shorter, b.last());
        lemma_merging_laws(all_merged(a), all_merged(shorter), b.last());
    }
}

/// What several parts mark depends on which parts there are, not on their order or on how often
/// each of them comes.
pub proof fn lemma_order_does_not_matter(
    a: Seq<Map<Seq<char>, Set<u32>>>,
    b: Seq<Map<Seq<char>, Set<u32>>>,
)
    requires
        a.to_set() == b.to_set(),
    ensures
        all_merged(a) == all_merged(b),
{
    lemma_covered_parts(a, b);
    lemma_covered_parts(b, a);
    assert(all_merged(a) =~~= all_merged(b));
}

proof fn lemma_covered_parts(
    a: Seq<Map<Seq<char>, Set<u32>>>,
    b: Seq<Map<Seq<char>, Set<u32>>>,
)
    requires
        a.to_set() == b.to_set(),
    ensures
        forall|name: Seq<char>| #[trigger]
            all_merged(a).contains_key(name) ==> all_merged(b).contains_key(name),
        forall|name: Seq<char>, row: u32| #[trigger]
            all_merged(a)[name].contains(row) && all_merged(a).contains_key(name) ==> all_merged(
                b,
            )[name].contains(row),
{
    assert forall|i: int| 0 <= i < a.len() implies exists|j: int|
        0 <= j < b.len() && b[j] == #[trigger] a[i] by {
        assert(a.to_set().contains(a[i]));
        assert(b.to_set().contains(a[i]));
    }
    assert forall|name: Seq<char>| #[trigger] all_merged(a).contains_key(name) implies all_merged(
        b,
    ).contains_key(name) by {
        let i = choose|i: int| 0 <= i < a.len() && (#[trigger] a[i]).contains_key(name);
        let j = choose|j: int| 0 <= j < b.len() && b[j] == a[i];
        assert(b[j].contains_key(name));
    }
    assert forall|name: Seq<char>, row: u32| #[trigger]
        all_merged(a)[name].contains(row) && all_merged(a).contains_key(name) implies all_merged(
        b,
    )[name].contains(row) by {
        let i = choose|i: int| 0 <= i < a.len() && rows_in(#[trigger] a[i], name).contains(row);
        let j = choose|j: int| 0 <= j < b.len() && b[j] == a[i];
        assert(rows_in(b[j], name).contains(row));
        assert(all_merged(b).contains_key(name));
    }
}

/// Marks rows of a data file.
fn mark_rows(deletion_vectors: &mut DeletionVectorMap, file_name: String, rows: Vec<u32>)
    requires
        marks_wf(*old(deletion_vectors)),
    ensures
        marks_wf(*final(deletion_vectors)),
        marked_rows(*final(deletion_vectors)) == merged(
            marked_rows(*old(deletion_vectors)),
            one_file(file_name@, rows@.to_set()),
        ),
{
    let ghost before = *deletion_vectors;
    let ghost name = file_name@;
    match deletion_vectors.position(file_name.as_str()) {
        Some(slot) => {
            bitmap_extend(deletion_vectors.value_mut(slot), rows);
        },
        None => {
            let mut bitmap = RoaringBitmap::new();
            bitmap_extend(&mut bitmap, rows);
            deletion_vectors.push(file_name, bitmap);
        },
    }
    proof {
        assert(marked_rows(*deletion_vectors) =~~= merged(
            marked_rows(before),
            one_file(name, rows@.to_set()),
        ));
    }
}

/// Marks the rows of a data file that a bitmap holds.
fn merge_rows(deletion_vectors: &mut DeletionVectorMap, file_name: String, rows: RoaringBitmap)
    requires
        marks_wf(*old(deletion_vectors)),
        bitmap_canonical(rows),
    ensures
        marks_wf(*final(deletion_vectors)),
        marked_rows(*final(deletion_vectors)) == merged(
            marked_rows(*old(deletion_vectors)),
            one_file(file_name@, bitmap_rows(rows)),
        ),
{
    let ghost before = *deletion_vectors;
    let ghost name = file_name@;
    match deletion_vectors.position(file_name.as_str()) {
        Some(slot) => {
            bitmap_merge(deletion_vectors.value_mut(slot), &rows);
        },
        None => {
            deletion_vectors.push(file_name, rows);
        },
    }
    proof {
        assert(marked_rows(*deletion_vectors) =~~= merged(
            marked_rows(before),
            one_file(name, bitmap_rows(rows)),
        ));
    }
}

/// What the entries of a map mark, each of them by itself.
pub open spec fn marks_of_entries<V>(
    entries: Seq<(String, V)>,
    rows: spec_fn(V) -> Set<u32>,
) -> Seq<Map<Seq<char>, Set<u32>>> {
    entries.map_values(|entry: (String, V)| one_file(entry.0@, rows(entry.1)))
}

/// What the entries of a map mark together is what the map marks.
proof fn lemma_marks_of_entries<V>(map: NameMap<V>, rows: spec_fn(V) -> Set<u32>)
    requires
        map.wf(),
    ensures
        all_merged(marks_of_entries(map.entries(), rows)) == Map::new(
            |name: Seq<char>| map@.contains_key(name),
            |name: Seq<char>| rows(map@[name]),
        ),
{
    let parts = marks_of_entries(map.entries(), rows);
    let whole = Map::new(
        |name: Seq<char>| map@.contains_key(name),
        |name: Seq<char>| rows(map@[name]),
    );
    map.lemma_entries();
    assert forall|name: Seq<char>| #[trigger] all_merged(parts).contains_key(name)
        == whole.contains_key(name) by {
        if all_merged(parts).contains_key(name) {
            let i = choose|i: int| 0 <= i < parts.len() && (#[trigger] parts[i]).contains_key(
                name,
            );
            assert(map.entries()[i].0@ == name);
        }
        if whole.contains_key(name) {
            let i = choose|i: int|
                0 <= i < map.entries().len() && (#[trigger] map.entries()[i]).0@ == name;
            assert(parts[i].contains_key(name));
        }
    }
    assert forall|name: Seq<char>| #[trigger] whole.contains_key(name) implies all_merged(
        parts,
    )[name] == whole[name] by {
        let slot = choose|i: int|
            0 <= i < map.entries().len() && (#[trigger] map.entries()[i]).0@ == name;
        assert(parts[slot][name] == whole[name]);
        assert(rows_in(parts[slot], name) == whole[name]);
        assert forall|row: u32| all_merged(parts)[name].contains(row) == whole[name].contains(
            row,
        ) by {
            if all_merged(parts)[name].contains(row) {
                let i = choose|i: int|
                    0 <= i < parts.len() && rows_in(#[trigger] parts[i], name).contains(row);
                assert(map.entries()[i].0@ == name);
            }
        }
        assert(all_merged(parts)[name] =~= whole[name]);
    }
    assert(all_merged(parts) =~= whole);
}

/// The rows of each data file that stand in a group.
spec fn grouped_rows(groups: NameMap<Vec<u32>>) -> Map<Seq<char>, Set<u32>> {
    Map::new(
        |name: Seq<char>| groups@.contains_key(name),
        |name: Seq<char>| groups@[name]@.to_set(),
    )
}

/// Groups the rows of a batch by data file.
fn group_rows(row_numbers: &Vec<Option<u64>>, file_names: &Vec<Option<String>>) -> (groups: NameMap<
    Vec<u32>,
>)
    requires
        has_no_nulls(row_numbers@, file_names@),
    ensures
        groups.wf(),
        grouped_rows(groups) == all_merged(marks_of_rows(row_numbers@, file_names@)),
{
    let ghost marks = marks_of_rows(row_numbers@, file_names@);
    let mut groups: NameMap<Vec<u32>> = NameMap::new();
    assert(marks.take(0) =~= Seq::empty());
    assert(all_merged(Seq::<Map<Seq<char>, Set<u32>>>::empty()) =~= Map::empty());
    assert(grouped_rows(groups) =~= Map::empty());
    let mut i: usize = 0;
    while i < row_numbers.len() && i < file_names.len()
        invariant
            has_no_nulls(row_numbers@, file_names@),
            marks == marks_of_rows(row_numbers@, file_names@),
            i <= marks.len(),
            groups.wf(),
            grouped_rows(groups) == all_merged(marks.take(i as int)),
        decreases row_numbers.len() - i,
    {
        if let (Some(row_number), Some(file_name)) = (&row_numbers[i], &file_names[i]) {
            let ghost before = groups;
            let slot: usize = match groups.position(file_name.as_str()) {
                Some(slot) => slot,
                None => {
                    let slot: usize = groups.len();
                    groups.push(file_name.clone(), Vec::new());
                    slot
                },
            };
            let ghost opened = groups;
            let row: u32 = *row_number as u32;
            groups.value_mut(slot).push(row);
            proof {
                let group = opened.entries()[slot as int].1@;
                opened.lemma_entries();
                group.lemma_push_to_set_commute(row);
                assert(grouped_rows(groups) =~~= merged(grouped_rows(before), marks[i as int]));
                assert(marks.take(i as int).push(marks[i as int]) =~= marks.take(i + 1));
                lemma_all_merged_push(marks.take(i as int), marks[i as int]);
            }
        }
        i = i + 1;
    }
    assert(marks.take(i as int) =~= marks);
    groups
}

/// Collects the rows that one part of a scan marks.
pub struct DeletionVectorWriter {
    deletion_vectors: DeletionVectorMap,
}

impl DeletionVectorWriter {
    /// Whether the rows collected so far are well-formed.
    pub closed spec fn wf(self) -> bool {
        marks_wf(self.deletion_vectors)
    }

    /// The rows marked so far.
    pub closed spec fn marks(self) -> Map<Seq<char>, Set<u32>> {
        marked_rows(self.deletion_vectors)
    }

    /// A writer that has marked nothing.
    pub fn new() -> (writer: Self)
        ensures
            writer.wf(),
            writer.marks() == Map::<Seq<char>, Set<u32>>::empty(),
    {
        let writer = DeletionVectorWriter { deletion_vectors: NameMap::new() };
        assert(writer.marks() =~= Map::<Seq<char>, Set<u32>>::empty());
        writer
    }

    /// Marks the rows of a batch. Nothing is marked where one of the two columns is missing.
    pub fn write(&mut self, batch: DeletedRows) -> (written: DeltaResult<()>)
        requires
            old(self).wf(),
            batch.row_numbers matches Some(row_numbers) ==> (batch.file_names matches Ok(
                file_names,
            ) ==> has_no_nulls(row_numbers@, file_names@)),
        ensures
            final(self).wf(),
            match (batch.row_numbers, batch.file_names) {
                (None, _) => {
                    &&& written matches Err(DeltaTableError::Generic(message))
                    &&& message@ == "Column '__delta_rs_row_number' not found in record batch"@
                },
                (Some(_), Err(err)) => written == Err::<(), DeltaTableError>(err),
                (Some(row_numbers), Ok(file_names)) => written is Ok,
            },
            final(self).marks() == match (batch.row_numbers, batch.file_names) {
                (Some(row_numbers), Ok(file_names)) => merged(
                    old(self).marks(),
                    all_merged(marks_of_rows(row_numbers@, file_names@)),
                ),
                _ => old(self).marks(),
            },
    {
        let row_numbers = match batch.row_numbers {
            Some(row_numbers) => row_numbers,
            None => return Err(
                DeltaTableError::Generic(
                    "Column '__delta_rs_row_number' not found in record batch".to_owned(),
                ),
            ),
        };
        let file_names = match batch.file_names {
            Ok(file_names) => file_names,
            Err(err) => return Err(err),
        };
        let groups = group_rows(&row_numbers, &file_names);
        let ghost to_rows = |rows: Vec<u32>| rows@.to_set();
        let ghost parts = marks_of_entries(groups.entries(), to_rows);
        proof {
            lemma_marks_of_entries(groups, to_rows);
            assert(all_merged(parts) =~= grouped_rows(groups));
            assert(parts.take(0) =~= Seq::empty());
            assert(all_merged(Seq::<Map<Seq<char>, Set<u32>>>::empty()) =~= Map::empty());
            lemma_merging_laws(self.marks(), self.marks(), self.marks());
        }
        let entries = groups.into_entries();
        for entry in iter: entries
            invariant
                iter.seq() == entries@,
                to_rows == (|rows: Vec<u32>| rows@.to_set()),
                parts == marks_of_entries(entries@, to_rows),
                self.wf(),
                self.marks() == merged(old(self).marks(), all_merged(parts.take(iter.index()))),
        {
            let ghost i = iter.index();
            let (file_name, rows) = entry;
            proof {
                assert(parts[i] == one_file(file_name@, rows@.to_set()));
                assert(parts.take(i).push(parts[i]) =~= parts.take(i + 1));
                lemma_all_merged_push(parts.take(i), parts[i]);
                lemma_merging_laws(old(self).marks(), all_merged(parts.take(i)), parts[i]);
            }
            mark_rows(&mut self.deletion_vectors, file_name, rows);
        }
        assert(parts.take(parts.len() as int) =~= parts);
        Ok(())
    }

    /// The rows that were marked.
    pub fn close(self) -> (closed: DeltaResult<DeletionVectorMap>)
        requires
            self.wf(),
        ensures
            closed matches Ok(deletion_vectors) && marks_wf(deletion_vectors) && marked_rows(
                deletion_vectors,
            ) == self.marks(),
    {
        Ok(self.deletion_vectors)
    }
}

/// How a task that collects the rows of one part of a scan ended: with what its writer collected
/// or the error that it met, or not at all, for the reason given.
pub type PartitionResult = Result<DeltaResult<DeletionVectorMap>, String>;

/// The error of a task, if there is one.
pub open spec fn is_error_of(err: DeltaTableError, result: PartitionResult) -> bool {
    match result {
        Err(reason) => err == DeltaTableError::Generic(reason),
        Ok(Err(inner)) => err == inner,
        Ok(Ok(_)) => false,
    }
}

/// Whether an error is that of the first task that has one.
pub open spec fn is_first_error(err: DeltaTableError, results: Seq<PartitionResult>) -> bool {
    exists|i: int|
        {
            &&& 0 <= i < results.len()
            &&& is_error_of(err, #[trigger] results[i])
            &&& all_collected(results.take(i))
        }
}

/// Whether every task has collected something.
pub open spec fn all_collected(results: Seq<PartitionResult>) -> bool {
    forall|i: int| 0 <= i < results.len() ==> (#[trigger] results[i] matches Ok(Ok(_)))
}

/// Whether all that tasks have collected is well-formed.
pub open spec fn collected_wf(results: Seq<PartitionResult>) -> bool {
    forall|i: int|
        0 <= i < results.len() ==> (#[trigger] results[i] matches Ok(Ok(part)) ==> marks_wf(part))
}

/// What each of several tasks has marked.
pub open spec fn marks_of_results(results: Seq<PartitionResult>) -> Seq<
    Map<Seq<char>, Set<u32>>,
> {
    results.map_values(
        |result: PartitionResult|
            match result {
                Ok(Ok(part)) => marked_rows(part),
                _ => Map::empty(),
            },
    )
}

/// What every task has collected, or the error of the first task that has one.
pub fn collect_partitions(results: Vec<PartitionResult>) -> (collected: DeltaResult<
    Vec<DeletionVectorMap>,
>)
    ensures
        match collected {
            Ok(parts) => {
                &&& all_collected(results@)
                &&& parts@.len() == results@.len()
                &&& forall|i: int|
                    0 <= i < parts@.len() ==> #[trigger] results@[i] == Ok::<
                        DeltaResult<DeletionVectorMap>,
                        String,
                    >(Ok(parts@[i]))
            },
            Err(err) => is_first_error(err, results@),
        },
{
    let mut parts: Vec<DeletionVectorMap> = Vec::new();
    let ghost all = results@;
    for result in iter: results
        invariant
            iter.seq() == all,
            parts@.len() == iter.index(),
            forall|i: int|
                0 <= i < iter.index() ==> #[trigger] all[i] == Ok::<
                    DeltaResult<DeletionVectorMap>,
                    String,
                >(Ok(parts@[i])),
    {
        assert(all[iter.index()] == result);
        match result {
            Ok(Ok(part)) => parts.push(part),
            Ok(Err(err)) => return Err(err),
            Err(reason) => return Err(DeltaTableError::Generic(reason)),
        }
    }
    Ok(parts)
}

/// What each of several maps marks.
pub open spec fn marks_of_parts(parts: Seq<DeletionVectorMap>) -> Seq<Map<Seq<char>, Set<u32>>> {
    parts.map_values(|part: DeletionVectorMap| marked_rows(part))
}

/// Everything that any part of a scan has marked. A data file can be split over several parts.
/// There is nothing where the scan has no parts.
pub fn merge_partitions(parts: Vec<DeletionVectorMap>) -> (whole: Option<DeletionVectorMap>)
    requires
        forall|i: int| 0 <= i < parts@.len() ==> marks_wf(#[trigger] parts@[i]),
    ensures
        whole is None <==> parts@.len() == 0,
        whole matches Some(whole) ==> {
            &&& marks_wf(whole)
            &&& marked_rows(whole) == all_merged(marks_of_parts(parts@))
        },
{
    if parts.len() == 0 {
        return None;
    }
    let ghost marks = marks_of_parts(parts@);
    let ghost all = parts@;
    let mut whole: DeletionVectorMap = NameMap::new();
    assert(marked_rows(whole) =~= Map::empty());
    assert(marks.take(0) =~= Seq::empty());
    assert(all_merged(Seq::<Map<Seq<char>, Set<u32>>>::empty()) =~= Map::empty());
    for part in iter: parts
        invariant
            iter.seq() == all,
            forall|i: int| 0 <= i < all.len() ==> marks_wf(#[trigger] all[i]),
            marks == marks_of_parts(all),
            marks_wf(whole),
            marked_rows(whole) == all_merged(marks.take(iter.index())),
    {
        let ghost i = iter.index();
        assert(marks_wf(all[i]));
        merge_map(&mut whole, part);
        proof {
            assert(marks.take(i).push(marks[i]) =~= marks.take(i + 1));
            lemma_all_merged_push(marks.take(i), marks[i]);
        }
    }
    assert(marks.take(marks.len() as int) =~= marks);
    Some(whole)
}

/// Whether a map marks all that the parts of a scan have marked.
pub open spec fn is_whole_of(whole: DeletionVectorMap, results: Seq<PartitionResult>) -> bool {
    &&& marks_wf(whole)
    &&& marked_rows(whole) == all_merged(marks_of_results(results))
}

/// Everything that any part of a scan has marked, or the error of the first part that has one.
/// There is nothing where the scan has no parts.
pub fn merge_results(results: Vec<PartitionResult>) -> (outcome: DeltaResult<
    Option<DeletionVectorMap>,
>)
    requires
        collected_wf(results@),
    ensures
        match outcome {
            Err(err) => is_first_error(err, results@),
            Ok(whole) => {
                &&& all_collected(results@)
                &&& whole is None <==> results@.len() == 0
                &&& whole matches Some(whole) ==> is_whole_of(whole, results@)
            },
        },
{
    let ghost given = results@;
    let parts = match collect_partitions(results) {
        Ok(parts) => parts,
        Err(err) => return Err(err),
    };
    assert forall|i: int| 0 <= i < parts@.len() implies marks_wf(#[trigger] parts@[i]) by {
        assert(given[i] == Ok::<DeltaResult<DeletionVectorMap>, String>(Ok(parts@[i])));
    }
    assert(marks_of_parts(parts@) =~= marks_of_results(given));
    Ok(merge_partitions(parts))
}

/// Marks all that another map marks.
fn merge_map(whole: &mut DeletionVectorMap, part: DeletionVectorMap)
    requires
        marks_wf(*old(whole)),
        marks_wf(part),
    ensures
        marks_wf(*final(whole)),
        marked_rows(*final(whole)) == merged(marked_rows(*old(whole)), marked_rows(part)),
{
    let ghost to_rows = |bitmap: RoaringBitmap| bitmap_rows(bitmap);
    let ghost marks = marks_of_entries(part.entries(), to_rows);
    let ghost before = marked_rows(*whole);
    proof {
        part.lemma_entries();
        lemma_marks_of_entries(part, to_rows);
        assert(all_merged(marks) =~= marked_rows(part));
        assert(marks.take(0) =~= Seq::empty());
        assert(all_merged(Seq::<Map<Seq<char>, Set<u32>>>::empty()) =~= Map::empty());
        lemma_merging_laws(before, before, before);
    }
    let entries = part.into_entries();
    for entry in iter: entries
        invariant
            iter.seq() == entries@,
            forall|j: int|
                0 <= j < entries@.len() ==> bitmap_canonical((#[trigger] entries@[j]).1),
            to_rows == (|bitmap: RoaringBitmap| bitmap_rows(bitmap)),
            marks == marks_of_entries(entries@, to_rows),
            marks_wf(*whole),
            marked_rows(*whole) == merged(before, all_merged(marks.take(iter.index()))),
    {
        let ghost i = iter.index();
        assert(bitmap_canonical(entries@[i].1));
        let (file_name, rows) = entry;
        proof {
            assert(marks[i] == one_file(file_name@, bitmap_rows(rows)));
            assert(marks.take(i).push(marks[i]) =~= marks.take(i + 1));
            lemma_all_merged_push(marks.take(i), marks[i]);
            lemma_merging_laws(before, all_merged(marks.take(i)), marks[i]);
        }
        merge_rows(whole, file_name, rows);
    }
    assert(marks.take(marks.len() as int) =~= marks);
}

} // verus!
