# delta_deletion_vectors

Deletion vectors for Delta tables, verified with Verus.

A deletion vector is the set of the rows of a data file that are gone. A delete on a table either
rewrites the data files without the rows that go, drops whole files, or marks the rows in deletion
vectors.

There are two forms of a deletion vector file, with the same layout. One holds 64-bit row numbers,
and a reader of the table leaves out the rows that are marked in it. The other holds 32-bit row
numbers. It is the one that a delete writes, and the reader of the table does not read it yet.

- `src/format.rs` is the layout of a deletion vector file and what a descriptor says of it.
- `src/deletion_vectors.rs` writes files of 64-bit row numbers and reads them back.
- `src/delete.rs` is the builder of a delete and its metrics, and below it
  - `src/delete/rows.rs`: which rows stay, which are marked, and which go to the change data feed,
  - `src/delete/marking.rs`: the rows marked so far, by data file, and how the parts of a scan are
    merged,
  - `src/delete/vector_file.rs`: the file with the marked rows, and what the log says of it,
  - `src/delete/run.rs`: the course of a delete up to what is committed.
- `src/file_source.rs` tells of each row that is read whether it is deleted, by a vector of 64-bit
  row numbers.
- `src/kernel.rs`, `src/errors.rs` and `src/name_map.rs` are the types in between.
- `src/external.rs` holds what is taken on trust of other crates.

`app/` runs deletes with DataFusion and an object store.
