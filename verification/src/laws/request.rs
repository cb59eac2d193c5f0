//! Laws of asking for a delete.

use datafusion::execution::session_state::SessionState;
use datafusion::logical_expr::Expr;
use parquet::file::properties::WriterProperties;
use vstd::prelude::*;

use crate::delete::run::counts_source_rows;
use crate::delete::{
    predicate_or_all_rows, resolve_predicate, text_to_parse, DeleteBuilder, Expression,
};
use crate::errors::DeltaResult;
use crate::kernel::{DeletionVectorDescriptor, StorageType};

verus! {

/// A new builder holds the table that it was given and, of all else, only the default of what is
/// known of the commit. It asks for no deletion vectors.
pub proof fn law_new_builder<L, S, C: Default, H>(
    log_store: L,
    snapshot: S,
    builder: DeleteBuilder<L, S, C, H>,
)
    requires
        call_ensures(DeleteBuilder::<L, S, C, H>::new, (log_store, snapshot), builder),
    ensures
        builder.log_store == log_store,
        builder.snapshot == snapshot,
        builder.predicate is None,
        builder.state is None,
        builder.writer_properties is None,
        builder.custom_execute_handler is None,
        !builder.deletion_vectors,
        call_ensures(C::default, (), builder.commit_properties),
{
}

/// What is set last counts, and setting one thing leaves all others as they were.
pub proof fn law_builder_keeps_what_is_set<L, S, C, H>(
    before: DeleteBuilder<L, S, C, H>,
    state: SessionState,
    with_state: DeleteBuilder<L, S, C, H>,
    commit_properties: C,
    with_properties: DeleteBuilder<L, S, C, H>,
    writer_properties: WriterProperties,
    with_writer: DeleteBuilder<L, S, C, H>,
    handler: H,
    with_handler: DeleteBuilder<L, S, C, H>,
    deletion_vectors: bool,
    after: DeleteBuilder<L, S, C, H>,
)
    requires
        call_ensures(
            DeleteBuilder::<L, S, C, H>::with_session_state,
            (before, state),
            with_state,
        ),
        call_ensures(
            DeleteBuilder::<L, S, C, H>::with_commit_properties,
            (with_state, commit_properties),
            with_properties,
        ),
        call_ensures(
            DeleteBuilder::<L, S, C, H>::with_writer_properties,
            (with_properties, writer_properties),
            with_writer,
        ),
        call_ensures(
            DeleteBuilder::<L, S, C, H>::with_custom_execute_handler,
            (with_writer, handler),
            with_handler,
        ),
        call_ensures(
            DeleteBuilder::<L, S, C, H>::with_deletion_vectors,
            (with_handler, deletion_vectors),
            after,
        ),
    ensures
        after.state == Some(state),
        after.commit_properties == commit_properties,
        after.writer_properties == Some(writer_properties),
        after.custom_execute_handler == Some(handler),
        after.deletion_vectors == deletion_vectors,
        after.predicate == before.predicate,
        after.log_store == before.log_store,
        after.snapshot == before.snapshot,
{
}

/// A predicate that is set counts, whatever was set before, and leaves all else as it was.
pub proof fn law_builder_keeps_the_predicate<L, S, C, H>(
    before: DeleteBuilder<L, S, C, H>,
    predicate: Expr,
    after: DeleteBuilder<L, S, C, H>,
)
    requires
        call_ensures(
            DeleteBuilder::<L, S, C, H>::with_predicate::<Expr>,
            (before, predicate),
            after,
        ),
    ensures
        after.predicate matches Some(Expression::DataFusion(held)) && held == predicate,
        after.log_store == before.log_store,
        after.snapshot == before.snapshot,
        after.state == before.state,
        after.writer_properties == before.writer_properties,
        after.commit_properties == before.commit_properties,
        after.custom_execute_handler == before.custom_execute_handler,
        after.deletion_vectors == before.deletion_vectors,
{
}

/// A predicate that is set as text is held as that text, and leaves all else as it was.
pub proof fn law_builder_keeps_the_text<L, S, C, H>(
    before: DeleteBuilder<L, S, C, H>,
    text: String,
    with_text: DeleteBuilder<L, S, C, H>,
    slice: &str,
    with_slice: DeleteBuilder<L, S, C, H>,
)
    requires
        call_ensures(
            DeleteBuilder::<L, S, C, H>::with_predicate::<String>,
            (before, text),
            with_text,
        ),
        call_ensures(
            DeleteBuilder::<L, S, C, H>::with_predicate::<&str>,
            (before, slice),
            with_slice,
        ),
    ensures
        with_text.predicate matches Some(Expression::String(held)) && held@ == text@,
        with_slice.predicate matches Some(Expression::String(held)) && held@ == slice@,
        with_text == (DeleteBuilder { predicate: with_text.predicate, ..before }),
        with_slice == (DeleteBuilder { predicate: with_slice.predicate, ..before }),
{
}

/// The accessors give out what is held.
pub proof fn law_accessors<L, S, C, H>(
    builder: &DeleteBuilder<L, S, C, H>,
    log_store: &L,
    handler: Option<&H>,
)
    requires
        call_ensures(DeleteBuilder::<L, S, C, H>::log_store, (builder,), log_store),
        call_ensures(
            DeleteBuilder::<L, S, C, H>::get_custom_execute_handler,
            (builder,),
            handler,
        ),
    ensures
        *log_store == builder.log_store,
        handler is Some <==> builder.custom_execute_handler is Some,
        handler matches Some(handler) ==> *handler == builder.custom_execute_handler->0,
{
}

/// The predicate that is applied to the rows is the expression that was given, or what the text
/// that was given was parsed to, or the one for all rows where nothing was given. A text that
/// cannot be parsed is an error, and only that is.
pub proof fn law_applied_predicate(
    predicate: Option<Expression>,
    text: Option<&String>,
    parsed: Option<DeltaResult<Expr>>,
    resolved: DeltaResult<Option<Expr>>,
    all_rows: Expr,
    applied: Expr,
)
    requires
        call_ensures(text_to_parse, (&predicate,), text),
        parsed is Some <==> text is Some,
        call_ensures(resolve_predicate, (predicate, parsed), resolved),
        resolved matches Ok(resolved) ==> call_ensures(
            predicate_or_all_rows,
            (resolved, all_rows),
            applied,
        ),
    ensures
        call_requires(resolve_predicate, (predicate, parsed)),
        text is Some <==> (predicate matches Some(given) && given is String),
        text matches Some(text) ==> predicate == Some(Expression::String(*text)),
        resolved is Err <==> (parsed matches Some(parsed) && parsed is Err),
        resolved matches Err(err) ==> parsed->0->Err_0 == err,
        predicate is None ==> resolved == Ok::<Option<Expr>, crate::errors::DeltaTableError>(None)
            && applied == all_rows,
        predicate matches Some(Expression::DataFusion(expr)) ==> applied == expr,
        parsed matches Some(Ok(expr)) ==> applied == expr,
{
}

/// The node of a plan that counts rows is known by its name.
pub proof fn law_counting_node(id: &String, counts: bool)
    requires
        call_ensures(counts_source_rows, (id,), counts),
    ensures
        counts <==> id@ == "delete_source_count"@,
{
}

/// A descriptor is copied as a whole, and a vector is by default in a file that a UUID names.
pub proof fn law_descriptors(
    descriptor: &DeletionVectorDescriptor,
    copy: DeletionVectorDescriptor,
    storage_type: StorageType,
)
    requires
        call_ensures(
            <DeletionVectorDescriptor as Clone>::clone,
            (descriptor,),
            copy,
        ),
        call_ensures(<StorageType as Default>::default, (), storage_type),
    ensures
        copy.storage_type == descriptor.storage_type,
        copy.path_or_inline_dv@ == descriptor.path_or_inline_dv@,
        copy.offset == descriptor.offset,
        copy.size_in_bytes == descriptor.size_in_bytes,
        copy.cardinality == descriptor.cardinality,
        storage_type is UuidRelativePath,
{
}

} // verus!
