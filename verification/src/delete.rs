//! Delete records from a Delta Table that satisfy a predicate
//!
//! When a predicate is not provided then all records are deleted from the Delta
//! Table. Otherwise a scan of the Delta table is performed to mark any files
//! that contain records that satisfy the predicate. Once files are determined
//! they are rewritten without the records, or the records are marked in deletion
//! vectors.
//!
//! Predicates MUST be deterministic: the scanning and the rewriting phase must see
//! the same records.

use datafusion::execution::session_state::SessionState;
use datafusion::logical_expr::Expr;
use parquet::file::properties::WriterProperties;
use vstd::prelude::*;
use vstd::std_specs::convert::{FromSpecImpl, IntoSpec};

use crate::errors::{DeltaResult, DeltaTableError};

pub mod marking;
pub mod rows;
pub mod run;
pub mod vector_file;

verus! {

/// A predicate, as an expression of the query engine or as text.
pub enum Expression {
    /// An expression
    DataFusion(Expr),
    /// Text that is yet to be parsed
    String(String),
}

impl From<Expr> for Expression {
    fn from(expr: Expr) -> (expression: Self) {
        Expression::DataFusion(expr)
    }
}

impl FromSpecImpl<Expr> for Expression {
    open spec fn obeys_from_spec() -> bool {
        true
    }

    open spec fn from_spec(expr: Expr) -> Self {
        Expression::DataFusion(expr)
    }
}

impl From<String> for Expression {
    fn from(text: String) -> (expression: Self) {
        Expression::String(text)
    }
}

impl FromSpecImpl<String> for Expression {
    open spec fn obeys_from_spec() -> bool {
        true
    }

    open spec fn from_spec(text: String) -> Self {
        Expression::String(text)
    }
}

impl<'a> From<&'a str> for Expression {
    fn from(text: &'a str) -> (expression: Self)
        ensures
            expression matches Expression::String(held) && held@ == text@,
    {
        Expression::String(text.to_owned())
    }
}

impl<'a> FromSpecImpl<&'a str> for Expression {
    open spec fn obeys_from_spec() -> bool {
        false
    }

    open spec fn from_spec(text: &'a str) -> Self {
        arbitrary()
    }
}

/// The text of a predicate that is yet to be parsed, if it is one.
pub fn text_to_parse(predicate: &Option<Expression>) -> (text: Option<&String>)
    ensures
        text == (match predicate {
            Some(Expression::String(text)) => Some(text),
            _ => None,
        }),
{
    match predicate {
        Some(Expression::String(text)) => Some(text),
        _ => None,
    }
}

/// The predicate of a delete, once its text has been parsed where it is one. There is none where
/// all records go.
pub fn resolve_predicate(
    predicate: Option<Expression>,
    parsed: Option<DeltaResult<Expr>>,
) -> (resolved: DeltaResult<Option<Expr>>)
    requires
        parsed is Some <==> predicate matches Some(Expression::String(_)),
    ensures
        resolved == match predicate {
            None => Ok::<Option<Expr>, DeltaTableError>(None),
            Some(Expression::DataFusion(expr)) => Ok(Some(expr)),
            Some(Expression::String(_)) => match parsed->0 {
                Ok(expr) => Ok(Some(expr)),
                Err(err) => Err(err),
            },
        },
{
    match predicate {
        Some(Expression::DataFusion(expr)) => Ok(Some(expr)),
        _ => match parsed {
            Some(Ok(expr)) => Ok(Some(expr)),
            Some(Err(err)) => Err(err),
            None => Ok(None),
        },
    }
}

/// The predicate that is applied to the rows: the one that was given, or else the one that is true
/// of all of them.
pub fn predicate_or_all_rows(predicate: Option<Expr>, all_rows: Expr) -> (applied: Expr)
    ensures
        applied == (match predicate {
            Some(predicate) => predicate,
            None => all_rows,
        }),
{
    match predicate {
        Some(predicate) => predicate,
        None => all_rows,
    }
}

/// Delete Records from the Delta Table.
/// See this module's documentation for more information
///
/// `L` is the log store of the table, `S` a snapshot of its state, `C` what is known of the
/// commit, and `H` what is called before and after.
pub struct DeleteBuilder<L, S, C, H> {
    /// Which records to delete
    pub predicate: Option<Expression>,
    /// A snapshot of the table's state
    pub snapshot: S,
    /// Delta object store for handling data files
    pub log_store: L,
    /// Datafusion session state relevant for executing the input plan
    pub state: Option<SessionState>,
    /// Properties passed to underlying parquet writer for when files are rewritten
    pub writer_properties: Option<WriterProperties>,
    /// Commit properties and configuration
    pub commit_properties: C,
    /// Called before and after the delete
    pub custom_execute_handler: Option<H>,
    /// Whether to write deletion vectors
    pub deletion_vectors: bool,
}

impl<L, S, C: Default, H> DeleteBuilder<L, S, C, H> {
    /// Create a new [`DeleteBuilder`]
    pub fn new(log_store: L, snapshot: S) -> (builder: Self)
        ensures
            builder.predicate is None,
            builder.snapshot == snapshot,
            builder.log_store == log_store,
            builder.state is None,
            builder.writer_properties is None,
            call_ensures(C::default, (), builder.commit_properties),
            builder.custom_execute_handler is None,
            !builder.deletion_vectors,
    {
        DeleteBuilder {
            predicate: None,
            snapshot,
            log_store,
            state: None,
            commit_properties: C::default(),
            writer_properties: None,
            custom_execute_handler: None,
            deletion_vectors: false,
        }
    }
}

impl<L, S, C, H> DeleteBuilder<L, S, C, H> {
    /// The log store of the table
    pub fn log_store(&self) -> (log_store: &L)
        ensures
            *log_store == self.log_store,
    {
        &self.log_store
    }

    /// What is called before and after the delete, if anything is
    pub fn get_custom_execute_handler(&self) -> (handler: Option<&H>)
        ensures
            match handler {
                Some(handler) => self.custom_execute_handler == Some(*handler),
                None => self.custom_execute_handler is None,
            },
    {
        self.custom_execute_handler.as_ref()
    }

    /// A predicate that determines if a record is deleted
    pub fn with_predicate<E: Into<Expression>>(self, predicate: E) -> (builder: Self)
        ensures
            builder.predicate is Some,
            call_ensures(E::into, (predicate,), builder.predicate->0),
            E::obeys_into_spec() ==> builder.predicate == Some(predicate.into_spec()),
            builder == (DeleteBuilder { predicate: builder.predicate, ..self }),
    {
        let mut builder = self;
        builder.predicate = Some(predicate.into());
        builder
    }

    /// The Datafusion session state to use
    pub fn with_session_state(self, state: SessionState) -> (builder: Self)
        ensures
            builder == (DeleteBuilder { state: Some(state), ..self }),
    {
        let mut builder = self;
        builder.state = Some(state);
        builder
    }

    /// Additional information to write to the commit
    pub fn with_commit_properties(self, commit_properties: C) -> (builder: Self)
        ensures
            builder == (DeleteBuilder { commit_properties, ..self }),
    {
        let mut builder = self;
        builder.commit_properties = commit_properties;
        builder
    }

    /// Writer properties passed to parquet writer for when files are rewritten
    pub fn with_writer_properties(self, writer_properties: WriterProperties) -> (builder: Self)
        ensures
            builder == (DeleteBuilder { writer_properties: Some(writer_properties), ..self }),
    {
        let mut builder = self;
        builder.writer_properties = Some(writer_properties);
        builder
    }

    /// Set a custom execute handler, for pre and post execution
    pub fn with_custom_execute_handler(self, handler: H) -> (builder: Self)
        ensures
            builder == (DeleteBuilder { custom_execute_handler: Some(handler), ..self }),
    {
        let mut builder = self;
        builder.custom_execute_handler = Some(handler);
        builder
    }

    /// Whether to write deletion vectors
    pub fn with_deletion_vectors(self, deletion_vectors: bool) -> (builder: Self)
        ensures
            builder == (DeleteBuilder { deletion_vectors, ..self }),
    {
        let mut builder = self;
        builder.deletion_vectors = deletion_vectors;
        builder
    }
}

/// Metrics for the Delete Operation
#[derive(Debug, Clone, Copy, PartialEq, Eq, Structural)]
pub struct DeleteMetrics {
    /// Number of files added
    pub num_added_files: usize,
    /// Number of files removed
    pub num_removed_files: usize,
    /// Number of rows removed
    pub num_deleted_rows: usize,
    /// Number of rows copied in the process of deleting files
    pub num_copied_rows: usize,
    /// Time taken to execute the entire operation
    pub execution_time_ms: u64,
    /// Time taken to scan the file for matches
    pub scan_time_ms: u64,
    /// Time taken to rewrite the matched files
    pub rewrite_time_ms: u64,
}

impl Default for DeleteMetrics {
    fn default() -> (metrics: Self)
        ensures
            metrics == (DeleteMetrics {
                num_added_files: 0,
                num_removed_files: 0,
                num_deleted_rows: 0,
                num_copied_rows: 0,
                execution_time_ms: 0,
                scan_time_ms: 0,
                rewrite_time_ms: 0,
            }),
    {
        DeleteMetrics {
            num_added_files: 0,
            num_removed_files: 0,
            num_deleted_rows: 0,
            num_copied_rows: 0,
            execution_time_ms: 0,
            scan_time_ms: 0,
            rewrite_time_ms: 0,
        }
    }
}

} // verus!
