pub mod batch;
pub mod datasource;
pub mod execution_plan;
pub mod parser;
pub mod reader_options;
pub mod schema;

use vstd::prelude::*;
use vstd::string::*;

use crate::batch::LogBatch;
use crate::parser::spec_parse_text;
use crate::schema::{spec_log_fields, Schema};

verus! {

/// The error taxonomy of the log relation.
///
/// Every failure is a recoverable value handed back to the caller; no
/// function of this library panics.
#[derive(Debug, PartialEq, Eq)]
pub enum DataFusionLogError {
    /// The registration path does not reference an existing file.
    NotFound { path: String },
    /// Reading the file failed during a scan.
    Io { detail: String },
    /// A line does not match the expected token shape, or its timestamp
    /// cannot be parsed. The offending line is carried along.
    Format { line: String },
    /// A requested projection index references a field absent from the
    /// schema: a caller-contract violation reported as an input error.
    SchemaMismatch { index: usize },
}

impl DataFusionLogError {
    /// A human-readable description of the error.
    pub fn message(&self) -> (r: String)
        ensures
            match self {
                DataFusionLogError::NotFound { path } => r@ == "path does not exist: "@ + path@,
                DataFusionLogError::Io { detail } => r@ == "io error: "@ + detail@,
                DataFusionLogError::Format { line } => r@ == "line does not match expected shape: "@
                    + line@,
                DataFusionLogError::SchemaMismatch { index } => r@
                    == "projection index out of range"@,
            },
    {
        match self {
            DataFusionLogError::NotFound { path } => String::from_str("path does not exist: ").concat(
                path.as_str(),
            ),
            DataFusionLogError::Io { detail } => String::from_str("io error: ").concat(
                detail.as_str(),
            ),
            DataFusionLogError::Format { line } => String::from_str(
                "line does not match expected shape: ",
            ).concat(line.as_str()),
            DataFusionLogError::SchemaMismatch { index: _ } => String::from_str(
                "projection index out of range",
            ),
        }
    }
}

/// Relies on `std::path::Path::is_file`: whether the path points at an
/// existing regular file. The answer depends on the state of the disk, so
/// nothing is promised of it.
#[verifier::external_body]
fn path_is_file(path: &str) -> bool {
    std::path::Path::new(path).is_file()
}

/// What a successful read of the given file contents returns: the batch of
/// the records of every non-empty line, under the full log schema.
pub open spec fn read_all_ok(contents: Seq<char>, b: batch::BatchModel) -> bool {
    spec_parse_text(contents) matches Ok(rs) && b == batch::full_batch(rs)
}

/// What a failed read of the given file contents returns: a format error
/// carrying the first malformed line.
pub open spec fn read_all_err(contents: Seq<char>, e: DataFusionLogError) -> bool {
    spec_parse_text(contents) matches Err(i) && (e matches DataFusionLogError::Format { line }
        && line@ == parser::lines_of(contents)[i])
}

/// Law: reading is idempotent. What a read returns is a function of the
/// file contents alone, so two successive reads of an unmodified file
/// produce batches with identical fields, column values and row count.
pub proof fn lemma_read_all_idempotent(
    contents: Seq<char>,
    b1: batch::BatchModel,
    b2: batch::BatchModel,
)
    requires
        read_all_ok(contents, b1),
        read_all_ok(contents, b2),
    ensures
        b1 == b2,
{
}

/// Law: on well-formed contents, the row count of the batch a read
/// returns equals the number of non-empty lines of the text.
pub proof fn lemma_read_all_row_count(contents: Seq<char>, b: batch::BatchModel)
    requires
        read_all_ok(contents, b),
    ensures
        batch::batch_rows(b) == parser::count_nonempty(parser::lines_of(contents)),
{
    parser::lemma_rows_are_nonempty_lines(contents);
}

/// The relation handle: the file path and the fixed schema. Created once at
/// registration time, immutable afterwards, shared read-only by every
/// execution plan derived from it; no file handle is held open between
/// scans.
#[derive(Debug)]
pub struct LogReader {
    pub path: String,
    pub schema: Schema,
}

impl LogReader {
    /// The schema a reader carries is the fixed log schema.
    pub open spec fn wf(&self) -> bool {
        self.schema@ == spec_log_fields()
    }

    /// Builds a reader for `path`. Fails with `NotFound` when the path does
    /// not reference an existing file; never panics. The schema is fixed,
    /// independent of the file contents — nothing is inferred from data.
    pub fn new(path: &str) -> (r: Result<LogReader, DataFusionLogError>)
        ensures
            r matches Ok(reader) ==> reader.wf() && reader.path@ == path@,
            r matches Err(e) ==> (e matches DataFusionLogError::NotFound { path: p } && p@
                == path@),
    {
        if !path_is_file(path) {
            return Err(DataFusionLogError::NotFound { path: path.to_owned() });
        }
        Ok(LogReader { path: path.to_owned(), schema: Schema::log_schema() })
    }

    /// The fixed four-field schema of the relation, regardless of file
    /// contents.
    pub fn schema(&self) -> (r: Schema)
        requires
            self.wf(),
        ensures
            r@ == spec_log_fields(),
    {
        self.schema.duplicate()
    }

    /// An owned copy of the reader.
    pub fn duplicate(&self) -> (r: LogReader)
        ensures
            r.path@ == self.path@,
            r.schema@ == self.schema@,
    {
        LogReader { path: self.path.clone(), schema: self.schema.duplicate() }
    }

    /// Drives every line of `contents` — the text of the file at
    /// `self.path`, which the caller re-reads from storage on every
    /// invocation; nothing is cached here — through the line parser and
    /// the batch builder. Returns one batch with one row per non-empty
    /// line, or the first format error, carrying the offending line
    /// (fail-fast).
    pub fn read_all(&self, contents: &str) -> (r: Result<LogBatch, DataFusionLogError>)
        ensures
            r matches Ok(b) ==> read_all_ok(contents@, b@) && batch::batch_wf(b@),
            r matches Err(e) ==> read_all_err(contents@, e),
            r is Ok <==> spec_parse_text(contents@) is Ok,
    {
        match parser::parse_text(contents) {
            Ok(recs) => Ok(LogBatch::from_records(&recs)),
            Err(e) => Err(e),
        }
    }
}

/// The restartable, finite lazy sequence of batches over one reader: it
/// yields exactly one batch — the whole file — and then signals end of
/// sequence. Restarting starts over from the beginning of the file; the
/// sequence is not a resumable cursor over a file position.
#[derive(Debug)]
pub struct LogBatchStream {
    pub reader: LogReader,
    pub exhausted: bool,
}

impl LogBatchStream {
    /// A fresh sequence over `reader`, positioned before its single item.
    pub fn new(reader: LogReader) -> (r: LogBatchStream)
        ensures
            r.reader == reader,
            !r.exhausted,
    {
        LogBatchStream { reader, exhausted: false }
    }

    /// One step of the sequence: on the first step, the one batch of the
    /// file (or its error); afterwards, end of sequence. `contents` is the
    /// text of the file, re-read by the caller on every step.
    pub fn next(&mut self, contents: &str) -> (r: Option<Result<LogBatch, DataFusionLogError>>)
        ensures
            final(self).reader == old(self).reader,
            final(self).exhausted,
            old(self).exhausted ==> r is None,
            !old(self).exhausted ==> match r {
                Some(item) => match item {
                    Ok(b) => read_all_ok(contents@, b@),
                    Err(e) => read_all_err(contents@, e),
                },
                None => false,
            },
    {
        if self.exhausted {
            return None;
        }
        self.exhausted = true;
        Some(self.reader.read_all(contents))
    }

    /// Restarts the sequence: the next step re-reads the whole file from
    /// the beginning.
    pub fn restart(&mut self)
        ensures
            final(self).reader == old(self).reader,
            !final(self).exhausted,
    {
        self.exhausted = false;
    }
}

} // verus!


