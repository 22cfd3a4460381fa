//! The relation adapter: exposes one log file as a base table to the host
//! engine — schema exposure, capability declarations, and plan construction
//! from the optimizer's projection, filter and limit hints.
use vstd::prelude::*;

use crate::execution_plan::LogExecutionPlan;
use crate::schema::{spec_log_fields, Schema};
use crate::{DataFusionLogError, LogReader};

verus! {

/// The kind of relation a data source exposes.
#[derive(Debug, Clone, Copy, PartialEq, Eq, Structural)]
pub enum TableType {
    /// An ordinary physical table.
    Base,
    /// A non-materialized view.
    View,
    /// A transient table.
    Temporary,
}

/// How far a filter expression pushed down to a source is applied by the
/// source itself.
#[derive(Debug, Clone, Copy, PartialEq, Eq, Structural)]
pub enum FilterPushDown {
    /// The source applies the filter fully: the host engine need not
    /// re-check it.
    Exact,
    /// The source applies the filter only partially or not at all: the
    /// host engine must re-apply it to the returned rows.
    Inexact,
    /// The source cannot use the filter at all.
    Unsupported,
}

/// The data source of one registered log table: its name, its path, and
/// the shared read-only relation handle.
#[derive(Debug)]
pub struct LogDataSource {
    pub name: String,
    pub path: String,
    pub reader: LogReader,
}

impl LogDataSource {
    /// Everything the adapter promises rests on its reader carrying the
    /// fixed log schema.
    pub open spec fn wf(&self) -> bool {
        self.reader.wf()
    }

    /// Builds the data source of table `table_name` over the file at
    /// `table_path`. Fails with `NotFound` when the path does not
    /// reference an existing file.
    pub fn new(table_name: &str, table_path: &str) -> (r: Result<
        LogDataSource,
        DataFusionLogError,
    >)
        ensures
            r matches Ok(ds) ==> ds.wf() && ds.name@ == table_name@ && ds.path@ == table_path@
                && ds.reader.path@ == table_path@,
            r matches Err(e) ==> (e matches DataFusionLogError::NotFound { path: p } && p@
                == table_path@),
    {
        let reader = match LogReader::new(table_path) {
            Ok(reader) => reader,
            Err(e) => {
                return Err(e);
            },
        };
        Ok(LogDataSource { name: table_name.to_owned(), path: table_path.to_owned(), reader })
    }

    /// An owned copy of the data source.
    pub fn duplicate(&self) -> (r: LogDataSource)
        ensures
            r.name@ == self.name@,
            r.path@ == self.path@,
            r.reader.path@ == self.reader.path@,
            r.reader.schema@ == self.reader.schema@,
    {
        LogDataSource {
            name: self.name.clone(),
            path: self.path.clone(),
            reader: self.reader.duplicate(),
        }
    }

    /// The fixed four-field schema of the relation; pure, no I/O,
    /// regardless of file contents.
    pub fn schema(&self) -> (r: Schema)
        requires
            self.wf(),
        ensures
            r@ == spec_log_fields(),
    {
        self.reader.schema()
    }

    /// A log table is a base table, not a view.
    pub fn table_type(&self) -> (r: TableType)
        ensures
            r == TableType::Base,
    {
        TableType::Base
    }

    /// Declares every one of the `num_filters` candidate filters as
    /// inexact: this source never evaluates predicates against row content
    /// before emission, so the host engine must still apply each filter
    /// itself after receiving the rows.
    pub fn supports_filters_pushdown(&self, num_filters: usize) -> (r: Vec<FilterPushDown>)
        ensures
            r@.len() == num_filters,
            forall|k: int| 0 <= k < num_filters ==> r@[k] == FilterPushDown::Inexact,
    {
        let mut v: Vec<FilterPushDown> = Vec::new();
        let mut i: usize = 0;
        while i < num_filters
            invariant
                i <= num_filters,
                v@.len() == i,
                forall|k: int| 0 <= k < i ==> v@[k] == FilterPushDown::Inexact,
            decreases num_filters - i,
        {
            v.push(FilterPushDown::Inexact);
            i = i + 1;
        }
        v
    }

    /// Obtains an execution plan for the optimizer's hints. The projection
    /// scopes the plan; the filters (already declared inexact) and the
    /// limit are accepted but do not reduce the work in this baseline: the
    /// plan still reads and parses the entire file, and the host engine
    /// post-filters and post-limits. Fails with `SchemaMismatch` when the
    /// projection references a field absent from the schema.
    pub fn scan(&self, projection: Option<&Vec<usize>>, limit: Option<usize>) -> (r: Result<
        LogExecutionPlan,
        DataFusionLogError,
    >)
        requires
            self.wf(),
        ensures
            r matches Ok(p) ==> p.wf() && p.db.name@ == self.name@ && p.db.path@ == self.path@
                && p.db.reader.path@ == self.reader.path@ && (match projection {
                Some(ix) => p.projection matches Some(ix2) && ix2@ == ix@,
                None => p.projection is None,
            }),
            r matches Err(e) ==> (e matches DataFusionLogError::SchemaMismatch { index: _ }),
            r is Ok <==> (match projection {
                Some(ix) => forall|k: int| 0 <= k < ix@.len() ==> ix@[k] < spec_log_fields().len(),
                None => true,
            }),
    {
        let _ = limit;
        let schema = self.schema();
        self.create_physical_plan(projection, &schema)
    }

    /// Constructs the physical plan of one scan over this source.
    pub fn create_physical_plan(&self, projections: Option<&Vec<usize>>, schema: &Schema) -> (r:
        Result<LogExecutionPlan, DataFusionLogError>)
        requires
            self.wf(),
            schema@ == spec_log_fields(),
        ensures
            r matches Ok(p) ==> p.wf() && p.db.name@ == self.name@ && p.db.path@ == self.path@
                && p.db.reader.path@ == self.reader.path@ && (match projections {
                Some(ix) => p.projection matches Some(ix2) && ix2@ == ix@,
                None => p.projection is None,
            }),
            r matches Err(e) ==> (e matches DataFusionLogError::SchemaMismatch { index: _ }),
            r is Ok <==> (match projections {
                Some(ix) => forall|k: int| 0 <= k < ix@.len() ==> ix@[k] < spec_log_fields().len(),
                None => true,
            }),
    {
        LogExecutionPlan::new(projections, schema, self.duplicate())
    }
}

} // verus!
