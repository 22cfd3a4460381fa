//! The execution plan: the engine-facing execution contract of one log
//! scan. A plan is immutable once built — it holds the relation handle, the
//! requested projection and projected schema, and its static properties:
//! exactly one partition, bounded execution, no guaranteed output ordering.
use vstd::prelude::*;

use crate::batch::{full_batch, spec_project_batch, LogBatch};
use crate::datasource::LogDataSource;
use crate::parser::spec_parse_text;
use crate::schema::{spec_log_fields, spec_project_fields, Schema};
use crate::{read_all_err, DataFusionLogError};

verus! {

/// How a plan produces its result set.
#[derive(Debug, Clone, Copy, PartialEq, Eq, Structural)]
pub enum ExecutionMode {
    /// The full result size is known before production: not an open-ended
    /// stream.
    Bounded,
    /// An open-ended stream.
    Unbounded,
}

/// The static properties of a plan: its output schema, the number of
/// partitions, and the execution mode. A log scan guarantees no output
/// ordering, and is never partitioned.
#[derive(Debug)]
pub struct PlanProperties {
    pub schema: Schema,
    pub partition_count: usize,
    pub mode: ExecutionMode,
}

/// The execution plan of one log scan: a leaf operator without children.
#[derive(Debug)]
pub struct LogExecutionPlan {
    pub db: LogDataSource,
    pub projection: Option<Vec<usize>>,
    pub projected_schema: Schema,
    pub cache: PlanProperties,
}

impl LogExecutionPlan {
    /// Consistency of a built plan: the projection indices reference
    /// fields of the log schema, the projected schema is their selection,
    /// and the cached properties describe one bounded partition of that
    /// schema.
    pub open spec fn wf(&self) -> bool {
        &&& self.db.wf()
        &&& match self.projection {
            Some(ix) => (forall|k: int| 0 <= k < ix@.len() ==> ix@[k] < spec_log_fields().len())
                && self.projected_schema@ == spec_project_fields(spec_log_fields(), ix@),
            None => self.projected_schema@ == spec_log_fields(),
        }
        &&& self.cache.schema@ == self.projected_schema@
        &&& self.cache.partition_count == 1
        &&& self.cache.mode == ExecutionMode::Bounded
    }

    /// Builds a plan over `db`, scoped to the requested projection of
    /// `schema`. Fails with `SchemaMismatch` when the projection references
    /// a field absent from the schema.
    pub fn new(projections: Option<&Vec<usize>>, schema: &Schema, db: LogDataSource) -> (r: Result<
        LogExecutionPlan,
        DataFusionLogError,
    >)
        requires
            db.wf(),
            schema@ == spec_log_fields(),
        ensures
            r matches Ok(p) ==> p.wf() && p.db == db && (match projections {
                Some(ix) => p.projection matches Some(ix2) && ix2@ == ix@,
                None => p.projection is None,
            }),
            r matches Err(e) ==> (e matches DataFusionLogError::SchemaMismatch { index: _ }),
            r is Ok <==> (match projections {
                Some(ix) => forall|k: int| 0 <= k < ix@.len() ==> ix@[k] < spec_log_fields().len(),
                None => true,
            }),
    {
        let projected_schema = match projections {
            Some(ix) => match schema.project(ix) {
                Ok(s) => s,
                Err(e) => {
                    return Err(e);
                },
            },
            None => schema.duplicate(),
        };
        let projection: Option<Vec<usize>> = match projections {
            Some(ix) => Some(clone_indices(ix)),
            None => None,
        };
        let cache = Self::compute_properties(projected_schema.duplicate());
        Ok(LogExecutionPlan { db, projection, projected_schema, cache })
    }

    /// The static plan properties for an output schema: exactly one
    /// partition, bounded execution.
    pub fn compute_properties(schema: Schema) -> (r: PlanProperties)
        ensures
            r.schema@ == schema@,
            r.partition_count == 1,
            r.mode == ExecutionMode::Bounded,
    {
        PlanProperties { schema, partition_count: 1, mode: ExecutionMode::Bounded }
    }

    /// The display name of this plan kind.
    pub fn name(&self) -> (r: &'static str)
        ensures
            r@ == "LogExecutionPlan"@,
    {
        "LogExecutionPlan"
    }

    /// The output schema the plan produces: the projected schema.
    pub fn schema(&self) -> (r: Schema)
        ensures
            r@ == self.projected_schema@,
    {
        self.projected_schema.duplicate()
    }

    /// The cached static properties.
    pub fn properties(&self) -> (r: &PlanProperties)
        ensures
            *r == self.cache,
    {
        &self.cache
    }

    /// A leaf operator: no child plans.
    pub fn children(&self) -> (r: Vec<LogExecutionPlan>)
        ensures
            r@.len() == 0,
    {
        Vec::new()
    }

    /// Replacing the children of a leaf is a no-op returning the plan
    /// itself, since this plan has no inputs.
    pub fn with_new_children(self, new_children: Vec<LogExecutionPlan>) -> (r: Result<
        LogExecutionPlan,
        DataFusionLogError,
    >)
        ensures
            r matches Ok(p) && p == self,
    {
        let _ = new_children;
        Ok(self)
    }

    /// Produces the single batch of partition 0: reads and parses the
    /// entire file text `contents` (re-read by the caller on every
    /// invocation) and applies the requested column projection. Only one
    /// partition exists: any other partition index is a caller contract
    /// violation. Pushed-down filters and limit hints do not reduce the
    /// work: the whole file is read and parsed, and the host engine
    /// post-filters and post-limits.
    pub fn execute(&self, partition: usize, contents: &str) -> (r: Result<
        LogBatch,
        DataFusionLogError,
    >)
        requires
            self.wf(),
            partition == 0,
        ensures
            r is Ok <==> spec_parse_text(contents@) is Ok,
            r matches Ok(b) ==> (spec_parse_text(contents@) matches Ok(rs) && b@ == (
            match self.projection {
                Some(ix) => spec_project_batch(full_batch(rs), ix@),
                None => full_batch(rs),
            })),
            r matches Err(e) ==> read_all_err(contents@, e),
    {
        let batch = match self.db.reader.read_all(contents) {
            Ok(b) => b,
            Err(e) => {
                return Err(e);
            },
        };
        match &self.projection {
            Some(ix) => match batch.project(ix) {
                Ok(b) => Ok(b),
                Err(e) => {
                    proof {
                        assert(false);
                    }
                    Err(e)
                },
            },
            None => Ok(batch),
        }
    }
}

/// An owned copy of a projection index list.
fn clone_indices(v: &Vec<usize>) -> (r: Vec<usize>)
    ensures
        r@ == v@,
{
    let mut w: Vec<usize> = Vec::new();
    let mut i: usize = 0;
    while i < v.len()
        invariant
            i <= v@.len(),
            w@ == v@.subrange(0, i as int),
        decreases v@.len() - i,
    {
        w.push(v[i]);
        proof {
            assert(w@ =~= v@.subrange(0, i + 1));
        }
        i = i + 1;
    }
    proof {
        assert(w@ =~= v@);
    }
    w
}

} // verus!
