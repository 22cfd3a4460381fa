//! The batch: a columnar container holding N parsed records as N-length
//! parallel columns conforming to the schema or a projection of it,
//! immutable once built. The batch builder accumulates parsed records into
//! one such container.
use vstd::prelude::*;

use crate::parser::{record_views, views_of, LogRecord, RecordModel};
use crate::schema::{
    field_views, spec_log_fields, spec_project_fields, ColumnType, Field, FieldModel, Schema,
};
use crate::DataFusionLogError;

verus! {

/// One column of a batch, as parallel plain values.
#[derive(Debug, PartialEq, Eq)]
pub enum Column {
    /// Microsecond timestamps since the Unix epoch.
    TimestampMicros(Vec<i64>),
    /// Text values.
    Utf8(Vec<String>),
}

/// The model of a column.
pub enum ColumnModel {
    TimestampMicros(Seq<i64>),
    Utf8(Seq<Seq<char>>),
}

impl View for Column {
    type V = ColumnModel;

    open spec fn view(&self) -> ColumnModel {
        match self {
            Column::TimestampMicros(v) => ColumnModel::TimestampMicros(v@),
            Column::Utf8(v) => ColumnModel::Utf8(views_of(v@)),
        }
    }
}

/// The number of values a column holds.
pub open spec fn column_len(c: ColumnModel) -> nat {
    match c {
        ColumnModel::TimestampMicros(v) => v.len(),
        ColumnModel::Utf8(v) => v.len(),
    }
}

/// Whether a column carries values of the given field type.
pub open spec fn column_matches(c: ColumnModel, t: ColumnType) -> bool {
    match c {
        ColumnModel::TimestampMicros(_) => t == ColumnType::TimestampMicrosecond,
        ColumnModel::Utf8(_) => t == ColumnType::Utf8,
    }
}

impl Column {
    /// The number of values in the column.
    pub fn len(&self) -> (r: usize)
        ensures
            r == column_len(self@),
    {
        match self {
            Column::TimestampMicros(v) => v.len(),
            Column::Utf8(v) => v.len(),
        }
    }

    /// An owned copy of the column.
    pub fn duplicate(&self) -> (r: Column)
        ensures
            r@ == self@,
    {
        match self {
            Column::TimestampMicros(v) => {
                let mut w: Vec<i64> = Vec::new();
                let mut i: usize = 0;
                while i < v.len()
                    invariant
                        i <= v@.len(),
                        w@ == v@.subrange(0, i as int),
                    decreases v@.len() - i,
                {
                    w.push(v[i]);
                    proof {
                        assert(w@ =~= v@.subrange(0, i + 1));
                    }
                    i = i + 1;
                }
                proof {
                    assert(w@ =~= v@);
                }
                Column::TimestampMicros(w)
            },
            Column::Utf8(v) => {
                let mut w: Vec<String> = Vec::new();
                let mut i: usize = 0;
                while i < v.len()
                    invariant
                        i <= v@.len(),
                        w@.len() == i,
                        forall|k: int| 0 <= k < i ==> w@[k]@ == v@[k]@,
                    decreases v@.len() - i,
                {
                    w.push(v[i].clone());
                    i = i + 1;
                }
                proof {
                    assert(views_of(w@) =~= views_of(v@));
                }
                Column::Utf8(w)
            },
        }
    }
}

/// The models of a sequence of columns.
pub open spec fn column_views(cs: Seq<Column>) -> Seq<ColumnModel> {
    cs.map_values(|c: Column| c@)
}

/// The model of a batch: field models and column models, side by side.
pub struct BatchModel {
    pub fields: Seq<FieldModel>,
    pub columns: Seq<ColumnModel>,
}

/// The number of rows of a batch: the length of its first column.
pub open spec fn batch_rows(b: BatchModel) -> nat {
    if b.columns.len() == 0 {
        0
    } else {
        column_len(b.columns[0])
    }
}

/// Well-formedness of a batch: one column per field, each column of its
/// field's type, all columns of the same length.
pub open spec fn batch_wf(b: BatchModel) -> bool {
    &&& b.fields.len() == b.columns.len()
    &&& forall|i: int|
        0 <= i < b.columns.len() ==> column_matches(b.columns[i], b.fields[i].column_type)
    &&& forall|i: int| 0 <= i < b.columns.len() ==> column_len(b.columns[i]) == batch_rows(b)
}

/// The batch the full schema assigns to a sequence of records: one row per
/// record, columns in schema order.
pub open spec fn full_batch(records: Seq<RecordModel>) -> BatchModel {
    BatchModel {
        fields: spec_log_fields(),
        columns: seq![
            ColumnModel::TimestampMicros(records.map_values(|r: RecordModel| r.time_micros)),
            ColumnModel::Utf8(records.map_values(|r: RecordModel| r.level)),
            ColumnModel::Utf8(records.map_values(|r: RecordModel| r.location)),
            ColumnModel::Utf8(records.map_values(|r: RecordModel| r.message)),
        ],
    }
}

/// The projection of a batch by `indices`: the selected fields and their
/// columns, in the requested order.
pub open spec fn spec_project_batch(b: BatchModel, indices: Seq<usize>) -> BatchModel {
    BatchModel {
        fields: spec_project_fields(b.fields, indices),
        columns: indices.map_values(|i: usize| b.columns[i as int]),
    }
}

/// A columnar batch: the unit of result transfer to the host engine.
#[derive(Debug, PartialEq, Eq)]
pub struct LogBatch {
    pub fields: Vec<Field>,
    pub columns: Vec<Column>,
}

impl View for LogBatch {
    type V = BatchModel;

    open spec fn view(&self) -> BatchModel {
        BatchModel { fields: field_views(self.fields@), columns: column_views(self.columns@) }
    }
}

impl LogBatch {
    /// The number of columns.
    pub fn num_columns(&self) -> (r: usize)
        ensures
            r == self@.columns.len(),
    {
        self.columns.len()
    }

    /// The number of rows.
    pub fn num_rows(&self) -> (r: usize)
        ensures
            r == batch_rows(self@),
    {
        if self.columns.len() == 0 {
            0
        } else {
            self.columns[0].len()
        }
    }

    /// The schema the batch conforms to.
    pub fn schema(&self) -> (r: Schema)
        ensures
            r@ == self@.fields,
    {
        let mut fields: Vec<Field> = Vec::new();
        let mut i: usize = 0;
        while i < self.fields.len()
            invariant
                i <= self.fields@.len(),
                fields@.len() == i,
                forall|k: int| 0 <= k < i ==> fields@[k]@ == self.fields@[k]@,
            decreases self.fields@.len() - i,
        {
            fields.push(self.fields[i].duplicate());
            i = i + 1;
        }
        let s = Schema { fields };
        proof {
            assert(s@ =~= self@.fields);
        }
        s
    }

    /// Accumulates parsed records into one batch conforming to the full
    /// log schema: one row per record, in order.
    pub fn from_records(records: &Vec<LogRecord>) -> (r: LogBatch)
        ensures
            r@ == full_batch(record_views(records@)),
            batch_wf(r@),
    {
        let mut times: Vec<i64> = Vec::new();
        let mut levels: Vec<String> = Vec::new();
        let mut locations: Vec<String> = Vec::new();
        let mut messages: Vec<String> = Vec::new();
        let mut i: usize = 0;
        while i < records.len()
            invariant
                i <= records@.len(),
                times@.len() == i,
                levels@.len() == i,
                locations@.len() == i,
                messages@.len() == i,
                forall|k: int| 0 <= k < i ==> times@[k] == records@[k]@.time_micros,
                forall|k: int| 0 <= k < i ==> levels@[k]@ == records@[k]@.level,
                forall|k: int| 0 <= k < i ==> locations@[k]@ == records@[k]@.location,
                forall|k: int| 0 <= k < i ==> messages@[k]@ == records@[k]@.message,
            decreases records@.len() - i,
        {
            let rec = &records[i];
            times.push(rec.time_micros);
            levels.push(rec.level.clone());
            locations.push(rec.location.clone());
            messages.push(rec.message.clone());
            i = i + 1;
        }
        let batch = LogBatch {
            fields: Schema::log_schema().fields,
            columns: vec![
                Column::TimestampMicros(times),
                Column::Utf8(levels),
                Column::Utf8(locations),
                Column::Utf8(messages),
            ],
        };
        proof {
            let rs = record_views(records@);
            assert(times@ =~= rs.map_values(|r: RecordModel| r.time_micros));
            assert(views_of(levels@) =~= rs.map_values(|r: RecordModel| r.level));
            assert(views_of(locations@) =~= rs.map_values(|r: RecordModel| r.location));
            assert(views_of(messages@) =~= rs.map_values(|r: RecordModel| r.message));
            assert(batch@.fields =~= full_batch(rs).fields);
            assert(batch@.columns =~= full_batch(rs).columns);
        }
        batch
    }

    /// Selects an ordered subset of the columns and their fields. Fails
    /// with `SchemaMismatch`, carrying the first offending index, when an
    /// index references no column of the batch.
    pub fn project(&self, indices: &Vec<usize>) -> (r: Result<LogBatch, DataFusionLogError>)
        requires
            self@.fields.len() == self@.columns.len(),
        ensures
            r matches Ok(b) ==> b@ == spec_project_batch(self@, indices@),
            r matches Ok(b) ==> (batch_wf(self@) ==> batch_wf(b@)),
            r matches Err(e) ==> (exists|k: int|
                0 <= k < indices@.len() && indices@[k] >= self@.columns.len() && (e matches
                DataFusionLogError::SchemaMismatch { index } && index == indices@[k])),
            r is Ok <==> (forall|k: int|
                0 <= k < indices@.len() ==> indices@[k] < self@.columns.len()),
    {
        let mut fields: Vec<Field> = Vec::new();
        let mut columns: Vec<Column> = Vec::new();
        let mut i: usize = 0;
        while i < indices.len()
            invariant
                self@.fields.len() == self@.columns.len(),
                i <= indices@.len(),
                fields@.len() == i,
                columns@.len() == i,
                forall|j: int| 0 <= j < i ==> indices@[j] < self@.columns.len(),
                forall|k: int| 0 <= k < i ==> fields@[k]@ == self@.fields[indices@[k] as int],
                forall|k: int| 0 <= k < i ==> columns@[k]@ == self@.columns[indices@[k] as int],
            decreases indices@.len() - i,
        {
            let ix = indices[i];
            if ix >= self.columns.len() {
                return Err(DataFusionLogError::SchemaMismatch { index: ix });
            }
            fields.push(self.fields[ix].duplicate());
            columns.push(self.columns[ix].duplicate());
            i = i + 1;
        }
        let b = LogBatch { fields, columns };
        proof {
            assert(b@.fields =~= spec_project_batch(self@, indices@).fields);
            assert(b@.columns =~= spec_project_batch(self@, indices@).columns);
        }
        Ok(b)
    }
}

} // verus!
