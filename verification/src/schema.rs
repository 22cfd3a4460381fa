//! The schema of the log relation: a pure, equality-comparable value of four
//! fixed fields, with projection as a subset-and-reorder operation.
use vstd::prelude::*;

use crate::DataFusionLogError;

verus! {

/// The type of one column of the relation.
#[derive(Debug, Clone, Copy, PartialEq, Eq, Structural)]
pub enum ColumnType {
    /// A timestamp with microsecond precision.
    TimestampMicrosecond,
    /// UTF-8 text.
    Utf8,
}

/// The model of a field: its name characters, type and nullability.
pub struct FieldModel {
    pub name: Seq<char>,
    pub column_type: ColumnType,
    pub nullable: bool,
}

/// One named, typed field of the schema.
#[derive(Debug, PartialEq, Eq)]
pub struct Field {
    pub name: String,
    pub column_type: ColumnType,
    pub nullable: bool,
}

impl View for Field {
    type V = FieldModel;

    open spec fn view(&self) -> FieldModel {
        FieldModel { name: self.name@, column_type: self.column_type, nullable: self.nullable }
    }
}

impl Field {
    /// Builds a field.
    pub fn new(name: &str, column_type: ColumnType, nullable: bool) -> (r: Field)
        ensures
            r@ == (FieldModel { name: name@, column_type, nullable }),
    {
        Field { name: name.to_owned(), column_type, nullable }
    }

    /// An owned copy of the field.
    pub fn duplicate(&self) -> (r: Field)
        ensures
            r@ == self@,
    {
        Field { name: self.name.clone(), column_type: self.column_type, nullable: self.nullable }
    }
}

/// The models of a sequence of fields.
pub open spec fn field_views(fs: Seq<Field>) -> Seq<FieldModel> {
    fs.map_values(|f: Field| f@)
}

/// The four fields of the log relation, in order: `time` (timestamps in
/// microseconds, not nullable), `level` (text, not nullable), `location`
/// (text, nullable) and `message` (text, nullable). Field order and
/// nullability never vary across reads.
pub open spec fn spec_log_fields() -> Seq<FieldModel> {
    seq![
        (FieldModel {
            name: "time"@,
            column_type: ColumnType::TimestampMicrosecond,
            nullable: false,
        }),
        (FieldModel { name: "level"@, column_type: ColumnType::Utf8, nullable: false }),
        (FieldModel { name: "location"@, column_type: ColumnType::Utf8, nullable: true }),
        (FieldModel { name: "message"@, column_type: ColumnType::Utf8, nullable: true }),
    ]
}

/// The projection of `fields` by `indices`: the selected fields, in the
/// requested order.
pub open spec fn spec_project_fields(fields: Seq<FieldModel>, indices: Seq<usize>) -> Seq<
    FieldModel,
> {
    indices.map_values(|i: usize| fields[i as int])
}

/// An ordered list of fields: the static description of the relation.
#[derive(Debug, PartialEq, Eq)]
pub struct Schema {
    pub fields: Vec<Field>,
}

impl View for Schema {
    type V = Seq<FieldModel>;

    open spec fn view(&self) -> Seq<FieldModel> {
        field_views(self.fields@)
    }
}

impl Schema {
    /// The fixed schema of the log relation, independent of file contents.
    pub fn log_schema() -> (r: Schema)
        ensures
            r@ == spec_log_fields(),
    {
        let mut fields: Vec<Field> = Vec::new();
        fields.push(Field::new("time", ColumnType::TimestampMicrosecond, false));
        fields.push(Field::new("level", ColumnType::Utf8, false));
        fields.push(Field::new("location", ColumnType::Utf8, true));
        fields.push(Field::new("message", ColumnType::Utf8, true));
        let s = Schema { fields };
        proof {
            assert(s@ =~= spec_log_fields());
        }
        s
    }

    /// The number of fields.
    pub fn num_fields(&self) -> (r: usize)
        ensures
            r == self@.len(),
    {
        self.fields.len()
    }

    /// Looks one field up by position. Asking for a position past the end
    /// is a caller contract violation.
    pub fn field(&self, i: usize) -> (r: &Field)
        requires
            i < self@.len(),
        ensures
            r@ == self@[i as int],
    {
        &self.fields[i]
    }

    /// An owned copy of the schema.
    pub fn duplicate(&self) -> (r: Schema)
        ensures
            r@ == self@,
    {
        let mut fields: Vec<Field> = Vec::new();
        let mut i: usize = 0;
        while i < self.fields.len()
            invariant
                i <= self.fields@.len(),
                fields@.len() == i,
                forall|k: int| 0 <= k < i ==> fields@[k]@ == self.fields@[k]@,
            decreases self.fields@.len() - i,
        {
            fields.push(self.fields[i].duplicate());
            i = i + 1;
        }
        let s = Schema { fields };
        proof {
            assert(s@ =~= self@);
        }
        s
    }

    /// Selects an ordered subset of the fields, preserving the requested
    /// order. Fails with `SchemaMismatch`, carrying the first offending
    /// index, when an index references no field of the schema.
    pub fn project(&self, indices: &Vec<usize>) -> (r: Result<Schema, DataFusionLogError>)
        ensures
            r matches Ok(s) ==> s@ == spec_project_fields(self@, indices@),
            r matches Err(e) ==> (exists|k: int|
                0 <= k < indices@.len() && indices@[k] >= self@.len() && (e matches
                DataFusionLogError::SchemaMismatch { index } && index == indices@[k]) && (forall|
                    j: int,
                |
                    0 <= j < k ==> indices@[j] < self@.len())),
            r is Ok <==> (forall|k: int| 0 <= k < indices@.len() ==> indices@[k] < self@.len()),
    {
        let mut fields: Vec<Field> = Vec::new();
        let mut i: usize = 0;
        while i < indices.len()
            invariant
                i <= indices@.len(),
                fields@.len() == i,
                forall|j: int| 0 <= j < i ==> indices@[j] < self@.len(),
                forall|k: int| 0 <= k < i ==> fields@[k]@ == self@[indices@[k] as int],
            decreases indices@.len() - i,
        {
            let ix = indices[i];
            if ix >= self.fields.len() {
                return Err(DataFusionLogError::SchemaMismatch { index: ix });
            }
            fields.push(self.fields[ix].duplicate());
            i = i + 1;
        }
        let s = Schema { fields };
        proof {
            assert(s@ =~= spec_project_fields(self@, indices@));
        }
        Ok(s)
    }
}

} // verus!
