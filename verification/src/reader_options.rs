//! The configuration record accepted at registration: plain named fields
//! with documented defaults, constructed with defaults and overridden per
//! field.
use vstd::prelude::*;
use vstd::string::*;

use crate::schema::{ColumnType, Schema};

verus! {

/// Options accepted when a log table is registered. The baseline accepts
/// all of them without honoring every one: `file_extension` selects input
/// files, `table_partition_cols` is reserved for future
/// directory-partitioned sources, and `minimum_level` is a filter hint.
#[derive(Debug)]
pub struct LogReaderOptions {
    /// The data source schema, when the caller supplies one.
    pub schema: Option<Schema>,
    /// Only files with this extension are selected for data input.
    pub file_extension: String,
    /// Partition columns for future directory-partitioned sources.
    pub table_partition_cols: Vec<(String, ColumnType)>,
    /// A minimum level filter hint.
    pub minimum_level: String,
}

impl Default for LogReaderOptions {
    /// The documented defaults: no schema, extension `.log`, no partition
    /// columns, level hint `info`.
    fn default() -> (r: Self)
        ensures
            r.schema is None,
            r.file_extension@ == ".log"@,
            r.table_partition_cols@.len() == 0,
            r.minimum_level@ == "info"@,
    {
        LogReaderOptions {
            schema: None,
            file_extension: String::from_str(".log"),
            table_partition_cols: Vec::new(),
            minimum_level: String::from_str("info"),
        }
    }
}

impl LogReaderOptions {
    /// Specify partition columns for partition pruning.
    pub fn table_partition_cols(self, table_partition_cols: Vec<(String, ColumnType)>) -> (r: Self)
        ensures
            r.table_partition_cols == table_partition_cols,
            r.schema == self.schema,
            r.file_extension == self.file_extension,
            r.minimum_level == self.minimum_level,
    {
        LogReaderOptions {
            schema: self.schema,
            file_extension: self.file_extension,
            table_partition_cols,
            minimum_level: self.minimum_level,
        }
    }

    /// Specify the schema.
    pub fn schema(self, schema: &Schema) -> (r: Self)
        ensures
            r.schema matches Some(s) && s@ == schema@,
            r.file_extension == self.file_extension,
            r.table_partition_cols == self.table_partition_cols,
            r.minimum_level == self.minimum_level,
    {
        LogReaderOptions {
            schema: Some(schema.duplicate()),
            file_extension: self.file_extension,
            table_partition_cols: self.table_partition_cols,
            minimum_level: self.minimum_level,
        }
    }
}

} // verus!
