//! The machine-readable error codes.

use vstd::prelude::*;

verus! {

/// A required field is missing or a value has the wrong type.
pub const VALIDATION_ERROR: &'static str = "VALIDATION_ERROR";

/// No row has the given id.
pub const NOT_FOUND: &'static str = "NOT_FOUND";

/// A schema, or a stored row, could not be read.
pub const SCHEMA_ERROR: &'static str = "SCHEMA_ERROR";

/// The database reported an error.
pub const STORAGE_ERROR: &'static str = "STORAGE_ERROR";

/// A file could not be read or written.
pub const IO_ERROR: &'static str = "IO_ERROR";

/// The configuration is incomplete or contradictory.
pub const CONFIG_ERROR: &'static str = "CONFIG_ERROR";

/// No table of that name is mounted.
pub const TABLE_NOT_FOUND: &'static str = "TABLE_NOT_FOUND";

/// The `table` argument was left out where several tables are mounted.
pub const TABLE_REQUIRED: &'static str = "TABLE_REQUIRED";

/// The table that was to be created already has a schema.
pub const SCHEMA_EXISTS: &'static str = "SCHEMA_EXISTS";

/// A backup could not be written.
pub const BACKUP_ERROR: &'static str = "BACKUP_ERROR";

/// A snapshot could not be written.
pub const SNAPSHOT_ERROR: &'static str = "SNAPSHOT_ERROR";

/// A batch was given up because of the op at `op_index`.
pub const BATCH_ABORTED: &'static str = "BATCH_ABORTED";

/// The destination of an export is not an absolute path.
pub const MATERIALIZE_DEST_RELATIVE: &'static str = "MATERIALIZE_DEST_RELATIVE";

/// The destination of an export cannot be used.
pub const MATERIALIZE_DEST_INVALID: &'static str = "MATERIALIZE_DEST_INVALID";

/// An exported file could not be written.
pub const MATERIALIZE_IO_ERROR: &'static str = "MATERIALIZE_IO_ERROR";

/// The digest of an exported file could not be computed.
pub const MATERIALIZE_SHA256_ERROR: &'static str = "MATERIALIZE_SHA256_ERROR";

/// The row that was to be exported does not exist.
pub const MATERIALIZE_ROW_NOT_FOUND: &'static str = "MATERIALIZE_ROW_NOT_FOUND";

/// The filter of an export matches no row.
pub const MATERIALIZE_EMPTY_RESULT: &'static str = "MATERIALIZE_EMPTY_RESULT";

/// A row could not be rendered in the requested format.
pub const MATERIALIZE_FORMAT_ERROR: &'static str = "MATERIALIZE_FORMAT_ERROR";

/// An exported field is not in the schema.
pub const MATERIALIZE_FIELD_UNKNOWN: &'static str = "MATERIALIZE_FIELD_UNKNOWN";

/// The parameters of an export contradict each other.
pub const MATERIALIZE_INVALID_PARAM: &'static str = "MATERIALIZE_INVALID_PARAM";

/// No query alias has the given name.
pub const ALIAS_NOT_FOUND: &'static str = "ALIAS_NOT_FOUND";

/// A query alias of that name exists already.
pub const ALIAS_ALREADY_EXISTS: &'static str = "ALIAS_ALREADY_EXISTS";

/// A query alias needs parameters and none were given.
pub const ALIAS_PARAMS_REQUIRED: &'static str = "ALIAS_PARAMS_REQUIRED";

/// The template of a query alias could not be rendered.
pub const ALIAS_TEMPLATE_ERROR: &'static str = "ALIAS_TEMPLATE_ERROR";

/// An id prefix fits more than one row.
pub const AMBIGUOUS_ID: &'static str = "AMBIGUOUS_ID";

} // verus!
