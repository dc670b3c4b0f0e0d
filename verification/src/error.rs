//! The one error type of the library: its codes, its texts, and the structured
//! data that a client gets to see.

use vstd::prelude::*;
use vstd::string::*;

use crate::json;
use crate::json::{JsonNumber, JsonObject, JsonValue};
use crate::json::JsonModel;
use crate::json::NumberModel;
use crate::text;

pub mod codes;

verus! {

broadcast use vstd::map::group_map_axioms;

/// What can go wrong.
#[derive(Debug, PartialEq, Eq)]
pub enum MiniAppError {
    /// A required field is missing or a value has the wrong type.
    Validation { field: String, reason: String },
    /// No row has the given id.
    NotFound { id: String },
    /// A schema, or a stored row, could not be read.
    Schema(String),
    /// The database reported an error.
    Storage(String),
    /// A file could not be read or written.
    Io(String),
    /// The configuration is incomplete or contradictory.
    Config(String),
    /// No table of that name is mounted.
    TableNotFound { table: String },
    /// The `table` argument was left out where several tables are mounted.
    TableRequired,
    /// The table that was to be created already has a schema.
    SchemaExists { table: String },
    /// A backup could not be written.
    Backup(String),
    /// A snapshot could not be written.
    Snapshot(String),
    /// A batch was given up because of the op at `op_index`.
    BatchAborted { op_index: usize, reason: String },
    /// The destination of an export is not an absolute path.
    MaterializeDestRelative { path: String },
    /// The destination of an export cannot be used.
    MaterializeDestInvalid { path: String, reason: String },
    /// An exported file could not be written.
    MaterializeIo(String),
    /// The digest of an exported file could not be computed.
    MaterializeSha256(String),
    /// The row that was to be exported does not exist.
    MaterializeRowNotFound { id: String },
    /// The filter of an export matches no row.
    MaterializeEmptyResult,
    /// A row could not be rendered in the requested format.
    MaterializeFormatError(String),
    /// An exported field is not in the schema.
    MaterializeFieldUnknown { field: String },
    /// The parameters of an export contradict each other.
    MaterializeInvalidParam { field: String, reason: String },
    /// No query alias has the given name.
    AliasNotFound { name: String },
    /// A query alias of that name exists already.
    AliasAlreadyExists { name: String },
    /// A query alias needs parameters and none were given.
    AliasParamsRequired { name: String },
    /// The template of a query alias could not be rendered.
    AliasTemplateError(String),
    /// An id prefix fits more than one row.
    AmbiguousId { id_prefix: String, candidates: Vec<String> },
}

/// What an error says, with texts as sequences of characters.
pub enum ErrorModel {
    Validation { field: Seq<char>, reason: Seq<char> },
    NotFound { id: Seq<char> },
    Schema(Seq<char>),
    Storage(Seq<char>),
    Io(Seq<char>),
    Config(Seq<char>),
    TableNotFound { table: Seq<char> },
    TableRequired,
    SchemaExists { table: Seq<char> },
    Backup(Seq<char>),
    Snapshot(Seq<char>),
    BatchAborted { op_index: int, reason: Seq<char> },
    MaterializeDestRelative { path: Seq<char> },
    MaterializeDestInvalid { path: Seq<char>, reason: Seq<char> },
    MaterializeIo(Seq<char>),
    MaterializeSha256(Seq<char>),
    MaterializeRowNotFound { id: Seq<char> },
    MaterializeEmptyResult,
    MaterializeFormatError(Seq<char>),
    MaterializeFieldUnknown { field: Seq<char> },
    MaterializeInvalidParam { field: Seq<char>, reason: Seq<char> },
    AliasNotFound { name: Seq<char> },
    AliasAlreadyExists { name: Seq<char> },
    AliasParamsRequired { name: Seq<char> },
    AliasTemplateError(Seq<char>),
    AmbiguousId { id_prefix: Seq<char>, candidates: Seq<Seq<char>> },
}

impl View for MiniAppError {
    type V = ErrorModel;

    open spec fn view(&self) -> ErrorModel {
        match self {
            MiniAppError::Validation { field, reason } => ErrorModel::Validation { field: field@, reason: reason@ },
            MiniAppError::NotFound { id } => ErrorModel::NotFound { id: id@ },
            MiniAppError::Schema(m) => ErrorModel::Schema(m@),
            MiniAppError::Storage(m) => ErrorModel::Storage(m@),
            MiniAppError::Io(m) => ErrorModel::Io(m@),
            MiniAppError::Config(m) => ErrorModel::Config(m@),
            MiniAppError::TableNotFound { table } => ErrorModel::TableNotFound { table: table@ },
            MiniAppError::TableRequired => ErrorModel::TableRequired,
            MiniAppError::SchemaExists { table } => ErrorModel::SchemaExists { table: table@ },
            MiniAppError::Backup(m) => ErrorModel::Backup(m@),
            MiniAppError::Snapshot(m) => ErrorModel::Snapshot(m@),
            MiniAppError::BatchAborted { op_index, reason } => ErrorModel::BatchAborted { op_index: *op_index as int, reason: reason@ },
            MiniAppError::MaterializeDestRelative { path } => ErrorModel::MaterializeDestRelative { path: path@ },
            MiniAppError::MaterializeDestInvalid { path, reason } => ErrorModel::MaterializeDestInvalid { path: path@, reason: reason@ },
            MiniAppError::MaterializeIo(m) => ErrorModel::MaterializeIo(m@),
            MiniAppError::MaterializeSha256(m) => ErrorModel::MaterializeSha256(m@),
            MiniAppError::MaterializeRowNotFound { id } => ErrorModel::MaterializeRowNotFound { id: id@ },
            MiniAppError::MaterializeEmptyResult => ErrorModel::MaterializeEmptyResult,
            MiniAppError::MaterializeFormatError(m) => ErrorModel::MaterializeFormatError(m@),
            MiniAppError::MaterializeFieldUnknown { field } => ErrorModel::MaterializeFieldUnknown { field: field@ },
            MiniAppError::MaterializeInvalidParam { field, reason } => ErrorModel::MaterializeInvalidParam { field: field@, reason: reason@ },
            MiniAppError::AliasNotFound { name } => ErrorModel::AliasNotFound { name: name@ },
            MiniAppError::AliasAlreadyExists { name } => ErrorModel::AliasAlreadyExists { name: name@ },
            MiniAppError::AliasParamsRequired { name } => ErrorModel::AliasParamsRequired { name: name@ },
            MiniAppError::AliasTemplateError(m) => ErrorModel::AliasTemplateError(m@),
            MiniAppError::AmbiguousId { id_prefix, candidates } => ErrorModel::AmbiguousId { id_prefix: id_prefix@, candidates: text::texts(candidates@) },
        }
    }
}

/// The code of an error.
pub open spec fn code_of(e: ErrorModel) -> Seq<char> {
    match e {
        ErrorModel::Validation { .. } => codes::VALIDATION_ERROR@,
        ErrorModel::NotFound { .. } => codes::NOT_FOUND@,
        ErrorModel::Schema(_) => codes::SCHEMA_ERROR@,
        ErrorModel::Storage(_) => codes::STORAGE_ERROR@,
        ErrorModel::Io(_) => codes::IO_ERROR@,
        ErrorModel::Config(_) => codes::CONFIG_ERROR@,
        ErrorModel::TableNotFound { .. } => codes::TABLE_NOT_FOUND@,
        ErrorModel::TableRequired => codes::TABLE_REQUIRED@,
        ErrorModel::SchemaExists { .. } => codes::SCHEMA_EXISTS@,
        ErrorModel::Backup(_) => codes::BACKUP_ERROR@,
        ErrorModel::Snapshot(_) => codes::SNAPSHOT_ERROR@,
        ErrorModel::BatchAborted { .. } => codes::BATCH_ABORTED@,
        ErrorModel::MaterializeDestRelative { .. } => codes::MATERIALIZE_DEST_RELATIVE@,
        ErrorModel::MaterializeDestInvalid { .. } => codes::MATERIALIZE_DEST_INVALID@,
        ErrorModel::MaterializeIo(_) => codes::MATERIALIZE_IO_ERROR@,
        ErrorModel::MaterializeSha256(_) => codes::MATERIALIZE_SHA256_ERROR@,
        ErrorModel::MaterializeRowNotFound { .. } => codes::MATERIALIZE_ROW_NOT_FOUND@,
        ErrorModel::MaterializeEmptyResult => codes::MATERIALIZE_EMPTY_RESULT@,
        ErrorModel::MaterializeFormatError(_) => codes::MATERIALIZE_FORMAT_ERROR@,
        ErrorModel::MaterializeFieldUnknown { .. } => codes::MATERIALIZE_FIELD_UNKNOWN@,
        ErrorModel::MaterializeInvalidParam { .. } => codes::MATERIALIZE_INVALID_PARAM@,
        ErrorModel::AliasNotFound { .. } => codes::ALIAS_NOT_FOUND@,
        ErrorModel::AliasAlreadyExists { .. } => codes::ALIAS_ALREADY_EXISTS@,
        ErrorModel::AliasParamsRequired { .. } => codes::ALIAS_PARAMS_REQUIRED@,
        ErrorModel::AliasTemplateError(_) => codes::ALIAS_TEMPLATE_ERROR@,
        ErrorModel::AmbiguousId { .. } => codes::AMBIGUOUS_ID@,
    }
}

/// The text of an error.
pub open spec fn message_of(e: ErrorModel) -> Seq<char> {
    match e {
        ErrorModel::Validation { field, reason } => "validation error on field '"@ + field + "': "@ + reason,
        ErrorModel::NotFound { id } => "row not found: "@ + id,
        ErrorModel::Schema(m) => "schema parse error: "@ + m,
        ErrorModel::Storage(m) => "storage error: "@ + m,
        ErrorModel::Io(m) => "io error: "@ + m,
        ErrorModel::Config(m) => "config error: "@ + m,
        ErrorModel::TableNotFound { table } => "table not found: "@ + table,
        ErrorModel::TableRequired => "table argument is required in multi-table mode"@,
        ErrorModel::SchemaExists { table } => "schema already exists: "@ + table,
        ErrorModel::Backup(m) => "backup error: "@ + m,
        ErrorModel::Snapshot(m) => "snapshot error: "@ + m,
        ErrorModel::BatchAborted { op_index, reason } => "batch aborted at op #"@ + text::decimal(op_index as nat) + ": "@ + reason,
        ErrorModel::MaterializeDestRelative { path } => "materialize dest must be absolute: "@ + path,
        ErrorModel::MaterializeDestInvalid { path, reason } => "materialize dest invalid '"@ + path + "': "@ + reason,
        ErrorModel::MaterializeIo(m) => "materialize io error: "@ + m,
        ErrorModel::MaterializeSha256(m) => "materialize sha256 error: "@ + m,
        ErrorModel::MaterializeRowNotFound { id } => "materialize row not found: "@ + id,
        ErrorModel::MaterializeEmptyResult => "materialize filter matched zero rows"@,
        ErrorModel::MaterializeFormatError(m) => "materialize format error: "@ + m,
        ErrorModel::MaterializeFieldUnknown { field } => "materialize unknown field: "@ + field,
        ErrorModel::MaterializeInvalidParam { field, reason } => "materialize invalid param '"@ + field + "': "@ + reason,
        ErrorModel::AliasNotFound { name } => "alias not found: "@ + name,
        ErrorModel::AliasAlreadyExists { name } => "alias already exists: "@ + name,
        ErrorModel::AliasParamsRequired { name } => "alias '"@ + name + "' requires params but none were provided"@,
        ErrorModel::AliasTemplateError(m) => "alias template render error: "@ + m,
        ErrorModel::AmbiguousId { id_prefix, candidates } => "ambiguous id prefix '"@ + id_prefix + "': "@ + text::decimal(candidates.len()) + " candidates"@,
    }
}

/// What the error adds to its code and text in the structured data.
pub open spec fn details_of(e: ErrorModel) -> Map<Seq<char>, JsonModel> {
    match e {
        ErrorModel::Validation { field, .. } => Map::<Seq<char>, JsonModel>::empty().insert("field"@, JsonModel::Text(field)),
        ErrorModel::NotFound { id } => Map::<Seq<char>, JsonModel>::empty().insert("id"@, JsonModel::Text(id)),
        ErrorModel::TableNotFound { table } => Map::<Seq<char>, JsonModel>::empty().insert("table"@, JsonModel::Text(table)),
        ErrorModel::SchemaExists { table } => Map::<Seq<char>, JsonModel>::empty().insert("table"@, JsonModel::Text(table)),
        ErrorModel::BatchAborted { op_index, reason } => Map::<Seq<char>, JsonModel>::empty().insert("op_index"@, JsonModel::Number(NumberModel::Integer(op_index))).insert("reason"@, JsonModel::Text(reason)),
        ErrorModel::MaterializeDestRelative { path } => Map::<Seq<char>, JsonModel>::empty().insert("path"@, JsonModel::Text(path)),
        ErrorModel::MaterializeDestInvalid { path, reason } => Map::<Seq<char>, JsonModel>::empty().insert("path"@, JsonModel::Text(path)).insert("reason"@, JsonModel::Text(reason)),
        ErrorModel::MaterializeRowNotFound { id } => Map::<Seq<char>, JsonModel>::empty().insert("id"@, JsonModel::Text(id)),
        ErrorModel::MaterializeFieldUnknown { field } => Map::<Seq<char>, JsonModel>::empty().insert("field"@, JsonModel::Text(field)),
        ErrorModel::MaterializeInvalidParam { field, reason } => Map::<Seq<char>, JsonModel>::empty().insert("field"@, JsonModel::Text(field)).insert("reason"@, JsonModel::Text(reason)),
        ErrorModel::AliasNotFound { name } => Map::<Seq<char>, JsonModel>::empty().insert("name"@, JsonModel::Text(name)),
        ErrorModel::AliasAlreadyExists { name } => Map::<Seq<char>, JsonModel>::empty().insert("name"@, JsonModel::Text(name)),
        ErrorModel::AliasParamsRequired { name } => Map::<Seq<char>, JsonModel>::empty().insert("name"@, JsonModel::Text(name)),
        ErrorModel::AmbiguousId { id_prefix, candidates } => Map::<Seq<char>, JsonModel>::empty().insert("id_prefix"@, JsonModel::Text(id_prefix)).insert("candidates"@, text_list(candidates)),
        _ => Map::empty(),
    }
}

/// A JSON array of texts.
pub open spec fn text_list(texts: Seq<Seq<char>>) -> JsonModel {
    JsonModel::Array(texts.map_values(|t: Seq<char>| JsonModel::Text(t)))
}

/// The structured data of an error: its code, its text, and what it adds.
pub open spec fn data_of(e: ErrorModel) -> JsonModel {
    JsonModel::Object(
        Map::<Seq<char>, JsonModel>::empty().insert(
            "code"@,
            JsonModel::Text(code_of(e)),
        ).insert("message"@, JsonModel::Text(message_of(e))).union_prefer_right(details_of(e)),
    )
}

/// The number of the variant of an error.
pub open spec fn variant_of(e: ErrorModel) -> int {
    match e {
        ErrorModel::Validation { .. } => 0,
        ErrorModel::NotFound { .. } => 1,
        ErrorModel::Schema(_) => 2,
        ErrorModel::Storage(_) => 3,
        ErrorModel::Io(_) => 4,
        ErrorModel::Config(_) => 5,
        ErrorModel::TableNotFound { .. } => 6,
        ErrorModel::TableRequired => 7,
        ErrorModel::SchemaExists { .. } => 8,
        ErrorModel::Backup(_) => 9,
        ErrorModel::Snapshot(_) => 10,
        ErrorModel::BatchAborted { .. } => 11,
        ErrorModel::MaterializeDestRelative { .. } => 12,
        ErrorModel::MaterializeDestInvalid { .. } => 13,
        ErrorModel::MaterializeIo(_) => 14,
        ErrorModel::MaterializeSha256(_) => 15,
        ErrorModel::MaterializeRowNotFound { .. } => 16,
        ErrorModel::MaterializeEmptyResult => 17,
        ErrorModel::MaterializeFormatError(_) => 18,
        ErrorModel::MaterializeFieldUnknown { .. } => 19,
        ErrorModel::MaterializeInvalidParam { .. } => 20,
        ErrorModel::AliasNotFound { .. } => 21,
        ErrorModel::AliasAlreadyExists { .. } => 22,
        ErrorModel::AliasParamsRequired { .. } => 23,
        ErrorModel::AliasTemplateError(_) => 24,
        ErrorModel::AmbiguousId { .. } => 25,
    }
}

/// The variant that a code belongs to, told from its length and a few letters.
spec fn variant_of_code(s: Seq<char>) -> int {
    if s.len() == 8 {
        4
    } else if s.len() == 9 {
        1
    } else if s.len() == 12 {
        if s[0] == 'S' {
            2
        } else if s[0] == 'C' {
            5
        } else if s[0] == 'B' {
            9
        } else {
            25
        }
    } else if s.len() == 13 {
        if s[1] == 'T' {
            3
        } else if s[1] == 'C' {
            8
        } else {
            11
        }
    } else if s.len() == 14 {
        if s[0] == 'T' {
            7
        } else {
            10
        }
    } else if s.len() == 15 {
        if s[0] == 'T' {
            6
        } else {
            21
        }
    } else if s.len() == 16 {
        0
    } else if s.len() == 20 {
        if s[8] == 'I' {
            14
        } else if s[8] == 'R' {
            22
        } else {
            24
        }
    } else if s.len() == 21 {
        23
    } else if s.len() == 24 {
        if s[12] == 'D' {
            13
        } else if s[12] == 'S' {
            15
        } else if s[12] == 'E' {
            17
        } else {
            18
        }
    } else if s.len() == 25 {
        if s[12] == 'D' {
            12
        } else if s[12] == 'R' {
            16
        } else if s[12] == 'F' {
            19
        } else {
            20
        }
    } else {
        -1
    }
}

proof fn code_tells_variant(e: ErrorModel)
    ensures
        variant_of_code(code_of(e)) == variant_of(e),
{
    match e {
        ErrorModel::Validation { .. } => {
            reveal_strlit("VALIDATION_ERROR");
        },
        ErrorModel::NotFound { .. } => {
            reveal_strlit("NOT_FOUND");
        },
        ErrorModel::Schema(_) => {
            reveal_strlit("SCHEMA_ERROR");
        },
        ErrorModel::Storage(_) => {
            reveal_strlit("STORAGE_ERROR");
        },
        ErrorModel::Io(_) => {
            reveal_strlit("IO_ERROR");
        },
        ErrorModel::Config(_) => {
            reveal_strlit("CONFIG_ERROR");
        },
        ErrorModel::TableNotFound { .. } => {
            reveal_strlit("TABLE_NOT_FOUND");
        },
        ErrorModel::TableRequired => {
            reveal_strlit("TABLE_REQUIRED");
        },
        ErrorModel::SchemaExists { .. } => {
            reveal_strlit("SCHEMA_EXISTS");
        },
        ErrorModel::Backup(_) => {
            reveal_strlit("BACKUP_ERROR");
        },
        ErrorModel::Snapshot(_) => {
            reveal_strlit("SNAPSHOT_ERROR");
        },
        ErrorModel::BatchAborted { .. } => {
            reveal_strlit("BATCH_ABORTED");
        },
        ErrorModel::MaterializeDestRelative { .. } => {
            reveal_strlit("MATERIALIZE_DEST_RELATIVE");
        },
        ErrorModel::MaterializeDestInvalid { .. } => {
            reveal_strlit("MATERIALIZE_DEST_INVALID");
        },
        ErrorModel::MaterializeIo(_) => {
            reveal_strlit("MATERIALIZE_IO_ERROR");
        },
        ErrorModel::MaterializeSha256(_) => {
            reveal_strlit("MATERIALIZE_SHA256_ERROR");
        },
        ErrorModel::MaterializeRowNotFound { .. } => {
            reveal_strlit("MATERIALIZE_ROW_NOT_FOUND");
        },
        ErrorModel::MaterializeEmptyResult => {
            reveal_strlit("MATERIALIZE_EMPTY_RESULT");
        },
        ErrorModel::MaterializeFormatError(_) => {
            reveal_strlit("MATERIALIZE_FORMAT_ERROR");
        },
        ErrorModel::MaterializeFieldUnknown { .. } => {
            reveal_strlit("MATERIALIZE_FIELD_UNKNOWN");
        },
        ErrorModel::MaterializeInvalidParam { .. } => {
            reveal_strlit("MATERIALIZE_INVALID_PARAM");
        },
        ErrorModel::AliasNotFound { .. } => {
            reveal_strlit("ALIAS_NOT_FOUND");
        },
        ErrorModel::AliasAlreadyExists { .. } => {
            reveal_strlit("ALIAS_ALREADY_EXISTS");
        },
        ErrorModel::AliasParamsRequired { .. } => {
            reveal_strlit("ALIAS_PARAMS_REQUIRED");
        },
        ErrorModel::AliasTemplateError(_) => {
            reveal_strlit("ALIAS_TEMPLATE_ERROR");
        },
        ErrorModel::AmbiguousId { .. } => {
            reveal_strlit("AMBIGUOUS_ID");
        },
    }
}

/// Every variant has a code of its own: two errors with one code are of one
/// variant.
pub proof fn codes_are_unique(a: ErrorModel, b: ErrorModel)
    requires
        code_of(a) == code_of(b),
    ensures
        variant_of(a) == variant_of(b),
{
    code_tells_variant(a);
    code_tells_variant(b);
}

/// The structured data of every error is an object that carries the code and
/// the text of the error.
pub proof fn data_carries_code_and_message(e: ErrorModel)
    ensures
        data_of(e) is Object,
        data_of(e)->Object_0.contains_key("code"@),
        data_of(e)->Object_0["code"@] == JsonModel::Text(code_of(e)),
        data_of(e)->Object_0.contains_key("message"@),
        data_of(e)->Object_0["message"@] == JsonModel::Text(message_of(e)),
{
    reveal_strlit("code");
    reveal_strlit("message");
    reveal_strlit("candidates");
    reveal_strlit("field");
    reveal_strlit("id");
    reveal_strlit("id_prefix");
    reveal_strlit("name");
    reveal_strlit("op_index");
    reveal_strlit("path");
    reveal_strlit("reason");
    reveal_strlit("table");
    assert("code"@[0] == 'c' && "name"@[0] == 'n' && "path"@[0] == 'p');
    assert("candidates"@.len() == 10);
    assert("field"@.len() == 5);
    assert("id"@.len() == 2);
    assert("id_prefix"@.len() == 9);
    assert("name"@.len() == 4);
    assert("op_index"@.len() == 8);
    assert("path"@.len() == 4);
    assert("reason"@.len() == 6);
    assert("table"@.len() == 5);
    assert("code"@.len() == 4 && "message"@.len() == 7);
    assert(!details_of(e).contains_key("code"@));
    assert(!details_of(e).contains_key("message"@));
}

/// What a client is told of an error.
pub struct ErrorData {
    pub message: String,
    pub data: JsonValue,
}

impl MiniAppError {
    /// The machine-readable code: one of the constants in [`codes`].
    pub fn code(&self) -> (r: &'static str)
        ensures
            r@ == code_of(self@),
    {
        match self {
            MiniAppError::Validation { .. } => codes::VALIDATION_ERROR,
            MiniAppError::NotFound { .. } => codes::NOT_FOUND,
            MiniAppError::Schema(_) => codes::SCHEMA_ERROR,
            MiniAppError::Storage(_) => codes::STORAGE_ERROR,
            MiniAppError::Io(_) => codes::IO_ERROR,
            MiniAppError::Config(_) => codes::CONFIG_ERROR,
            MiniAppError::TableNotFound { .. } => codes::TABLE_NOT_FOUND,
            MiniAppError::TableRequired => codes::TABLE_REQUIRED,
            MiniAppError::SchemaExists { .. } => codes::SCHEMA_EXISTS,
            MiniAppError::Backup(_) => codes::BACKUP_ERROR,
            MiniAppError::Snapshot(_) => codes::SNAPSHOT_ERROR,
            MiniAppError::BatchAborted { .. } => codes::BATCH_ABORTED,
            MiniAppError::MaterializeDestRelative { .. } => codes::MATERIALIZE_DEST_RELATIVE,
            MiniAppError::MaterializeDestInvalid { .. } => codes::MATERIALIZE_DEST_INVALID,
            MiniAppError::MaterializeIo(_) => codes::MATERIALIZE_IO_ERROR,
            MiniAppError::MaterializeSha256(_) => codes::MATERIALIZE_SHA256_ERROR,
            MiniAppError::MaterializeRowNotFound { .. } => codes::MATERIALIZE_ROW_NOT_FOUND,
            MiniAppError::MaterializeEmptyResult => codes::MATERIALIZE_EMPTY_RESULT,
            MiniAppError::MaterializeFormatError(_) => codes::MATERIALIZE_FORMAT_ERROR,
            MiniAppError::MaterializeFieldUnknown { .. } => codes::MATERIALIZE_FIELD_UNKNOWN,
            MiniAppError::MaterializeInvalidParam { .. } => codes::MATERIALIZE_INVALID_PARAM,
            MiniAppError::AliasNotFound { .. } => codes::ALIAS_NOT_FOUND,
            MiniAppError::AliasAlreadyExists { .. } => codes::ALIAS_ALREADY_EXISTS,
            MiniAppError::AliasParamsRequired { .. } => codes::ALIAS_PARAMS_REQUIRED,
            MiniAppError::AliasTemplateError(_) => codes::ALIAS_TEMPLATE_ERROR,
            MiniAppError::AmbiguousId { .. } => codes::AMBIGUOUS_ID,
        }
    }

    /// The text of the error.
    pub fn message(&self) -> (r: String)
        ensures
            r@ == message_of(self@),
    {
        match self {
            MiniAppError::Validation { field, reason } => "validation error on field '".to_owned().concat(field.as_str()).concat("': ").concat(reason.as_str()),
            MiniAppError::NotFound { id } => "row not found: ".to_owned().concat(id.as_str()),
            MiniAppError::Schema(m) => "schema parse error: ".to_owned().concat(m.as_str()),
            MiniAppError::Storage(m) => "storage error: ".to_owned().concat(m.as_str()),
            MiniAppError::Io(m) => "io error: ".to_owned().concat(m.as_str()),
            MiniAppError::Config(m) => "config error: ".to_owned().concat(m.as_str()),
            MiniAppError::TableNotFound { table } => "table not found: ".to_owned().concat(table.as_str()),
            MiniAppError::TableRequired => "table argument is required in multi-table mode".to_owned(),
            MiniAppError::SchemaExists { table } => "schema already exists: ".to_owned().concat(table.as_str()),
            MiniAppError::Backup(m) => "backup error: ".to_owned().concat(m.as_str()),
            MiniAppError::Snapshot(m) => "snapshot error: ".to_owned().concat(m.as_str()),
            MiniAppError::BatchAborted { op_index, reason } => "batch aborted at op #".to_owned().concat(text::decimal_of(*op_index as u64).as_str()).concat(": ").concat(reason.as_str()),
            MiniAppError::MaterializeDestRelative { path } => "materialize dest must be absolute: ".to_owned().concat(path.as_str()),
            MiniAppError::MaterializeDestInvalid { path, reason } => "materialize dest invalid '".to_owned().concat(path.as_str()).concat("': ").concat(reason.as_str()),
            MiniAppError::MaterializeIo(m) => "materialize io error: ".to_owned().concat(m.as_str()),
            MiniAppError::MaterializeSha256(m) => "materialize sha256 error: ".to_owned().concat(m.as_str()),
            MiniAppError::MaterializeRowNotFound { id } => "materialize row not found: ".to_owned().concat(id.as_str()),
            MiniAppError::MaterializeEmptyResult => "materialize filter matched zero rows".to_owned(),
            MiniAppError::MaterializeFormatError(m) => "materialize format error: ".to_owned().concat(m.as_str()),
            MiniAppError::MaterializeFieldUnknown { field } => "materialize unknown field: ".to_owned().concat(field.as_str()),
            MiniAppError::MaterializeInvalidParam { field, reason } => "materialize invalid param '".to_owned().concat(field.as_str()).concat("': ").concat(reason.as_str()),
            MiniAppError::AliasNotFound { name } => "alias not found: ".to_owned().concat(name.as_str()),
            MiniAppError::AliasAlreadyExists { name } => "alias already exists: ".to_owned().concat(name.as_str()),
            MiniAppError::AliasParamsRequired { name } => "alias '".to_owned().concat(name.as_str()).concat("' requires params but none were provided"),
            MiniAppError::AliasTemplateError(m) => "alias template render error: ".to_owned().concat(m.as_str()),
            MiniAppError::AmbiguousId { id_prefix, candidates } => "ambiguous id prefix '".to_owned().concat(id_prefix.as_str()).concat("': ").concat(text::decimal_of(candidates.len() as u64).as_str()).concat(" candidates"),
        }
    }

    /// What a client is told: the text, and an object with the code, the text
    /// and what the variant adds.
    pub fn to_error_data(&self) -> (r: ErrorData)
        ensures
            r.message@ == message_of(self@),
            r.data@ == data_of(self@),
    {
        let mut data: JsonObject = JsonObject::new();
        data.insert("code".to_owned(), JsonValue::Text(self.code().to_owned()));
        data.insert("message".to_owned(), JsonValue::Text(self.message()));
        let ghost base = data@;
        match self {
            MiniAppError::Validation { field, .. } => {
                data.insert("field".to_owned(), JsonValue::Text(field.clone()));
            },
            MiniAppError::NotFound { id } => {
                data.insert("id".to_owned(), JsonValue::Text(id.clone()));
            },
            MiniAppError::TableNotFound { table } => {
                data.insert("table".to_owned(), JsonValue::Text(table.clone()));
            },
            MiniAppError::SchemaExists { table } => {
                data.insert("table".to_owned(), JsonValue::Text(table.clone()));
            },
            MiniAppError::BatchAborted { op_index, reason } => {
                data.insert("op_index".to_owned(), JsonValue::Number(JsonNumber::Unsigned(*op_index as u64)));
                data.insert("reason".to_owned(), JsonValue::Text(reason.clone()));
            },
            MiniAppError::MaterializeDestRelative { path } => {
                data.insert("path".to_owned(), JsonValue::Text(path.clone()));
            },
            MiniAppError::MaterializeDestInvalid { path, reason } => {
                data.insert("path".to_owned(), JsonValue::Text(path.clone()));
                data.insert("reason".to_owned(), JsonValue::Text(reason.clone()));
            },
            MiniAppError::MaterializeRowNotFound { id } => {
                data.insert("id".to_owned(), JsonValue::Text(id.clone()));
            },
            MiniAppError::MaterializeFieldUnknown { field } => {
                data.insert("field".to_owned(), JsonValue::Text(field.clone()));
            },
            MiniAppError::MaterializeInvalidParam { field, reason } => {
                data.insert("field".to_owned(), JsonValue::Text(field.clone()));
                data.insert("reason".to_owned(), JsonValue::Text(reason.clone()));
            },
            MiniAppError::AliasNotFound { name } => {
                data.insert("name".to_owned(), JsonValue::Text(name.clone()));
            },
            MiniAppError::AliasAlreadyExists { name } => {
                data.insert("name".to_owned(), JsonValue::Text(name.clone()));
            },
            MiniAppError::AliasParamsRequired { name } => {
                data.insert("name".to_owned(), JsonValue::Text(name.clone()));
            },
            MiniAppError::AmbiguousId { id_prefix, candidates } => {
                data.insert("id_prefix".to_owned(), JsonValue::Text(id_prefix.clone()));
                data.insert("candidates".to_owned(), text_array(candidates));
            },
            _ => {},
        }
        assert(data@ =~= base.union_prefer_right(details_of(self@)));
        ErrorData { message: self.message(), data: JsonValue::Object(data) }
    }
}

/// A JSON array of the given texts.
pub fn text_array(texts: &Vec<String>) -> (r: JsonValue)
    ensures
        r@ == text_list(text::texts(texts@)),
{
    let mut items: Vec<JsonValue> = Vec::new();
    let mut i: usize = 0;
    while i < texts.len()
        invariant
            i <= texts@.len(),
            items@.len() == i,
            forall|j: int|
                0 <= j < i ==> (#[trigger] items@[j])@ == JsonModel::Text(texts@[j]@),
        decreases texts@.len() - i,
    {
        items.push(JsonValue::Text(texts[i].clone()));
        i += 1;
    }
    let r = JsonValue::Array(items);
    assert(r@->Array_0 =~= text_list(text::texts(texts@))->Array_0);
    r
}

/// The structured data of an error carries what the error is about: the field, the
/// id, the table, the number of the op and why it failed, the candidates.
pub proof fn data_carries_the_details(e: ErrorModel)
    ensures
        e matches ErrorModel::Validation { field, reason } ==> json::says(
            data_of(e),
            "field"@,
            JsonModel::Text(field),
        ),
        e matches ErrorModel::NotFound { id } ==> json::says(data_of(e), "id"@, JsonModel::Text(id)),
        e matches ErrorModel::TableNotFound { table } ==> json::says(
            data_of(e),
            "table"@,
            JsonModel::Text(table),
        ),
        e matches ErrorModel::SchemaExists { table } ==> json::says(
            data_of(e),
            "table"@,
            JsonModel::Text(table),
        ),
        e matches ErrorModel::BatchAborted { op_index, reason } ==> json::says(
            data_of(e),
            "op_index"@,
            JsonModel::Number(NumberModel::Integer(op_index)),
        ) && json::says(data_of(e), "reason"@, JsonModel::Text(reason)),
        e matches ErrorModel::AmbiguousId { id_prefix, candidates } ==> json::says(
            data_of(e),
            "id_prefix"@,
            JsonModel::Text(id_prefix),
        ) && (exists|l: JsonModel| #[trigger]
            json::says(data_of(e), "candidates"@, l) && json::lists(l, candidates)),
        e matches ErrorModel::MaterializeDestRelative { path } ==> json::says(
            data_of(e),
            "path"@,
            JsonModel::Text(path),
        ),
        e matches ErrorModel::MaterializeDestInvalid { path, reason } ==> json::says(
            data_of(e),
            "path"@,
            JsonModel::Text(path),
        ) && json::says(data_of(e), "reason"@, JsonModel::Text(reason)),
        e matches ErrorModel::MaterializeRowNotFound { id } ==> json::says(
            data_of(e),
            "id"@,
            JsonModel::Text(id),
        ),
        e matches ErrorModel::MaterializeFieldUnknown { field } ==> json::says(
            data_of(e),
            "field"@,
            JsonModel::Text(field),
        ),
        e matches ErrorModel::MaterializeInvalidParam { field, reason } ==> json::says(
            data_of(e),
            "field"@,
            JsonModel::Text(field),
        ) && json::says(data_of(e), "reason"@, JsonModel::Text(reason)),
        e matches ErrorModel::AliasNotFound { name } ==> json::says(
            data_of(e),
            "name"@,
            JsonModel::Text(name),
        ),
        e matches ErrorModel::AliasAlreadyExists { name } ==> json::says(
            data_of(e),
            "name"@,
            JsonModel::Text(name),
        ),
        e matches ErrorModel::AliasParamsRequired { name } ==> json::says(
            data_of(e),
            "name"@,
            JsonModel::Text(name),
        ),
        forall|k: Seq<char>|
            (e is Schema || e is Storage || e is Io || e is Config || e is TableRequired
                || e is Backup || e is Snapshot || e is MaterializeIo || e is MaterializeSha256
                || e is MaterializeEmptyResult || e is MaterializeFormatError
                || e is AliasTemplateError) && #[trigger] data_of(e)->Object_0.contains_key(k) ==> k
                == "code"@ || k == "message"@,
{
    reveal_strlit("path");
    reveal_strlit("field");
    assert("path"@.len() == 4 && "field"@.len() == 5);
    reveal_strlit("op_index");
    reveal_strlit("reason");
    reveal_strlit("id_prefix");
    reveal_strlit("candidates");
    assert("op_index"@.len() == 8 && "reason"@.len() == 6);
    assert("id_prefix"@.len() == 9 && "candidates"@.len() == 10);
    match e {
        ErrorModel::AmbiguousId { id_prefix, candidates } => {
            assert(json::says(data_of(e), "candidates"@, text_list(candidates)));
            assert(json::lists(text_list(candidates), candidates));
        },
        _ => {},
    }
}

/// The text of an error says what went wrong and with what.
pub proof fn messages_say_what_went_wrong(e: ErrorModel)
    ensures
        e matches ErrorModel::Validation { field, reason } ==> message_of(e)
            == "validation error on field '"@ + field + "': "@ + reason,
        e matches ErrorModel::NotFound { id } ==> message_of(e) == "row not found: "@ + id,
        e matches ErrorModel::Schema(m) ==> message_of(e) == "schema parse error: "@ + m,
        e matches ErrorModel::Storage(m) ==> message_of(e) == "storage error: "@ + m,
        e matches ErrorModel::Io(m) ==> message_of(e) == "io error: "@ + m,
        e matches ErrorModel::Config(m) ==> message_of(e) == "config error: "@ + m,
        e matches ErrorModel::TableNotFound { table } ==> message_of(e) == "table not found: "@
            + table,
        e matches ErrorModel::SchemaExists { table } ==> message_of(e) == "schema already exists: "@
            + table,
        e matches ErrorModel::Backup(m) ==> message_of(e) == "backup error: "@ + m,
        e matches ErrorModel::Snapshot(m) ==> message_of(e) == "snapshot error: "@ + m,
        e matches ErrorModel::BatchAborted { op_index, reason } ==> message_of(e)
            == "batch aborted at op #"@ + text::decimal(op_index as nat) + ": "@ + reason,
        e matches ErrorModel::AmbiguousId { id_prefix, candidates } ==> message_of(e)
            == "ambiguous id prefix '"@ + id_prefix + "': "@ + text::decimal(candidates.len())
            + " candidates"@,
        e is TableRequired ==> message_of(e) == "table argument is required in multi-table mode"@,
        e matches ErrorModel::MaterializeDestRelative { path } ==> message_of(e)
            == "materialize dest must be absolute: "@ + path,
        e matches ErrorModel::MaterializeDestInvalid { path, reason } ==> message_of(e)
            == "materialize dest invalid '"@ + path + "': "@ + reason,
        e matches ErrorModel::MaterializeIo(m) ==> message_of(e) == "materialize io error: "@ + m,
        e matches ErrorModel::MaterializeSha256(m) ==> message_of(e) == "materialize sha256 error: "@
            + m,
        e matches ErrorModel::MaterializeRowNotFound { id } ==> message_of(e)
            == "materialize row not found: "@ + id,
        e is MaterializeEmptyResult ==> message_of(e) == "materialize filter matched zero rows"@,
        e matches ErrorModel::MaterializeFormatError(m) ==> message_of(e)
            == "materialize format error: "@ + m,
        e matches ErrorModel::MaterializeFieldUnknown { field } ==> message_of(e)
            == "materialize unknown field: "@ + field,
        e matches ErrorModel::MaterializeInvalidParam { field, reason } ==> message_of(e)
            == "materialize invalid param '"@ + field + "': "@ + reason,
        e matches ErrorModel::AliasNotFound { name } ==> message_of(e) == "alias not found: "@
            + name,
        e matches ErrorModel::AliasAlreadyExists { name } ==> message_of(e)
            == "alias already exists: "@ + name,
        e matches ErrorModel::AliasParamsRequired { name } ==> message_of(e) == "alias '"@ + name
            + "' requires params but none were provided"@,
        e matches ErrorModel::AliasTemplateError(m) ==> message_of(e)
            == "alias template render error: "@ + m,
{
}

/// Every error goes by its code.
pub proof fn errors_go_by_their_codes(e: ErrorModel)
    ensures
        e is Validation ==> code_of(e) == "VALIDATION_ERROR"@,
        e is NotFound ==> code_of(e) == "NOT_FOUND"@,
        e is Schema ==> code_of(e) == "SCHEMA_ERROR"@,
        e is Storage ==> code_of(e) == "STORAGE_ERROR"@,
        e is Io ==> code_of(e) == "IO_ERROR"@,
        e is Config ==> code_of(e) == "CONFIG_ERROR"@,
        e is TableNotFound ==> code_of(e) == "TABLE_NOT_FOUND"@,
        e is TableRequired ==> code_of(e) == "TABLE_REQUIRED"@,
        e is SchemaExists ==> code_of(e) == "SCHEMA_EXISTS"@,
        e is Backup ==> code_of(e) == "BACKUP_ERROR"@,
        e is Snapshot ==> code_of(e) == "SNAPSHOT_ERROR"@,
        e is BatchAborted ==> code_of(e) == "BATCH_ABORTED"@,
        e is AmbiguousId ==> code_of(e) == "AMBIGUOUS_ID"@,
        e is MaterializeDestRelative ==> code_of(e) == "MATERIALIZE_DEST_RELATIVE"@,
        e is MaterializeDestInvalid ==> code_of(e) == "MATERIALIZE_DEST_INVALID"@,
        e is MaterializeIo ==> code_of(e) == "MATERIALIZE_IO_ERROR"@,
        e is MaterializeSha256 ==> code_of(e) == "MATERIALIZE_SHA256_ERROR"@,
        e is MaterializeRowNotFound ==> code_of(e) == "MATERIALIZE_ROW_NOT_FOUND"@,
        e is MaterializeEmptyResult ==> code_of(e) == "MATERIALIZE_EMPTY_RESULT"@,
        e is MaterializeFormatError ==> code_of(e) == "MATERIALIZE_FORMAT_ERROR"@,
        e is MaterializeFieldUnknown ==> code_of(e) == "MATERIALIZE_FIELD_UNKNOWN"@,
        e is MaterializeInvalidParam ==> code_of(e) == "MATERIALIZE_INVALID_PARAM"@,
        e is AliasNotFound ==> code_of(e) == "ALIAS_NOT_FOUND"@,
        e is AliasAlreadyExists ==> code_of(e) == "ALIAS_ALREADY_EXISTS"@,
        e is AliasParamsRequired ==> code_of(e) == "ALIAS_PARAMS_REQUIRED"@,
        e is AliasTemplateError ==> code_of(e) == "ALIAS_TEMPLATE_ERROR"@,
{
}

/// Errors say what they hold.
pub proof fn errors_say_what_they_hold(e: MiniAppError)
    ensures
        e matches MiniAppError::Validation { field, reason } ==> e@ == (ErrorModel::Validation {
            field: field@,
            reason: reason@,
        }),
        e matches MiniAppError::NotFound { id } ==> e@ == (ErrorModel::NotFound { id: id@ }),
        e matches MiniAppError::Schema(m) ==> e@ == ErrorModel::Schema(m@),
        e matches MiniAppError::Storage(m) ==> e@ == ErrorModel::Storage(m@),
        e matches MiniAppError::Io(m) ==> e@ == ErrorModel::Io(m@),
        e matches MiniAppError::Config(m) ==> e@ == ErrorModel::Config(m@),
        e matches MiniAppError::TableNotFound { table } ==> e@ == (ErrorModel::TableNotFound {
            table: table@,
        }),
        e is TableRequired <==> e@ is TableRequired,
        e matches MiniAppError::SchemaExists { table } ==> e@ == (ErrorModel::SchemaExists {
            table: table@,
        }),
        e matches MiniAppError::Backup(m) ==> e@ == ErrorModel::Backup(m@),
        e matches MiniAppError::Snapshot(m) ==> e@ == ErrorModel::Snapshot(m@),
        e matches MiniAppError::BatchAborted { op_index, reason } ==> e@ == (
        ErrorModel::BatchAborted { op_index: op_index as int, reason: reason@ }),
        e matches MiniAppError::AmbiguousId { id_prefix, candidates } ==> e@ == (
        ErrorModel::AmbiguousId { id_prefix: id_prefix@, candidates: text::texts(candidates@) }),
        e matches MiniAppError::MaterializeDestRelative { path } ==> e@ == (
        ErrorModel::MaterializeDestRelative { path: path@ }),
        e matches MiniAppError::MaterializeDestInvalid { path, reason } ==> e@ == (
        ErrorModel::MaterializeDestInvalid { path: path@, reason: reason@ }),
        e matches MiniAppError::MaterializeIo(m) ==> e@ == ErrorModel::MaterializeIo(m@),
        e matches MiniAppError::MaterializeSha256(m) ==> e@ == ErrorModel::MaterializeSha256(m@),
        e matches MiniAppError::MaterializeRowNotFound { id } ==> e@ == (
        ErrorModel::MaterializeRowNotFound { id: id@ }),
        e is MaterializeEmptyResult <==> e@ is MaterializeEmptyResult,
        e matches MiniAppError::MaterializeFormatError(m) ==> e@
            == ErrorModel::MaterializeFormatError(m@),
        e matches MiniAppError::MaterializeFieldUnknown { field } ==> e@ == (
        ErrorModel::MaterializeFieldUnknown { field: field@ }),
        e matches MiniAppError::MaterializeInvalidParam { field, reason } ==> e@ == (
        ErrorModel::MaterializeInvalidParam { field: field@, reason: reason@ }),
        e matches MiniAppError::AliasNotFound { name } ==> e@ == (ErrorModel::AliasNotFound {
            name: name@,
        }),
        e matches MiniAppError::AliasAlreadyExists { name } ==> e@ == (
        ErrorModel::AliasAlreadyExists { name: name@ }),
        e matches MiniAppError::AliasParamsRequired { name } ==> e@ == (
        ErrorModel::AliasParamsRequired { name: name@ }),
        e matches MiniAppError::AliasTemplateError(m) ==> e@ == ErrorModel::AliasTemplateError(m@),
{
}

} // verus!
