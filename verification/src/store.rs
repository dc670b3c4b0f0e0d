//! The rows of one table: what is written for a row, what a stored row reads as,
//! and how an update changes it.
//!
//! Statements are carried out elsewhere. Each operation here says which
//! statement is due, with which values, and what its outcome means.

use vstd::prelude::*;
use vstd::string::*;

use crate::error::ErrorModel;
use crate::error::MiniAppError;
use crate::filter;
use crate::filter::{FilterParam, ListFilter};
use crate::json;
use crate::json::JsonModel;
use crate::json::{JsonObject, JsonValue};
use crate::pairs;
use crate::schema;
use crate::schema::FieldModel;
use crate::schema::SchemaConfig;
use crate::text;

verus! {

broadcast use vstd::map::group_map_axioms;

/// Creates the table of rows where it does not exist. No column comes from a
/// schema: all fields of a row lie in `data`.
pub const CREATE_TABLE_SQL: &'static str = "
    CREATE TABLE IF NOT EXISTS rows (
        id          TEXT    PRIMARY KEY,
        data        TEXT    NOT NULL,
        created_at  INTEGER NOT NULL,
        updated_at  INTEGER NOT NULL
    )
";

/// Inserts a row: id, data, time of creation, time of update.
pub const INSERT_SQL: &'static str = "INSERT INTO rows (id, data, created_at, updated_at) VALUES (?1, ?2, ?3, ?4)";

/// Reads a row by its id.
pub const SELECT_SQL: &'static str = "SELECT id, data, created_at, updated_at FROM rows WHERE id = ?1";

/// Reads the ids that begin with a prefix.
pub const SELECT_IDS_SQL: &'static str = "SELECT id FROM rows WHERE substr(id, 1, length(?1)) = ?1 ORDER BY id";

/// Reads what an update needs to know of a row.
pub const SELECT_FOR_UPDATE_SQL: &'static str = "SELECT data, created_at FROM rows WHERE id = ?1";

/// Writes a row back: data, time of update, id.
pub const UPDATE_SQL: &'static str = "UPDATE rows SET data = ?1, updated_at = ?2 WHERE id = ?3";

/// Deletes a row by its id.
pub const DELETE_SQL: &'static str = "DELETE FROM rows WHERE id = ?1";

/// Counts the rows.
pub const COUNT_SQL: &'static str = "SELECT COUNT(*) FROM rows";

/// A row.
#[derive(Debug, PartialEq, Eq)]
pub struct RowRecord {
    /// The identifier, a version 4 UUID.
    pub id: String,
    /// The fields.
    pub data: JsonValue,
    /// When the row was created, in seconds since 1970.
    pub created_at: i64,
    /// When the row was last updated, in seconds since 1970.
    pub updated_at: i64,
}

/// What a row says.
pub struct RowModel {
    pub id: Seq<char>,
    pub data: JsonModel,
    pub created_at: i64,
    pub updated_at: i64,
}

impl View for RowRecord {
    type V = RowModel;

    open spec fn view(&self) -> RowModel {
        RowModel {
            id: self.id@,
            data: self.data@,
            created_at: self.created_at,
            updated_at: self.updated_at,
        }
    }
}

/// A row as it is stored: the fields are a JSON text.
#[derive(Debug, PartialEq, Eq)]
pub struct StoredRow {
    pub id: String,
    pub data: String,
    pub created_at: i64,
    pub updated_at: i64,
}

/// What a stored row says.
pub struct StoredModel {
    pub id: Seq<char>,
    pub data: Seq<char>,
    pub created_at: i64,
    pub updated_at: i64,
}

impl View for StoredRow {
    type V = StoredModel;

    open spec fn view(&self) -> StoredModel {
        StoredModel {
            id: self.id@,
            data: self.data@,
            created_at: self.created_at,
            updated_at: self.updated_at,
        }
    }
}

/// A row that is to be written: the row, and the text that is stored for its
/// fields.
#[derive(Debug, PartialEq, Eq)]
pub struct RowWrite {
    pub record: RowRecord,
    pub data_text: String,
}

/// The row as it will be stored.
pub open spec fn stored_as(row: RowModel) -> StoredModel {
    StoredModel {
        id: row.id,
        data: json::json_text(row.data),
        created_at: row.created_at,
        updated_at: row.updated_at,
    }
}

/// How an update treats the fields that a row has already.
#[derive(Debug, Clone, Copy, PartialEq, Eq, Structural)]
pub enum UpdateMode {
    /// Fields that the update does not mention stay.
    Merge,
    /// The update is the whole new row.
    Replace,
}

impl Default for UpdateMode {
    fn default() -> (r: UpdateMode)
        ensures
            r == UpdateMode::Merge,
    {
        UpdateMode::Merge
    }
}

/// What reading a data column gives: the fields, or why it cannot be read.
pub open spec fn data_read(data: Seq<char>) -> Result<JsonModel, ErrorModel> {
    match json::json_read(data) {
        Ok(v) => Ok(v),
        Err(e) => Err(ErrorModel::Schema("data column: "@ + e)),
    }
}

/// What a stored row reads as.
pub open spec fn row_read(row: StoredModel) -> Result<RowModel, ErrorModel> {
    match data_read(row.data) {
        Ok(data) => Ok(
            RowModel { id: row.id, data, created_at: row.created_at, updated_at: row.updated_at },
        ),
        Err(e) => Err(e),
    }
}

/// The outcome of reading fields, as a model.
pub open spec fn value_outcome(r: Result<JsonValue, MiniAppError>) -> Result<
    JsonModel,
    ErrorModel,
> {
    match r {
        Ok(v) => Ok(v@),
        Err(e) => Err(e@),
    }
}

/// The outcome of reading a row, as a model.
pub open spec fn row_outcome(r: Result<RowRecord, MiniAppError>) -> Result<RowModel, ErrorModel> {
    match r {
        Ok(v) => Ok(v@),
        Err(e) => Err(e@),
    }
}

/// Reads the fields of a row from its data column.
pub fn parse_data(data: &str) -> (r: Result<JsonValue, MiniAppError>)
    ensures
        value_outcome(r) == data_read(data@),
{
    match json::parse(data) {
        Ok(v) => Ok(v),
        Err(e) => Err(MiniAppError::Schema("data column: ".to_owned().concat(e.as_str()))),
    }
}

/// The field may not be taken away: the schema requires it.
pub open spec fn is_required(fields: Seq<FieldModel>, key: Seq<char>) -> bool {
    match schema::field_called(fields, key) {
        Some(f) => f.required,
        None => false,
    }
}

/// The patch takes away a required field.
pub open spec fn forbidden(
    patch: Map<Seq<char>, JsonModel>,
    fields: Seq<FieldModel>,
    key: Seq<char>,
) -> bool {
    patch.contains_key(key) && patch[key] is Null && is_required(fields, key)
}

/// Of the required fields that the patch takes away, `key` is the first in
/// alphabetical order.
pub open spec fn first_forbidden(
    patch: Map<Seq<char>, JsonModel>,
    fields: Seq<FieldModel>,
    key: Seq<char>,
) -> bool {
    &&& forbidden(patch, fields, key)
    &&& forall|k: Seq<char>| #[trigger]
        forbidden(patch, fields, k) ==> k == key || text::text_before(key, k)
}

/// The members after a merge: those that the patch names with a value have that
/// value, those that it names with null are gone, all others stay as they were.
pub open spec fn merged(
    current: Map<Seq<char>, JsonModel>,
    patch: Map<Seq<char>, JsonModel>,
) -> Map<Seq<char>, JsonModel> {
    Map::new(
        |k: Seq<char>|
            if patch.contains_key(k) {
                !(patch[k] is Null)
            } else {
                current.contains_key(k)
            },
        |k: Seq<char>|
            if patch.contains_key(k) {
                patch[k]
            } else {
                current[k]
            },
    )
}

/// What merging `patch` into the fields `current` gives.
pub open spec fn merge_outcome(
    current: JsonModel,
    patch: JsonModel,
    fields: Seq<FieldModel>,
) -> Result<JsonModel, ErrorModel> {
    match patch {
        JsonModel::Object(p) => match current {
            JsonModel::Object(c) => if exists|k: Seq<char>| forbidden(p, fields, k) {
                Err(
                    ErrorModel::Validation {
                        field: choose|k: Seq<char>| first_forbidden(p, fields, k),
                        reason: "required field cannot be deleted via null"@,
                    },
                )
            } else {
                Ok(JsonModel::Object(merged(c, p)))
            },
            _ => Err(
                ErrorModel::Validation {
                    field: "(root)"@,
                    reason: "stored row is not a JSON object"@,
                },
            ),
        },
        _ => Err(
            ErrorModel::Validation { field: "(root)"@, reason: "patch must be a JSON object"@ },
        ),
    }
}

/// Where a patch takes required fields away, the first of them in alphabetical
/// order is reported.
pub proof fn first_forbidden_is_reported(
    current: Map<Seq<char>, JsonModel>,
    patch: Map<Seq<char>, JsonModel>,
    fields: Seq<FieldModel>,
    key: Seq<char>,
)
    requires
        first_forbidden(patch, fields, key),
    ensures
        merge_outcome(JsonModel::Object(current), JsonModel::Object(patch), fields) == Err::<
            JsonModel,
            ErrorModel,
        >(
            ErrorModel::Validation {
                field: key,
                reason: "required field cannot be deleted via null"@,
            },
        ),
{
    let chosen = choose|k: Seq<char>| first_forbidden(patch, fields, k);
    assert(first_forbidden(patch, fields, chosen));
    assert(forbidden(patch, fields, key) && forbidden(patch, fields, chosen));
    if chosen != key {
        text::text_before_asymmetric(chosen, key);
    }
}

/// One more member of the patch changes one member of the result.
proof fn merged_step(
    current: Map<Seq<char>, JsonModel>,
    patch: Map<Seq<char>, JsonModel>,
    key: Seq<char>,
    value: JsonModel,
)
    ensures
        merged(current, patch.insert(key, value)) == (if value is Null {
            merged(current, patch).remove(key)
        } else {
            merged(current, patch).insert(key, value)
        }),
{
    let more = merged(current, patch.insert(key, value));
    if value is Null {
        assert(more =~= merged(current, patch).remove(key));
    } else {
        assert(more =~= merged(current, patch).insert(key, value));
    }
}

/// Merges `patch` into `current`: a member with a value is set, a member with
/// null is removed, unless the schema requires it, and all other members stay.
/// Nested objects are replaced as a whole.
pub fn shallow_merge(current: JsonValue, patch: JsonValue, schema: &SchemaConfig) -> (r: Result<
    JsonValue,
    MiniAppError,
>)
    ensures
        value_outcome(r) == merge_outcome(current@, patch@, schema@.fields),
{
    let changes: JsonObject = match patch {
        JsonValue::Object(o) => o,
        _ => {
            return Err(
                MiniAppError::Validation {
                    field: "(root)".to_owned(),
                    reason: "patch must be a JSON object".to_owned(),
                },
            );
        },
    };
    let mut members: JsonObject = match current {
        JsonValue::Object(o) => o,
        _ => {
            return Err(
                MiniAppError::Validation {
                    field: "(root)".to_owned(),
                    reason: "stored row is not a JSON object".to_owned(),
                },
            );
        },
    };
    let ghost start = members@;
    let ghost fields = schema@.fields;
    let n: usize = changes.len();
    let ghost pairs = changes.pairs();
    let mut i: usize = 0;
    proof {
        assert(pairs.take(0) =~= Seq::<(Seq<char>, JsonModel)>::empty());
        assert(merged(start, pairs::pairs_map(pairs.take(0))) =~= start);
    }
    while i < n
        invariant
            i <= n,
            n == pairs.len(),
            pairs == changes.pairs(),
            pairs::keys_ascend(pairs),
            changes@ == pairs::pairs_map(pairs),
            fields == schema@.fields,
            current@ == JsonModel::Object(start),
            patch@ == JsonModel::Object(changes@),
            members@ == merged(start, pairs::pairs_map(pairs.take(i as int))),
            forall|j: int|
                0 <= j < i ==> !((#[trigger] pairs[j]).1 is Null && is_required(
                    fields,
                    pairs[j].0,
                )),
        decreases n - i,
    {
        let ghost upto = pairs.take(i + 1);
        let ghost key = pairs[i as int].0;
        let ghost value = pairs[i as int].1;
        proof {
            assert(upto.drop_last() =~= pairs.take(i as int));
            merged_step(start, pairs::pairs_map(pairs.take(i as int)), key, value);
            pairs::pairs_map_value(pairs, i as int);
        }
        if changes.value_at(i).is_null() {
            let required: bool = match schema.field(changes.key_at(i)) {
                Some(f) => f.required,
                None => false,
            };
            if required {
                proof {
                    assert(forbidden(changes@, fields, key));
                    assert forall|k: Seq<char>| #[trigger]
                        forbidden(changes@, fields, k) implies k == key || text::text_before(
                        key,
                        k,
                    ) by {
                        pairs::pairs_map_keys(pairs, k);
                        let h = choose|h: int| 0 <= h < pairs.len() && (#[trigger] pairs[h]).0 == k;
                        pairs::pairs_map_value(pairs, h);
                    }
                    assert(first_forbidden(changes@, fields, key));
                    first_forbidden_is_reported(start, changes@, fields, key);
                }
                return Err(
                    MiniAppError::Validation {
                        field: changes.key_at(i).clone(),
                        reason: "required field cannot be deleted via null".to_owned(),
                    },
                );
            }
            members.remove(changes.key_at(i));
        } else {
            members.insert(changes.key_at(i).clone(), changes.value_at(i).duplicate());
        }
        i += 1;
    }
    proof {
        assert(pairs.take(n as int) =~= pairs);
        assert forall|k: Seq<char>| !forbidden(changes@, fields, k) by {
            pairs::pairs_map_keys(pairs, k);
            if changes@.contains_key(k) {
                let h = choose|h: int| 0 <= h < pairs.len() && (#[trigger] pairs[h]).0 == k;
                pairs::pairs_map_value(pairs, h);
            }
        }
    }
    Ok(JsonValue::Object(members))
}

/// Whether a character is a lowercase hexadecimal digit.
pub open spec fn is_hex(c: char) -> bool {
    ('0' <= c && c <= '9') || ('a' <= c && c <= 'f')
}

/// Whether a text is a version 4 UUID in its usual spelling: lowercase
/// hexadecimal digits in groups of 8, 4, 4, 4 and 12, with the version digit 4
/// and the variant digit 8, 9, a or b in their places.
pub open spec fn is_uuid_v4(s: Seq<char>) -> bool {
    &&& s.len() == 36
    &&& s[8] == '-' && s[13] == '-' && s[18] == '-' && s[23] == '-'
    &&& s[14] == '4'
    &&& s[19] == '8' || s[19] == '9' || s[19] == 'a' || s[19] == 'b'
    &&& forall|i: int|
        0 <= i < 36 && i != 8 && i != 13 && i != 18 && i != 23 ==> is_hex(#[trigger] s[i])
}

/// `uuid::Uuid::new_v4`, spelt out by its `Display`: a random version 4 UUID in
/// the hyphenated lowercase form. Which one it is rests on chance. Where the
/// system has no random bytes to give, the call does not return.
#[verifier::external_body]
fn random_uuid() -> (r: String)
    ensures
        is_uuid_v4(r@),
{
    uuid::Uuid::new_v4().to_string()
}

/// `std::time::SystemTime::elapsed` since 1970, in whole seconds; none where the
/// clock stands before 1970. The result rests on the clock.
#[verifier::external_body]
fn clock_reading() -> (r: Option<u64>) {
    std::time::UNIX_EPOCH.elapsed().ok().map(|d| d.as_secs())
}

/// Whether a schema asks for files to be read back into rows.
pub open spec fn asks_for_sync(s: schema::SchemaModel) -> bool {
    s.dump is Some && s.dump->0.sync == Some(crate::dump::SyncMode::Bidirectional)
}

/// A clock reading as seconds since 1970.
pub open spec fn seconds_of(reading: Option<u64>) -> i64 {
    if reading is Some {
        reading->0 as i64
    } else {
        0
    }
}

/// The number of rows, from what was counted.
pub open spec fn rows_there(counted: i64) -> u64 {
    if counted > 0 {
        counted as u64
    } else {
        0
    }
}

/// The clock is taken as it reads, and for 1970 where it stands before it; rows are
/// taken as they were counted, of which there are never fewer than none.
pub proof fn clocks_and_counts_are_taken_as_they_are(secs: u64, counted: i64)
    requires
        secs <= i64::MAX,
    ensures
        seconds_of(Some(secs)) == secs,
        seconds_of(None) == 0,
        counted >= 0 ==> rows_there(counted) == counted,
        counted < 0 ==> rows_there(counted) == 0,
{
}

/// A clock reading as seconds since 1970; 0 where the clock stands earlier.
pub fn epoch_seconds(reading: Option<u64>) -> (r: i64)
    ensures
        r == (match reading {
            Some(s) => s as i64,
            None => 0i64,
        }),
        r == seconds_of(reading),
{
    match reading {
        Some(s) => s as i64,
        None => 0,
    }
}

/// The current time in seconds since 1970. The clock may stand anywhere, so no
/// value is ruled out; what becomes of each reading is [`epoch_seconds`].
pub fn now_secs() -> (r: i64) {
    epoch_seconds(clock_reading())
}

/// The rows of a table with this schema.
#[derive(Debug, PartialEq, Eq)]
pub struct Store {
    pub schema: SchemaConfig,
}

/// A statement that lists rows, with the values bound to its placeholders: those
/// of the filter in order, then the limit, then the offset.
#[derive(Debug, PartialEq, Eq)]
pub struct ListQuery {
    pub sql: String,
    pub params: Vec<FilterParam>,
    pub limit: i64,
    pub offset: i64,
}

/// What a list statement says.
pub struct ListModel {
    pub sql: Seq<char>,
    pub params: Seq<filter::ParamModel>,
    pub limit: int,
    pub offset: int,
}

impl View for ListQuery {
    type V = ListModel;

    open spec fn view(&self) -> ListModel {
        ListModel {
            sql: self.sql@,
            params: filter::param_models(self.params@),
            limit: self.limit as int,
            offset: self.offset as int,
        }
    }
}

/// How many rows are listed: 100 where nothing is asked for, never more than
/// 1000.
pub open spec fn list_limit(limit: Option<u32>) -> int {
    match limit {
        Some(n) => if n < 1000 {
            n as int
        } else {
            1000
        },
        None => 100,
    }
}

/// The statement that lists rows, newest first.
pub open spec fn list_query(
    limit: Option<u32>,
    offset: Option<u32>,
    condition: Option<filter::FilterModel>,
) -> Result<ListModel, ErrorModel> {
    let start = match offset {
        Some(n) => n as int,
        None => 0,
    };
    match condition {
        None => Ok(
            ListModel {
                sql: "SELECT id, data, created_at, updated_at FROM rows"@
                    + " ORDER BY created_at DESC LIMIT ? OFFSET ?"@,
                params: Seq::empty(),
                limit: list_limit(limit),
                offset: start,
            },
        ),
        Some(f) => match filter::sql_of(f) {
            Err(e) => Err(e),
            Ok((sql, params)) => Ok(
                ListModel {
                    sql: "SELECT id, data, created_at, updated_at FROM rows"@ + " WHERE "@ + sql
                        + " ORDER BY created_at DESC LIMIT ? OFFSET ?"@,
                    params,
                    limit: list_limit(limit),
                    offset: start,
                },
            ),
        },
    }
}

/// The outcome of planning a list, as a model.
pub open spec fn list_outcome(r: Result<ListQuery, MiniAppError>) -> Result<
    ListModel,
    ErrorModel,
> {
    match r {
        Ok(q) => Ok(q@),
        Err(e) => Err(e@),
    }
}

/// The filter, where there is one, as a model.
pub open spec fn filter_option(f: Option<ListFilter>) -> Option<filter::FilterModel> {
    match f {
        Some(f) => Some(f@),
        None => None,
    }
}

/// One fetched row, or the text of the database error that came in its place.
pub open spec fn fetched_read(r: Result<StoredRow, String>) -> Result<RowModel, ErrorModel> {
    match r {
        Ok(row) => row_read(row@),
        Err(e) => Err(ErrorModel::Storage(e@)),
    }
}

/// What fetched rows read as: all of them, or the first failure.
pub open spec fn rows_read(rows: Seq<Result<StoredRow, String>>) -> Result<
    Seq<RowModel>,
    ErrorModel,
>
    decreases rows.len(),
{
    if rows.len() == 0 {
        Ok(Seq::empty())
    } else {
        match rows_read(rows.drop_last()) {
            Err(e) => Err(e),
            Ok(read) => match fetched_read(rows.last()) {
                Err(e) => Err(e),
                Ok(row) => Ok(read.push(row)),
            },
        }
    }
}

/// The rows as models.
pub open spec fn row_models(rows: Seq<RowRecord>) -> Seq<RowModel> {
    rows.map_values(|r: RowRecord| r@)
}

/// The outcome of reading rows, as a model.
pub open spec fn rows_outcome(r: Result<Vec<RowRecord>, MiniAppError>) -> Result<
    Seq<RowModel>,
    ErrorModel,
> {
    match r {
        Ok(rows) => Ok(row_models(rows@)),
        Err(e) => Err(e@),
    }
}

/// What looking up a row by its id gives.
pub open spec fn get_outcome(id: Seq<char>, found: Option<StoredModel>) -> Result<
    RowModel,
    ErrorModel,
> {
    match found {
        Some(row) => row_read(row),
        None => Err(ErrorModel::NotFound { id }),
    }
}

/// What creating a row gives.
pub open spec fn create_outcome(
    fields: Seq<FieldModel>,
    id: Seq<char>,
    value: JsonModel,
    now: i64,
) -> Result<RowModel, ErrorModel> {
    match schema::refusal(fields, value) {
        Some(e) => Err(e),
        None => Ok(RowModel { id, data: value, created_at: now, updated_at: now }),
    }
}

/// What updating a row gives, where `found` is its data column and its time of
/// creation.
pub open spec fn update_outcome(
    fields: Seq<FieldModel>,
    id: Seq<char>,
    found: Option<(Seq<char>, i64)>,
    value: JsonModel,
    mode: UpdateMode,
    now: i64,
) -> Result<RowModel, ErrorModel> {
    match found {
        None => Err(ErrorModel::NotFound { id }),
        Some((data, created_at)) => match new_data(fields, data, value, mode) {
            Err(e) => Err(e),
            Ok(data) => Ok(RowModel { id, data, created_at, updated_at: now }),
        },
    }
}

/// The fields that a row has after an update.
pub open spec fn new_data(
    fields: Seq<FieldModel>,
    data: Seq<char>,
    value: JsonModel,
    mode: UpdateMode,
) -> Result<JsonModel, ErrorModel> {
    match mode {
        UpdateMode::Replace => accepted(fields, value),
        UpdateMode::Merge => match data_read(data) {
            Err(e) => Err(e),
            Ok(current) => match merge_outcome(current, value, fields) {
                Err(e) => Err(e),
                Ok(merged) => accepted(fields, merged),
            },
        },
    }
}

/// The value, where the schema accepts it.
pub open spec fn accepted(fields: Seq<FieldModel>, value: JsonModel) -> Result<
    JsonModel,
    ErrorModel,
> {
    match schema::refusal(fields, value) {
        Some(e) => Err(e),
        None => Ok(value),
    }
}

/// The outcome of planning a write, as a model.
pub open spec fn write_outcome(r: Result<RowWrite, MiniAppError>) -> Result<RowModel, ErrorModel> {
    match r {
        Ok(w) => Ok(w.record@),
        Err(e) => Err(e@),
    }
}

/// A write stores the text of the row's fields; and where the fields are plain,
/// what is stored reads back as the row.
pub open spec fn writes_readably(w: RowWrite) -> bool {
    &&& w.data_text@ == json::json_text(w.record.data@)
    &&& json::plain_within(w.record.data@, json::depth_limit()) ==> row_read(
        stored_as(w.record@),
    ) == Ok::<RowModel, ErrorModel>(w.record@)
}

/// What a statement that deletes the row `id` means, by the number of rows that
/// it deleted.
pub open spec fn delete_outcome(id: Seq<char>, deleted: usize) -> Option<ErrorModel> {
    if deleted == 0 {
        Some(ErrorModel::NotFound { id })
    } else {
        None
    }
}

fn prepared(record: RowRecord) -> (w: RowWrite)
    ensures
        w.record@ == record@,
        writes_readably(w),
{
    let data_text: String = record.data.to_text();
    RowWrite { record, data_text }
}

impl Store {
    /// The rows of a table with the schema `schema`.
    pub fn open(schema: SchemaConfig) -> (r: Store)
        ensures
            r.schema@ == schema@,
    {
        Store { schema }
    }

    /// Whether the schema asks for files to be read back into rows, which is not
    /// done: the table behaves as write-only.
    pub fn ignores_sync(&self) -> (r: bool)
        ensures
            r == (self.schema@.dump matches Some(d) && d.sync
                == Some(crate::dump::SyncMode::Bidirectional)),
            r == asks_for_sync(self.schema@),
    {
        match &self.schema.dump {
            Some(d) => matches!(d.sync, Some(crate::dump::SyncMode::Bidirectional)),
            None => false,
        }
    }

    /// Plans a new row with the given id and time.
    pub fn insert_row(&self, id: String, now: i64, value: JsonValue) -> (r: Result<
        RowWrite,
        MiniAppError,
    >)
        ensures
            write_outcome(r) == create_outcome(self.schema@.fields, id@, value@, now),
            r matches Ok(w) ==> writes_readably(w),
            r is Ok <==> schema::refusal(self.schema@.fields, value@) is None,
            r matches Ok(w) ==> w.record.id@ == id@ && w.record.data@ == value@
                && w.record.created_at == now && w.record.updated_at == now && w.data_text@
                == json::json_text(value@),
    {
        match self.schema.validate(&value) {
            Err(e) => Err(e),
            Ok(_) => Ok(
                prepared(RowRecord { id, data: value, created_at: now, updated_at: now }),
            ),
        }
    }

    /// Plans a new row with a fresh id and the current time, for
    /// [`INSERT_SQL`]. The id is a version 4 UUID.
    pub fn create(&self, value: JsonValue) -> (r: Result<RowWrite, MiniAppError>)
        ensures
            match r {
                Ok(w) => is_uuid_v4(w.record.id@) && create_outcome(
                    self.schema@.fields,
                    w.record.id@,
                    value@,
                    w.record.created_at,
                ) == Ok::<RowModel, ErrorModel>(w.record@) && writes_readably(w),
                Err(e) => schema::refusal(self.schema@.fields, value@) == Some(e@),
            },
            r is Ok <==> schema::refusal(self.schema@.fields, value@) is None,
            r matches Ok(w) ==> w.record.data@ == value@ && w.record.updated_at
                == w.record.created_at && w.data_text@ == json::json_text(value@),
    {
        self.insert_row(random_uuid(), now_secs(), value)
    }

    /// The row `id`, from what [`SELECT_SQL`] found.
    pub fn get(&self, id: &str, found: Option<StoredRow>) -> (r: Result<RowRecord, MiniAppError>)
        ensures
            row_outcome(r) == get_outcome(
                id@,
                match found {
                    Some(row) => Some(row@),
                    None => None,
                },
            ),
            r is Ok <==> found is Some && json::json_read(found->0.data@) is Ok,
            r matches Ok(record) ==> record.id@ == found->0.id@ && json::reads_as(
                found->0.data@,
                record.data@,
            ) && record.created_at == found->0.created_at && record.updated_at
                == found->0.updated_at,
    {
        match found {
            None => Err(MiniAppError::NotFound { id: id.to_owned() }),
            Some(row) => read_row(row),
        }
    }

    /// Plans a list of rows, newest first: 100 rows where no limit is given, and
    /// never more than 1000.
    pub fn list(&self, limit: Option<u32>, offset: Option<u32>, condition: Option<ListFilter>) -> (r:
        Result<ListQuery, MiniAppError>)
        ensures
            list_outcome(r) == list_query(limit, offset, filter_option(condition)),
            r matches Ok(q) ==> q.limit as int == (if limit is None {
                100
            } else if limit->0 < 1000 {
                limit->0 as int
            } else {
                1000
            }) && q.offset as int == (if offset is None {
                0
            } else {
                offset->0 as int
            }),
    {
        let limit: i64 = match limit {
            Some(n) => if n < 1000 {
                n as i64
            } else {
                1000
            },
            None => 100,
        };
        let offset: i64 = match offset {
            Some(n) => n as i64,
            None => 0,
        };
        match condition {
            None => {
                let params: Vec<FilterParam> = Vec::new();
                assert(filter::param_models(params@) =~= Seq::empty());
                Ok(
                    ListQuery {
                        sql: "SELECT id, data, created_at, updated_at FROM rows".to_owned().concat(
                            " ORDER BY created_at DESC LIMIT ? OFFSET ?",
                        ),
                        params,
                        limit,
                        offset,
                    },
                )
            },
            Some(f) => match f.build_sql() {
                Err(e) => Err(e),
                Ok((sql, params)) => Ok(
                    ListQuery {
                        sql: "SELECT id, data, created_at, updated_at FROM rows".to_owned().concat(
                            " WHERE ",
                        ).concat(sql.as_str()).concat(
                            " ORDER BY created_at DESC LIMIT ? OFFSET ?",
                        ),
                        params,
                        limit,
                        offset,
                    },
                ),
            },
        }
    }

    /// The number of rows, from what [`COUNT_SQL`] counted.
    pub fn row_count(&self, counted: i64) -> (r: u64)
        ensures
            r == (if counted < 0 {
                0
            } else {
                counted as int
            }),
            r == rows_there(counted),
    {
        if counted < 0 {
            0
        } else {
            counted as u64
        }
    }

    /// Plans the update of the row `id`, from what [`SELECT_FOR_UPDATE_SQL`]
    /// found, for [`UPDATE_SQL`]. In either mode the schema has the last word on
    /// the new fields.
    pub fn update(
        &self,
        id: &str,
        found: Option<(String, i64)>,
        value: JsonValue,
        mode: UpdateMode,
        now: i64,
    ) -> (r: Result<RowWrite, MiniAppError>)
        ensures
            write_outcome(r) == update_outcome(
                self.schema@.fields,
                id@,
                match found {
                    Some((data, created_at)) => Some((data@, created_at)),
                    None => None,
                },
                value@,
                mode,
                now,
            ),
            r matches Ok(w) ==> writes_readably(w),
            r matches Ok(w) ==> found is Some && w.record.id@ == id@ && w.record.created_at
                == (found->0).1 && w.record.updated_at == now && w.data_text@ == json::json_text(
                w.record.data@,
            ),
            r matches Ok(w) ==> (mode == UpdateMode::Replace ==> w.record.data@ == value@),
            r matches Ok(w) ==> (mode == UpdateMode::Merge ==> value@ is Object
                && w.record.data@ is Object && json::json_read((found->0).0@) is Ok
                && json::json_read((found->0).0@)->Ok_0 is Object && merges(
                json::json_read((found->0).0@)->Ok_0->Object_0,
                value@->Object_0,
                w.record.data@->Object_0,
            )),
    {
        let (data, created_at) = match found {
            Some(f) => f,
            None => {
                return Err(MiniAppError::NotFound { id: id.to_owned() });
            },
        };
        let merged: JsonValue = match mode {
            UpdateMode::Merge => match parse_data(data.as_str()) {
                Err(e) => {
                    return Err(e);
                },
                Ok(current) => match shallow_merge(current, value, &self.schema) {
                    Err(e) => {
                        return Err(e);
                    },
                    Ok(merged) => merged,
                },
            },
            UpdateMode::Replace => value,
        };
        match self.schema.validate(&merged) {
            Err(e) => Err(e),
            Ok(_) => Ok(
                prepared(
                    RowRecord { id: id.to_owned(), data: merged, created_at, updated_at: now },
                ),
            ),
        }
    }

    /// What deleting the row `id` came to, by the number of rows that
    /// [`DELETE_SQL`] deleted.
    pub fn delete(&self, id: &str, deleted: usize) -> (r: Result<(), MiniAppError>)
        ensures
            filter::reports(r, delete_outcome(id@, deleted)),
    {
        if deleted == 0 {
            Err(MiniAppError::NotFound { id: id.to_owned() })
        } else {
            Ok(())
        }
    }
}

/// Reads a stored row.
pub fn read_row(row: StoredRow) -> (r: Result<RowRecord, MiniAppError>)
    ensures
        row_outcome(r) == row_read(row@),
{
    match parse_data(row.data.as_str()) {
        Err(e) => Err(e),
        Ok(data) => Ok(
            RowRecord { id: row.id, data, created_at: row.created_at, updated_at: row.updated_at },
        ),
    }
}

/// The first failure among fetched rows is the failure of the whole.
proof fn rows_read_fails_early(rows: Seq<Result<StoredRow, String>>, n: int)
    requires
        0 <= n <= rows.len(),
        rows_read(rows.take(n)) is Err,
    ensures
        rows_read(rows) == rows_read(rows.take(n)),
    decreases rows.len() - n,
{
    if n < rows.len() {
        assert(rows.take(n + 1).drop_last() =~= rows.take(n));
        rows_read_fails_early(rows, n + 1);
    } else {
        assert(rows.take(n) =~= rows);
    }
}

/// Reads fetched rows, in order, up to the first failure.
pub fn read_rows(rows: Vec<Result<StoredRow, String>>) -> (r: Result<Vec<RowRecord>, MiniAppError>)
    ensures
        rows_outcome(r) == rows_read(rows@),
{
    let ghost given = rows@;
    let mut read: Vec<RowRecord> = Vec::new();
    assert(given.take(0) =~= Seq::<Result<StoredRow, String>>::empty());
    assert(row_models(read@) =~= Seq::<RowModel>::empty());
    for row in it: rows
        invariant
            it.seq() == given,
            given == rows@,
            rows_read(given.take(it.index() as int)) == Ok::<Seq<RowModel>, ErrorModel>(
                row_models(read@),
            ),
    {
        let ghost upto = given.take(it.index() + 1);
        assert(upto.drop_last() =~= given.take(it.index() as int));
        assert(upto.last() == row);
        let outcome: Result<RowRecord, MiniAppError> = match row {
            Ok(stored) => read_row(stored),
            Err(e) => Err(MiniAppError::Storage(e)),
        };
        match outcome {
            Err(e) => {
                proof {
                    rows_read_fails_early(given, it.index() + 1);
                }
                return Err(e);
            },
            Ok(record) => {
                let ghost before = row_models(read@);
                read.push(record);
                assert(row_models(read@) =~= before.push(record@));
            },
        }
    }
    assert(given.take(given.len() as int) =~= given);
    Ok(read)
}

/// Fields that a patch does not mention stay as they are.
pub proof fn merge_preserves_absent_fields(
    current: Map<Seq<char>, JsonModel>,
    patch: Map<Seq<char>, JsonModel>,
    key: Seq<char>,
)
    requires
        !patch.contains_key(key),
    ensures
        merged(current, patch).contains_key(key) == current.contains_key(key),
        current.contains_key(key) ==> merged(current, patch)[key] == current[key],
{
}

/// A value in a patch becomes the value of the field, as a whole.
pub proof fn merge_overwrites_with_values(
    current: Map<Seq<char>, JsonModel>,
    patch: Map<Seq<char>, JsonModel>,
    key: Seq<char>,
)
    requires
        patch.contains_key(key),
        !(patch[key] is Null),
    ensures
        merged(current, patch).contains_key(key),
        merged(current, patch)[key] == patch[key],
{
}

/// Null in a patch takes the field away.
pub proof fn merge_deletes_with_null(
    current: Map<Seq<char>, JsonModel>,
    patch: Map<Seq<char>, JsonModel>,
    key: Seq<char>,
)
    requires
        patch.contains_key(key),
        patch[key] is Null,
    ensures
        !merged(current, patch).contains_key(key),
{
}

/// Merging the same patch once more changes nothing.
pub proof fn merge_is_idempotent(
    current: Map<Seq<char>, JsonModel>,
    patch: Map<Seq<char>, JsonModel>,
)
    ensures
        merged(merged(current, patch), patch) == merged(current, patch),
{
    assert(merged(merged(current, patch), patch) =~= merged(current, patch));
}

/// Merging nothing changes nothing.
pub proof fn merging_nothing_changes_nothing(current: Map<Seq<char>, JsonModel>)
    ensures
        merged(current, Map::empty()) == current,
{
    assert(merged(current, Map::empty()) =~= current);
}

/// A patch with null for a required field is refused, whatever else it holds.
pub proof fn required_field_cannot_be_deleted(
    current: Map<Seq<char>, JsonModel>,
    patch: Map<Seq<char>, JsonModel>,
    fields: Seq<FieldModel>,
    key: Seq<char>,
)
    requires
        patch.contains_key(key),
        patch[key] is Null,
        is_required(fields, key),
    ensures
        merge_outcome(JsonModel::Object(current), JsonModel::Object(patch), fields) is Err,
{
    assert(forbidden(patch, fields, key));
}

/// An update that succeeds keeps the id and the time of creation, sets the time
/// of the update, and leaves fields that the schema accepts.
pub proof fn update_keeps_identity_and_conforms(
    fields: Seq<FieldModel>,
    id: Seq<char>,
    found: Option<(Seq<char>, i64)>,
    value: JsonModel,
    mode: UpdateMode,
    now: i64,
)
    requires
        update_outcome(fields, id, found, value, mode, now) is Ok,
    ensures
        found is Some,
        ({
            let row = update_outcome(fields, id, found, value, mode, now)->Ok_0;
            &&& row.id == id
            &&& found matches Some(f) && row.created_at == f.1
            &&& row.updated_at == now
            &&& schema::conforms(fields, row.data)
        }),
{
    let row = update_outcome(fields, id, found, value, mode, now)->Ok_0;
    schema::accepted_exactly_when_conforming(fields, row.data);
}

/// A row that is created conforms to the schema, holds exactly what was given,
/// and was updated when it was created.
pub proof fn created_rows_conform(
    fields: Seq<FieldModel>,
    id: Seq<char>,
    value: JsonModel,
    now: i64,
)
    requires
        create_outcome(fields, id, value, now) is Ok,
    ensures
        schema::conforms(fields, value),
        create_outcome(fields, id, value, now)->Ok_0 == (RowModel {
            id,
            data: value,
            created_at: now,
            updated_at: now,
        }),
{
    schema::accepted_exactly_when_conforming(fields, value);
}

/// Replacing leaves nothing of what was stored: the outcome is the same whatever
/// the fields were, and a row that is written holds exactly what was given.
pub proof fn replacing_forgets_stored_fields(
    fields: Seq<FieldModel>,
    id: Seq<char>,
    a: Seq<char>,
    b: Seq<char>,
    created_at: i64,
    value: JsonModel,
    now: i64,
)
    ensures
        update_outcome(fields, id, Some((a, created_at)), value, UpdateMode::Replace, now)
            == update_outcome(fields, id, Some((b, created_at)), value, UpdateMode::Replace, now),
        update_outcome(fields, id, Some((a, created_at)), value, UpdateMode::Replace, now) matches Ok(
            row,
        ) ==> row.data == value,
{
}

/// What a merge is: of the members of `current` and of `patch`, `result` has
/// those that `current` has and the patch does not name, with their values; those
/// that the patch names with a value, with that value; and none that the patch
/// names with null.
pub open spec fn merges(
    current: Map<Seq<char>, JsonModel>,
    patch: Map<Seq<char>, JsonModel>,
    result: Map<Seq<char>, JsonModel>,
) -> bool {
    &&& forall|k: Seq<char>|
        #![trigger result.contains_key(k)]
        #![trigger current.contains_key(k)]
        !patch.contains_key(k) ==> (result.contains_key(k) <==> current.contains_key(k)) && (
        current.contains_key(k) ==> result[k] == current[k])
    &&& forall|k: Seq<char>|
        #![trigger result.contains_key(k)]
        #![trigger patch.contains_key(k)]
        patch.contains_key(k) && patch[k] != JsonModel::Null ==> result.contains_key(k) && result[k]
            == patch[k]
    &&& forall|k: Seq<char>|
        #![trigger result.contains_key(k)]
        #![trigger patch.contains_key(k)]
        patch.contains_key(k) && patch[k] == JsonModel::Null ==> !result.contains_key(k)
}

/// Whether a patch gives null for a field that the schema requires.
pub open spec fn takes_required(
    patch: Map<Seq<char>, JsonModel>,
    fields: Seq<FieldModel>,
    key: Seq<char>,
) -> bool {
    &&& patch.contains_key(key) && patch[key] == JsonModel::Null
    &&& exists|f: FieldModel| #[trigger] schema::declares(fields, key, f) && f.required
}

/// An update that merges writes the merge of the stored fields and the patch, as
/// [`merges`] says, where the schema accepts it, and is refused as the schema
/// refuses it where it does not. A patch that gives null for a required field is
/// refused before that, for the first such field in alphabetical order.
pub proof fn updates_write_the_merge(
    fields: Seq<FieldModel>,
    id: Seq<char>,
    data: Seq<char>,
    created_at: i64,
    current: Map<Seq<char>, JsonModel>,
    patch: Map<Seq<char>, JsonModel>,
    result: Map<Seq<char>, JsonModel>,
    now: i64,
)
    requires
        json::reads_as(data, JsonModel::Object(current)),
        merges(current, patch, result),
    ensures
        ({
            let outcome = update_outcome(
                fields,
                id,
                Some((data, created_at)),
                JsonModel::Object(patch),
                UpdateMode::Merge,
                now,
            );
            &&& forall|k: Seq<char>| #[trigger]
                takes_required(patch, fields, k) && (forall|j: Seq<char>| #[trigger]
                    takes_required(patch, fields, j) ==> j == k || text::text_before(k, j))
                    ==> outcome == Err::<RowModel, ErrorModel>(
                    ErrorModel::Validation {
                        field: k,
                        reason: "required field cannot be deleted via null"@,
                    },
                )
            &&& (forall|k: Seq<char>| !(#[trigger] takes_required(patch, fields, k))) ==> outcome
                == (match schema::refusal(fields, JsonModel::Object(result)) {
                Some(e) => Err::<RowModel, ErrorModel>(e),
                None => Ok(
                    RowModel {
                        id,
                        data: JsonModel::Object(result),
                        created_at,
                        updated_at: now,
                    },
                ),
            })
        }),
{
    assert(merged(current, patch) =~= result);
    assert forall|k: Seq<char>| #[trigger] takes_required(patch, fields, k) <==> forbidden(
        patch,
        fields,
        k,
    ) by {
        schema::names_stand_for_fields(fields, k);
        if forbidden(patch, fields, k) {
            assert(schema::declares(fields, k, schema::field_called(fields, k)->0));
        }
    }
    assert forall|k: Seq<char>| #[trigger]
        takes_required(patch, fields, k) && (forall|j: Seq<char>| #[trigger]
            takes_required(patch, fields, j) ==> j == k || text::text_before(k, j)) implies update_outcome(
        fields,
        id,
        Some((data, created_at)),
        JsonModel::Object(patch),
        UpdateMode::Merge,
        now,
    ) == Err::<RowModel, ErrorModel>(
        ErrorModel::Validation {
            field: k,
            reason: "required field cannot be deleted via null"@,
        },
    ) by {
        assert forall|j: Seq<char>| #[trigger] forbidden(patch, fields, j) implies j == k
            || text::text_before(k, j) by {
            assert(takes_required(patch, fields, j));
        }
        assert(forbidden(patch, fields, k));
        assert(first_forbidden(patch, fields, k));
        first_forbidden_is_reported(current, patch, fields, k);
    }
    assert forall|k: Seq<char>| !takes_required(patch, fields, k) implies !(#[trigger] forbidden(
        patch,
        fields,
        k,
    )) by {
        assert(takes_required(patch, fields, k) <==> forbidden(patch, fields, k));
    }
}

/// An update of a row that is not there, whose stored fields cannot be read or are
/// no object, or with a patch that is no object, is refused for that reason. In
/// either mode the schema has the last word.
pub proof fn updates_are_refused(
    fields: Seq<FieldModel>,
    id: Seq<char>,
    data: Seq<char>,
    created_at: i64,
    value: JsonModel,
    mode: UpdateMode,
    now: i64,
)
    ensures
        update_outcome(fields, id, None, value, mode, now) == Err::<RowModel, ErrorModel>(
            ErrorModel::NotFound { id },
        ),
        ({
            let outcome = update_outcome(fields, id, Some((data, created_at)), value, mode, now);
            &&& mode == UpdateMode::Replace ==> outcome == (match schema::refusal(fields, value) {
                Some(e) => Err::<RowModel, ErrorModel>(e),
                None => Ok(RowModel { id, data: value, created_at, updated_at: now }),
            })
            &&& mode == UpdateMode::Merge ==> (match json::json_read(data) {
                Err(e) => outcome == Err::<RowModel, ErrorModel>(
                    ErrorModel::Schema("data column: "@ + e),
                ),
                Ok(current) => if !(value is Object) {
                    outcome == Err::<RowModel, ErrorModel>(
                        ErrorModel::Validation {
                            field: "(root)"@,
                            reason: "patch must be a JSON object"@,
                        },
                    )
                } else if !(current is Object) {
                    outcome == Err::<RowModel, ErrorModel>(
                        ErrorModel::Validation {
                            field: "(root)"@,
                            reason: "stored row is not a JSON object"@,
                        },
                    )
                } else {
                    outcome matches Ok(row) ==> row.data is Object && schema::refusal(
                        fields,
                        row.data,
                    ) is None
                },
            })
        }),
{
}

/// A row is created exactly where the schema accepts it, with the id, the fields
/// and the time given; otherwise the refusal of the schema is reported.
pub proof fn creations_follow_the_schema(
    fields: Seq<FieldModel>,
    id: Seq<char>,
    value: JsonModel,
    now: i64,
)
    ensures
        schema::refusal(fields, value) matches Some(e) ==> create_outcome(fields, id, value, now)
            == Err::<RowModel, ErrorModel>(e),
        schema::refusal(fields, value) is None ==> create_outcome(fields, id, value, now) == Ok::<
            RowModel,
            ErrorModel,
        >(RowModel { id, data: value, created_at: now, updated_at: now }),
{
}

/// A stored row reads as itself: the same id and times, and the fields that its
/// data column reads as. One whose column cannot be read is an error that says so.
/// A row is stored under its id and times, with the JSON text of its fields.
pub proof fn stored_rows_read_as_themselves(
    id: Seq<char>,
    row: StoredModel,
    fetched: StoredRow,
    cause: String,
    written: RowModel,
)
    ensures
        get_outcome(id, None) == Err::<RowModel, ErrorModel>(ErrorModel::NotFound { id }),
        json::json_read(row.data) matches Ok(v) ==> get_outcome(id, Some(row)) == Ok::<
            RowModel,
            ErrorModel,
        >(
            RowModel {
                id: row.id,
                data: v,
                created_at: row.created_at,
                updated_at: row.updated_at,
            },
        ),
        json::json_read(row.data) matches Err(e) ==> get_outcome(id, Some(row)) == Err::<
            RowModel,
            ErrorModel,
        >(ErrorModel::Schema("data column: "@ + e)),
        fetched_read(Ok(fetched)) == get_outcome(id, Some(fetched@)),
        fetched_read(Err(cause)) == Err::<RowModel, ErrorModel>(ErrorModel::Storage(cause@)),
        stored_as(written).id == written.id && stored_as(written).created_at == written.created_at
            && stored_as(written).updated_at == written.updated_at,
        stored_as(written).data == json::json_text(written.data),
{
}

/// Fetched rows are read one by one, in order, none left out; where one cannot be
/// read, the first such is the failure of the whole.
pub proof fn fetched_rows_are_read_in_order(rows: Seq<Result<StoredRow, String>>)
    ensures
        rows_read(rows) matches Ok(read) ==> read.len() == rows.len() && forall|i: int|
            0 <= i < rows.len() ==> fetched_read(#[trigger] rows[i]) == Ok::<RowModel, ErrorModel>(
                read[i],
            ),
        rows_read(rows) matches Err(e) ==> exists|k: int|
            #![trigger rows[k]]
            0 <= k < rows.len() && fetched_read(rows[k]) == Err::<RowModel, ErrorModel>(e)
                && forall|j: int| 0 <= j < k ==> fetched_read(#[trigger] rows[j]) is Ok,
    decreases rows.len(),
{
    if rows.len() > 0 {
        let front = rows.drop_last();
        fetched_rows_are_read_in_order(front);
        match rows_read(front) {
            Ok(read) => {
                assert forall|j: int| 0 <= j < rows.len() - 1 implies fetched_read(
                    #[trigger] rows[j],
                ) == Ok::<RowModel, ErrorModel>(read[j]) by {
                    assert(front[j] == rows[j]);
                }
                assert(rows[rows.len() - 1] == rows.last());
            },
            Err(e) => {
                let k = choose|k: int|
                    #![trigger front[k]]
                    0 <= k < front.len() && fetched_read(front[k]) == Err::<RowModel, ErrorModel>(e)
                        && forall|j: int| 0 <= j < k ==> fetched_read(#[trigger] front[j]) is Ok;
                assert(rows[k] == front[k]);
                assert forall|j: int| 0 <= j < k implies fetched_read(#[trigger] rows[j]) is Ok by {
                    assert(front[j] == rows[j]);
                }
            },
        }
    }
}

/// What is listed: as many rows as asked for, 100 where nothing is asked, 1000 at
/// most; from the row asked for on, the first where nothing is asked; newest first;
/// all rows without a filter, and with one those that its condition picks, with the
/// values of the filter bound.
pub proof fn lists_are_bounded_and_filtered(
    limit: Option<u32>,
    offset: Option<u32>,
    condition: Option<filter::FilterModel>,
)
    ensures
        match list_query(limit, offset, condition) {
            Ok(q) => {
                &&& limit is None ==> q.limit == 100
                &&& limit matches Some(n) ==> q.limit <= 1000 && q.limit <= n && (q.limit == n
                    || q.limit == 1000)
                &&& offset is None ==> q.offset == 0
                &&& offset matches Some(n) ==> q.offset == n
                &&& condition is None ==> q.params.len() == 0 && q.sql
                    == "SELECT id, data, created_at, updated_at FROM rows"@
                    + " ORDER BY created_at DESC LIMIT ? OFFSET ?"@
                &&& condition matches Some(f) ==> filter::sql_of(f) is Ok && q.params
                    == filter::sql_of(f)->Ok_0.1 && filter::binds(
                    q.params,
                    filter::compared_with(f),
                ) && q.sql == "SELECT id, data, created_at, updated_at FROM rows"@ + " WHERE "@
                    + filter::sql_of(f)->Ok_0.0 + " ORDER BY created_at DESC LIMIT ? OFFSET ?"@
            },
            Err(e) => condition matches Some(f) && filter::sql_of(f) == Err::<
                (Seq<char>, Seq<filter::ParamModel>),
                ErrorModel,
            >(e),
        },
{
    match condition {
        Some(f) => {
            if filter::sql_of(f) is Ok {
                filter::bound_values_are_the_compared(f);
            }
        },
        None => {},
    }
}

/// Deleting succeeds exactly where something was deleted.
pub proof fn deleting_nothing_is_not_found(id: Seq<char>, deleted: usize)
    ensures
        deleted > 0 <==> delete_outcome(id, deleted) is None,
        deleted == 0 ==> delete_outcome(id, deleted) == Some(ErrorModel::NotFound { id }),
{
}

/// Rows say what they hold.
pub proof fn rows_say_what_they_hold(row: RowRecord, stored: StoredRow)
    ensures
        row@.id == row.id@ && row@.data == row.data@ && row@.created_at == row.created_at
            && row@.updated_at == row.updated_at,
        stored@.id == stored.id@ && stored@.data == stored.data@ && stored@.created_at
            == stored.created_at && stored@.updated_at == stored.updated_at,
{
}

/// The rows of a table by their ids, as they are stored.
pub open spec fn after_write(rows: Map<Seq<char>, StoredModel>, row: RowModel) -> Map<
    Seq<char>,
    StoredModel,
> {
    rows.insert(row.id, stored_as(row))
}

/// What is found of a row.
pub open spec fn found_in(rows: Map<Seq<char>, StoredModel>, id: Seq<char>) -> Option<StoredModel> {
    if rows.contains_key(id) {
        Some(rows[id])
    } else {
        None
    }
}

/// What a table gives back after a row was written: the row itself under its id,
/// where what was stored reads back (see [`writes_readably`]), and every other
/// row unchanged.
pub proof fn get_after_write(rows: Map<Seq<char>, StoredModel>, row: RowModel, other: Seq<char>)
    requires
        row_read(stored_as(row)) == Ok::<RowModel, ErrorModel>(row),
    ensures
        get_outcome(row.id, found_in(after_write(rows, row), row.id)) == Ok::<RowModel, ErrorModel>(
            row,
        ),
        other != row.id ==> get_outcome(other, found_in(after_write(rows, row), other))
            == get_outcome(other, found_in(rows, other)),
{
}

/// After a row was deleted it is not found, and deleting it again, which deletes
/// nothing, reports the same. Every other row stays.
pub proof fn get_after_delete(
    rows: Map<Seq<char>, StoredModel>,
    id: Seq<char>,
    other: Seq<char>,
)
    ensures
        get_outcome(id, found_in(rows.remove(id), id)) == Err::<RowModel, ErrorModel>(
            ErrorModel::NotFound { id },
        ),
        delete_outcome(id, 0) == Some(ErrorModel::NotFound { id }),
        other != id ==> get_outcome(other, found_in(rows.remove(id), other)) == get_outcome(
            other,
            found_in(rows, other),
        ),
{
}

/// Outcomes are what was returned: the row that is to be written, the rows and the
/// values that were read, the statement, and each error as it is.
pub proof fn outcomes_are_what_was_returned(
    w: RowWrite,
    row: RowRecord,
    rows: Vec<RowRecord>,
    v: JsonValue,
    q: ListQuery,
    f: ListFilter,
    e: MiniAppError,
    i: int,
)
    ensures
        write_outcome(Ok(w)) == Ok::<RowModel, ErrorModel>(w.record@),
        write_outcome(Err(e)) == Err::<RowModel, ErrorModel>(e@),
        row_outcome(Ok(row)) == Ok::<RowModel, ErrorModel>(row@),
        row_outcome(Err(e)) == Err::<RowModel, ErrorModel>(e@),
        value_outcome(Ok(v)) == Ok::<JsonModel, ErrorModel>(v@),
        value_outcome(Err(e)) == Err::<JsonModel, ErrorModel>(e@),
        list_outcome(Ok(q)) == Ok::<ListModel, ErrorModel>(q@),
        list_outcome(Err(e)) == Err::<ListModel, ErrorModel>(e@),
        rows_outcome(Err(e)) == Err::<Seq<RowModel>, ErrorModel>(e@),
        rows_outcome(Ok(rows)) matches Ok(read) && read.len() == rows@.len() && (0 <= i
            < rows@.len() ==> read[i] == rows@[i]@),
        q@.sql == q.sql@ && q@.limit == q.limit && q@.offset == q.offset,
        q@.params.len() == q.params@.len(),
        0 <= i < q.params@.len() ==> q@.params[i] == q.params@[i]@,
        filter_option(Some(f)) == Some(f@) && filter_option(None) is None,
{
}

/// Files are to be read back only where a schema has them written and asks for both
/// directions.
pub proof fn files_are_read_back_where_asked(s: schema::SchemaModel)
    ensures
        s.dump is None ==> !asks_for_sync(s),
        s.dump matches Some(d) ==> (d.sync is None ==> !asks_for_sync(s)) && (d.sync == Some(
            crate::dump::SyncMode::WriteOnly,
        ) ==> !asks_for_sync(s)) && (d.sync == Some(crate::dump::SyncMode::Bidirectional)
            ==> asks_for_sync(s)),
{
}

} // verus!
