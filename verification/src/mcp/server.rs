//! What the tools on rows answer.

use vstd::prelude::*;
use vstd::string::*;

use crate::error;
use crate::error::ErrorModel;
use crate::error::MiniAppError;
use crate::filter;
use crate::json;
use crate::json::JsonModel;
use crate::json::NumberModel;
use crate::json::{JsonNumber, JsonObject, JsonValue};
use crate::mcp::plan;
use crate::mcp::plan::Report;
use crate::mcp::registry::TableRegistry;
use crate::members;
use crate::path;
use crate::path::FilePath;
use crate::schema;
use crate::schema::FieldModel;
use crate::schema::SchemaConfig;
use crate::store;
use crate::store::RowModel;
use crate::store::RowRecord;
use crate::text;

verus! {

broadcast use vstd::map::group_map_axioms;

/// An integer as JSON.
pub open spec fn integer_json(n: int) -> JsonModel {
    JsonModel::Number(NumberModel::Integer(n))
}

/// A row as the tools show it: its members in the order in which a row declares
/// them.
pub open spec fn row_members(row: RowModel) -> Seq<(Seq<char>, Seq<char>)> {
    seq![
        ("id"@, json::json_text(JsonModel::Text(row.id))),
        ("data"@, json::json_text(row.data)),
        ("created_at"@, json::json_text(integer_json(row.created_at as int))),
        ("updated_at"@, json::json_text(integer_json(row.updated_at as int))),
    ]
}

/// The text of a row as the tools show it.
pub open spec fn row_shown(row: RowModel) -> Seq<char> {
    members::object_text(row_members(row))
}

/// The row as the tools show it.
pub fn row_text(row: &RowRecord) -> (r: String)
    ensures
        r@ == row_shown(row@),
{
    let mut o: Vec<(String, String)> = Vec::new();
    o.push(("id".to_owned(), JsonValue::Text(row.id.clone()).to_text()));
    o.push(("data".to_owned(), row.data.to_text()));
    o.push(
        (
            "created_at".to_owned(),
            JsonValue::Number(JsonNumber::Signed(row.created_at)).to_text(),
        ),
    );
    o.push(
        (
            "updated_at".to_owned(),
            JsonValue::Number(JsonNumber::Signed(row.updated_at)).to_text(),
        ),
    );
    assert(members::member_texts(o@) =~= row_members(row@));
    members::write_object(&o)
}

/// The text of rows as the `list` tool shows them, in the order given.
pub open spec fn rows_shown(rows: Seq<RowModel>) -> Seq<char> {
    members::array_text(rows.map_values(|row: RowModel| row_shown(row)))
}

/// The rows as the `list` tool shows them, in the order given.
pub fn rows_text(rows: &Vec<RowRecord>) -> (r: String)
    ensures
        r@ == members::array_text(
            store::row_models(rows@).map_values(|row: RowModel| row_shown(row)),
        ),
        r@ == rows_shown(store::row_models(rows@)),
{
    let mut items: Vec<String> = Vec::new();
    let mut i: usize = 0;
    while i < rows.len()
        invariant
            i <= rows@.len(),
            items@.len() == i,
            forall|j: int| 0 <= j < i ==> (#[trigger] items@[j])@ == row_shown(rows@[j]@),
        decreases rows@.len() - i,
    {
        items.push(row_text(&rows[i]));
        i += 1;
    }
    assert(text::texts(items@) =~= store::row_models(rows@).map_values(
        |row: RowModel| row_shown(row),
    ));
    members::write_array(&items)
}

/// The answer of the `delete` tool, as JSON.
pub open spec fn deleted_json(id: Seq<char>) -> JsonModel {
    JsonModel::Object(
        Map::<Seq<char>, JsonModel>::empty().insert("deleted"@, JsonModel::Text(id)),
    )
}

/// The answer of the `delete` tool.
pub fn deleted_value(id: &str) -> (r: JsonValue)
    ensures
        r@ == deleted_json(id@),
{
    let mut o: JsonObject = JsonObject::new();
    o.insert("deleted".to_owned(), JsonValue::Text(id.to_owned()));
    JsonValue::Object(o)
}

/// The length of a full id.
pub const FULL_ID_LEN: usize = 36;

/// Whether an id is shorter than a full one.
pub open spec fn is_short(id: Seq<char>) -> bool {
    id.len() < FULL_ID_LEN
}

/// Whether an id is shorter than a full one, and so stands for the rows whose ids
/// begin with it.
pub fn is_id_prefix(id: &str) -> (r: bool)
    ensures
        r == is_short(id@),
{
    id.unicode_len() < FULL_ID_LEN
}

/// The row that an id prefix stands for, given the ids that begin with it.
pub open spec fn row_meant(prefix: Seq<char>, found: Seq<Seq<char>>) -> Result<
    Seq<char>,
    ErrorModel,
> {
    if found.len() == 0 {
        Err(ErrorModel::NotFound { id: prefix })
    } else if found.len() == 1 {
        Ok(found[0])
    } else {
        Err(ErrorModel::AmbiguousId { id_prefix: prefix, candidates: found })
    }
}

/// The outcome of finding an id, as a model.
pub open spec fn id_outcome(r: Result<String, MiniAppError>) -> Result<Seq<char>, ErrorModel> {
    match r {
        Ok(id) => Ok(id@),
        Err(e) => Err(e@),
    }
}

/// The row that an id prefix stands for: the one row whose id begins with it. With
/// none it is not found, with several it is ambiguous.
pub fn resolve_id_prefix(prefix: &str, found: Vec<String>) -> (r: Result<String, MiniAppError>)
    ensures
        id_outcome(r) == row_meant(prefix@, text::texts(found@)),
{
    if found.len() == 0 {
        Err(MiniAppError::NotFound { id: prefix.to_owned() })
    } else if found.len() == 1 {
        Ok(found[0].clone())
    } else {
        Err(MiniAppError::AmbiguousId { id_prefix: prefix.to_owned(), candidates: found })
    }
}

/// The id of a row is never taken for a prefix.
pub proof fn row_ids_are_full(id: Seq<char>)
    requires
        store::is_uuid_v4(id),
    ensures
        !(id.len() < FULL_ID_LEN),
{
}

/// Which fields of a row are shown.
#[derive(Debug, PartialEq, Eq)]
pub enum FieldSelector {
    All,
    List(Vec<String>),
}

/// The complaint about the first field that the schema does not have.
pub open spec fn unknown_selected(names: Seq<Seq<char>>, fields: Seq<FieldModel>) -> Option<
    ErrorModel,
>
    decreases names.len(),
{
    if names.len() == 0 {
        None
    } else if schema::field_called(fields, names[0]) is None {
        Some(
            ErrorModel::Validation {
                field: names[0],
                reason: "unknown field '"@ + names[0]
                    + "' — only schema-registered fields can be selected"@,
            },
        )
    } else {
        unknown_selected(names.drop_first(), fields)
    }
}

/// The members under the given names.
pub open spec fn members_named(
    members: Map<Seq<char>, JsonModel>,
    names: Seq<Seq<char>>,
) -> Map<Seq<char>, JsonModel> {
    Map::new(
        |k: Seq<char>| members.contains_key(k) && names.contains(k),
        |k: Seq<char>| members[k],
    )
}

/// The fields of a row as far as they are shown.
pub open spec fn shown(data: JsonModel, selector: FieldSelector) -> JsonModel {
    match selector {
        FieldSelector::All => data,
        FieldSelector::List(names) => match data {
            JsonModel::Object(members) => JsonModel::Object(
                members_named(members, text::texts(names@)),
            ),
            _ => data,
        },
    }
}

/// What is wrong with a selector, if anything.
pub open spec fn selector_failure(selector: FieldSelector, fields: Seq<FieldModel>) -> Option<
    ErrorModel,
> {
    match selector {
        FieldSelector::All => None,
        FieldSelector::List(names) => unknown_selected(text::texts(names@), fields),
    }
}

impl FieldSelector {
    /// Checks the selector against a schema: every field must be declared.
    pub fn validate(&self, schema: &SchemaConfig) -> (r: Result<(), MiniAppError>)
        ensures
            filter::reports(r, selector_failure(*self, schema@.fields)),
    {
        match self {
            FieldSelector::All => Ok(()),
            FieldSelector::List(names) => {
                let ghost all = text::texts(names@);
                let mut i: usize = 0;
                assert(all.skip(0) =~= all);
                while i < names.len()
                    invariant
                        i <= names@.len(),
                        all == text::texts(names@),
                        *self == FieldSelector::List(*names),
                        unknown_selected(all, schema@.fields) == unknown_selected(
                            all.skip(i as int),
                            schema@.fields,
                        ),
                    decreases names@.len() - i,
                {
                    let ghost rest = all.skip(i as int);
                    assert(rest[0] == names@[i as int]@);
                    assert(rest.drop_first() =~= all.skip(i + 1));
                    let name: &String = &names[i];
                    match schema.field(name.as_str()) {
                        Some(_) => {},
                        None => {
                            return Err(
                                MiniAppError::Validation {
                                    field: name.clone(),
                                    reason: "unknown field '".to_owned().concat(
                                        name.as_str(),
                                    ).concat("' — only schema-registered fields can be selected"),
                                },
                            );
                        },
                    }
                    i += 1;
                }
                Ok(())
            },
        }
    }

    /// The fields of a row as far as they are shown.
    pub fn project(&self, data: &JsonValue) -> (r: JsonValue)
        ensures
            r@ == shown(data@, *self),
    {
        match self {
            FieldSelector::All => data.duplicate(),
            FieldSelector::List(names) => match data {
                JsonValue::Object(members) => {
                    let ghost all = text::texts(names@);
                    let mut o: JsonObject = JsonObject::new();
                    let mut i: usize = 0;
                    assert(members_named(members@, all.take(0)) =~= Map::empty());
                    while i < names.len()
                        invariant
                            i <= names@.len(),
                            all == text::texts(names@),
                            o@ == members_named(members@, all.take(i as int)),
                        decreases names@.len() - i,
                    {
                        let name: &String = &names[i];
                        let ghost before = all.take(i as int);
                        let ghost upto = all.take(i + 1);
                        proof {
                            assert(upto =~= before.push(name@));
                            assert forall|k: Seq<char>| #[trigger] upto.contains(k) <==> (
                            before.contains(k) || k == name@) by {
                                if before.contains(k) {
                                    let j = choose|j: int| 0 <= j < before.len() && before[j] == k;
                                    assert(upto[j] == k);
                                }
                                if k == name@ {
                                    assert(upto[i as int] == k);
                                }
                            }
                        }
                        match members.get(name.as_str()) {
                            Some(v) => {
                                o.insert(name.clone(), v.duplicate());
                            },
                            None => {},
                        }
                        assert(o@ =~= members_named(members@, upto));
                        i += 1;
                    }
                    assert(all.take(all.len() as int) =~= all);
                    JsonValue::Object(o)
                },
                _ => data.duplicate(),
            },
        }
    }
}

/// What is shown of a row is part of the row, and every selected field that the
/// row has is shown.
pub proof fn projection_shows_what_is_selected(
    members: Map<Seq<char>, JsonModel>,
    names: Seq<Seq<char>>,
    key: Seq<char>,
)
    ensures
        members_named(members, names).contains_key(key) <==> members.contains_key(key)
            && names.contains(key),
        members_named(members, names).contains_key(key) ==> members_named(members, names)[key]
            == members[key],
{
}

/// The list of the names that are in `a` and not in `b`, in ascending order.
pub open spec fn lists_new_names(
    names: Seq<Seq<char>>,
    a: Set<Seq<char>>,
    b: Set<Seq<char>>,
) -> bool {
    &&& text::ascending(names)
    &&& forall|n: Seq<char>| #[trigger] names.contains(n) <==> a.contains(n) && !b.contains(n)
}

/// The names that are in `a` and not in `b`, in ascending order.
pub open spec fn new_names(a: Set<Seq<char>>, b: Set<Seq<char>>) -> Seq<Seq<char>> {
    choose|names: Seq<Seq<char>>| lists_new_names(names, a, b)
}

/// The list is determined by what it holds.
pub proof fn new_names_are_determined(
    names: Seq<Seq<char>>,
    a: Set<Seq<char>>,
    b: Set<Seq<char>>,
)
    requires
        lists_new_names(names, a, b),
    ensures
        new_names(a, b) == names,
{
    text::ascending_lists_with_same_texts(names, new_names(a, b));
}

fn names_missing<S, T>(a: &TableRegistry<S>, b: &TableRegistry<T>) -> (r: Vec<String>)
    ensures
        text::texts(r@) == new_names(a.tables().dom(), b.tables().dom()),
{
    let names: Vec<String> = a.table_names();
    let ghost all = text::texts(names@);
    let mut r: Vec<String> = Vec::new();
    let mut i: usize = 0;
    while i < names.len()
        invariant
            i <= names@.len(),
            all == text::texts(names@),
            text::ascending(all),
            text::ascending(text::texts(r@)),
            forall|n: Seq<char>| #[trigger]
                text::texts(r@).contains(n) <==> exists|j: int|
                    0 <= j < i && #[trigger] all[j] == n && !b.tables().contains_key(n),
        decreases names@.len() - i,
    {
        let name: &String = &names[i];
        let ghost before = text::texts(r@);
        let taken: bool = !b.is_mounted(name.as_str());
        if taken {
            r.push(name.clone());
        }
        proof {
            let now = text::texts(r@);
            assert(all[i as int] == name@);
            if taken {
                assert(now =~= before.push(name@));
                assert forall|x: int, y: int| 0 <= x < y < now.len() implies text::text_before(
                    now[x],
                    now[y],
                ) by {
                    if y < before.len() {
                        assert(text::text_before(before[x], before[y]));
                    } else {
                        assert(before.contains(before[x]));
                        let j = choose|j: int|
                            0 <= j < i && #[trigger] all[j] == before[x]
                                && !b.tables().contains_key(before[x]);
                        assert(text::text_before(all[j], all[i as int]));
                    }
                }
            }
            assert forall|n: Seq<char>| #[trigger] now.contains(n) <==> exists|j: int|
                0 <= j < i + 1 && #[trigger] all[j] == n && !b.tables().contains_key(n) by {
                if now.contains(n) {
                    let h = choose|h: int| 0 <= h < now.len() && now[h] == n;
                    if h < before.len() {
                        assert(before[h] == n);
                        assert(before.contains(n));
                    } else {
                        assert(all[i as int] == n);
                    }
                }
                if exists|j: int|
                    0 <= j < i + 1 && #[trigger] all[j] == n && !b.tables().contains_key(n) {
                    let j = choose|j: int|
                        0 <= j < i + 1 && #[trigger] all[j] == n && !b.tables().contains_key(n);
                    if j < i {
                        assert(before.contains(n));
                        let h = choose|h: int| 0 <= h < before.len() && before[h] == n;
                        assert(now[h] == n);
                    } else {
                        assert(now[now.len() - 1] == n);
                    }
                }
            }
        }
        i += 1;
    }
    proof {
        let got = text::texts(r@);
        let x = a.tables().dom();
        let y = b.tables().dom();
        assert forall|n: Seq<char>| #[trigger] got.contains(n) <==> x.contains(n) && !y.contains(
            n,
        ) by {
            assert(a.tables().contains_key(n) <==> all.contains(n));
            if all.contains(n) {
                let j = choose|j: int| 0 <= j < all.len() && all[j] == n;
                assert(all[j] == n);
            }
        }
        new_names_are_determined(got, x, y);
    }
    r
}

/// The answer of the `reload` tool.
pub open spec fn reload_json(old: Set<Seq<char>>, new: Set<Seq<char>>) -> JsonModel {
    JsonModel::Object(
        Map::<Seq<char>, JsonModel>::empty().insert(
            "mounted"@,
            JsonModel::Number(NumberModel::Integer(new.len() as int)),
        ).insert("added"@, error::text_list(new_names(new, old))).insert(
            "removed"@,
            error::text_list(new_names(old, new)),
        ),
    )
}

/// The answer of the `reload` tool: how many tables are mounted now, which of
/// them are new, and which are gone.
pub fn reload_report<S, T>(old: &TableRegistry<S>, new: &TableRegistry<T>) -> (r: JsonValue)
    ensures
        r@ == reload_json(old.tables().dom(), new.tables().dom()),
{
    let mut o: JsonObject = JsonObject::new();
    o.insert(
        "mounted".to_owned(),
        JsonValue::Number(JsonNumber::Unsigned(new.table_count() as u64)),
    );
    o.insert("added".to_owned(), error::text_array(&names_missing(new, old)));
    o.insert("removed".to_owned(), error::text_array(&names_missing(old, new)));
    JsonValue::Object(o)
}

/// Paths as JSON texts.
pub open spec fn paths_json(paths: Seq<Seq<path::PartModel>>) -> JsonModel {
    JsonModel::Array(paths.map_values(|p: Seq<path::PartModel>| JsonModel::Text(path::written(p))))
}

fn paths_value(paths: &Vec<FilePath>) -> (r: JsonValue)
    ensures
        r@ == paths_json(plan::path_models(paths@)),
{
    let mut items: Vec<JsonValue> = Vec::new();
    let mut i: usize = 0;
    while i < paths.len()
        invariant
            i <= paths@.len(),
            items@.len() == i,
            forall|j: int|
                0 <= j < i ==> (#[trigger] items@[j])@ == JsonModel::Text(
                    path::written(paths@[j]@),
                ),
        decreases paths@.len() - i,
    {
        items.push(JsonValue::Text(paths[i].display()));
        i += 1;
    }
    let r = JsonValue::Array(items);
    assert(r@->Array_0 =~= paths_json(plan::path_models(paths@))->Array_0);
    r
}

/// What a batch did, as the tool shows it: its members in the order in which a
/// batch result declares them.
pub open spec fn batch_members(b: plan::BatchModel) -> Seq<(Seq<char>, Seq<char>)> {
    seq![
        ("committed"@, json::json_text(JsonModel::Bool(b.committed))),
        ("ops_executed"@, json::json_text(integer_json(b.ops_executed))),
        ("yaml_writes"@, json::json_text(paths_json(b.yaml_writes))),
        ("backups_written"@, json::json_text(paths_json(b.backups_written))),
        ("registry_rebuilt"@, json::json_text(JsonModel::Bool(b.registry_rebuilt))),
    ]
}

/// The text of what a tool reports.
pub open spec fn report_shown(r: plan::ReportModel) -> Seq<char> {
    match r {
        plan::ReportModel::Json(v) => json::json_text(v),
        plan::ReportModel::Batch(b) => members::object_text(batch_members(b)),
    }
}

/// What a tool reports, as the text of its answer.
pub fn report_text(report: Report) -> (r: String)
    ensures
        r@ == report_shown(report@),
{
    match report {
        Report::Json(v) => v.to_text(),
        Report::Batch(b) => {
            let mut o: Vec<(String, String)> = Vec::new();
            o.push(("committed".to_owned(), JsonValue::Bool(b.committed).to_text()));
            o.push(
                (
                    "ops_executed".to_owned(),
                    JsonValue::Number(JsonNumber::Unsigned(b.ops_executed as u64)).to_text(),
                ),
            );
            o.push(("yaml_writes".to_owned(), paths_value(&b.yaml_writes).to_text()));
            o.push(("backups_written".to_owned(), paths_value(&b.backups_written).to_text()));
            o.push(
                ("registry_rebuilt".to_owned(), JsonValue::Bool(b.registry_rebuilt).to_text()),
            );
            assert(members::member_texts(o@) =~= batch_members(b@));
            members::write_object(&o)
        },
    }
}

/// The text of a row: its id, its fields, and its two times, in this order.
pub proof fn rows_are_shown_whole(row: RowModel)
    ensures
        row_shown(row) == members::object_text(
            seq![
                ("id"@, json::json_text(JsonModel::Text(row.id))),
                ("data"@, json::json_text(row.data)),
                (
                    "created_at"@,
                    json::json_text(
                        JsonModel::Number(NumberModel::Integer(row.created_at as int)),
                    ),
                ),
                (
                    "updated_at"@,
                    json::json_text(
                        JsonModel::Number(NumberModel::Integer(row.updated_at as int)),
                    ),
                ),
            ],
        ),
{
}

/// The text of a report: that of its JSON, and of a batch whether it was committed,
/// the number of its ops, the files that it changed, the directories of its backups,
/// and whether the tables were read anew, in this order.
pub proof fn reports_are_shown_whole(v: JsonModel, b: plan::BatchModel)
    ensures
        report_shown(plan::ReportModel::Json(v)) == json::json_text(v),
        report_shown(plan::ReportModel::Batch(b)) == members::object_text(
            seq![
                ("committed"@, json::json_text(JsonModel::Bool(b.committed))),
                (
                    "ops_executed"@,
                    json::json_text(JsonModel::Number(NumberModel::Integer(b.ops_executed))),
                ),
                ("yaml_writes"@, json::json_text(paths_json(b.yaml_writes))),
                ("backups_written"@, json::json_text(paths_json(b.backups_written))),
                ("registry_rebuilt"@, json::json_text(JsonModel::Bool(b.registry_rebuilt))),
            ],
        ),
        json::lists(
            paths_json(b.yaml_writes),
            b.yaml_writes.map_values(|p: Seq<path::PartModel>| path::written(p)),
        ),
        json::lists(
            paths_json(b.backups_written),
            b.backups_written.map_values(|p: Seq<path::PartModel>| path::written(p)),
        ),
{
}

/// A shortened id stands for the one row whose id begins with it; for none, and for
/// several, there is an error that says so.
pub proof fn shortened_ids_stand_for_one_row(prefix: Seq<char>, found: Seq<Seq<char>>)
    ensures
        found.len() == 1 ==> row_meant(prefix, found) == Ok::<Seq<char>, ErrorModel>(found[0]),
        found.len() == 0 ==> row_meant(prefix, found) == Err::<Seq<char>, ErrorModel>(
            ErrorModel::NotFound { id: prefix },
        ),
        found.len() > 1 ==> row_meant(prefix, found) == Err::<Seq<char>, ErrorModel>(
            ErrorModel::AmbiguousId { id_prefix: prefix, candidates: found },
        ),
{
}

/// What is shown of a row: all of it, or, of an object, the members that are selected
/// and no others, with their values.
pub proof fn selected_fields_are_shown(
    data: JsonModel,
    selector: FieldSelector,
    names: Vec<String>,
)
    ensures
        shown(data, FieldSelector::All) == data,
        !(data is Object) ==> shown(data, selector) == data,
        data is Object ==> shown(data, FieldSelector::List(names)) is Object && forall|k: Seq<char>|
            #![trigger shown(data, FieldSelector::List(names))->Object_0.contains_key(k)]
            {
                let part = shown(data, FieldSelector::List(names))->Object_0;
                &&& part.contains_key(k) <==> data->Object_0.contains_key(k) && exists|i: int|
                    0 <= i < names@.len() && (#[trigger] names@[i])@ == k
                &&& part.contains_key(k) ==> part[k] == data->Object_0[k]
            },
{
    if data is Object {
        let all = text::texts(names@);
        assert forall|k: Seq<char>| #[trigger]
            shown(data, FieldSelector::List(names))->Object_0.contains_key(k) implies exists|i: int|
            0 <= i < names@.len() && (#[trigger] names@[i])@ == k by {
            let i = choose|i: int| 0 <= i < all.len() && all[i] == k;
            assert(names@[i]@ == k);
        }
        assert forall|k: Seq<char>|
            data->Object_0.contains_key(k) && (exists|i: int|
                0 <= i < names@.len() && (#[trigger] names@[i])@ == k) implies #[trigger] shown(
            data,
            FieldSelector::List(names),
        )->Object_0.contains_key(k) by {
            let i = choose|i: int| 0 <= i < names@.len() && (#[trigger] names@[i])@ == k;
            assert(all[i] == k);
            assert(all.contains(k));
        }
    }
}

/// A selection is accepted exactly where every field in it is one of the schema; the
/// first that is not is reported.
pub proof fn selections_are_of_known_fields(names: Seq<Seq<char>>, fields: Seq<FieldModel>)
    ensures
        unknown_selected(names, fields) is None <==> forall|i: int|
            0 <= i < names.len() ==> exists|j: int|
                0 <= j < fields.len() && (#[trigger] fields[j]).name == #[trigger] names[i],
        unknown_selected(names, fields) matches Some(e) ==> exists|k: int|
            #![trigger names[k]]
            0 <= k < names.len() && e == (ErrorModel::Validation {
                field: names[k],
                reason: "unknown field '"@ + names[k]
                    + "' — only schema-registered fields can be selected"@,
            }) && (forall|j: int|
                0 <= j < fields.len() ==> (#[trigger] fields[j]).name != names[k]) && forall|h: int|
                0 <= h < k ==> exists|j: int|
                    0 <= j < fields.len() && (#[trigger] fields[j]).name == #[trigger] names[h],
    decreases names.len(),
{
    if names.len() > 0 {
        let rest = names.drop_first();
        schema::names_stand_for_fields(fields, names[0]);
        selections_are_of_known_fields(rest, fields);
        assert forall|i: int| 1 <= i < names.len() implies names[i] == #[trigger] rest[i - 1] by {}
        if schema::field_called(fields, names[0]) is Some {
            if unknown_selected(rest, fields) is None {
                assert forall|i: int| 0 <= i < names.len() implies exists|j: int|
                    0 <= j < fields.len() && (#[trigger] fields[j]).name == #[trigger] names[i] by {
                    if i > 0 {
                        assert(names[i] == rest[i - 1]);
                    }
                }
            } else {
                let e = unknown_selected(rest, fields)->0;
                let k = choose|k: int|
                    #![trigger rest[k]]
                    0 <= k < rest.len() && e == (ErrorModel::Validation {
                        field: rest[k],
                        reason: "unknown field '"@ + rest[k]
                            + "' — only schema-registered fields can be selected"@,
                    }) && (forall|j: int|
                        0 <= j < fields.len() ==> (#[trigger] fields[j]).name != rest[k])
                        && forall|h: int|
                        0 <= h < k ==> exists|j: int|
                            0 <= j < fields.len() && (#[trigger] fields[j]).name
                                == #[trigger] rest[h];
                assert(names[k + 1] == rest[k]);
                assert forall|h: int| 0 <= h < k + 1 implies exists|j: int|
                    0 <= j < fields.len() && (#[trigger] fields[j]).name == #[trigger] names[h] by {
                    if h > 0 {
                        assert(names[h] == rest[h - 1]);
                    }
                }
            }
        }
    }
}

/// What the `reload` tool says: how many tables are mounted now, and, in ascending
/// order, which of them were not before, and which were and are not now.
pub proof fn reloads_say_what_changed(
    old: Set<Seq<char>>,
    new: Set<Seq<char>>,
    added: Seq<Seq<char>>,
    removed: Seq<Seq<char>>,
)
    requires
        text::ascending(added) && text::ascending(removed),
        forall|n: Seq<char>| #[trigger] added.contains(n) <==> new.contains(n) && !old.contains(n),
        forall|n: Seq<char>| #[trigger]
            removed.contains(n) <==> old.contains(n) && !new.contains(n),
    ensures
        json::says(
            reload_json(old, new),
            "mounted"@,
            JsonModel::Number(NumberModel::Integer(new.len() as int)),
        ),
        exists|l: JsonModel| #[trigger]
            json::says(reload_json(old, new), "added"@, l) && json::lists(l, added),
        exists|l: JsonModel| #[trigger]
            json::says(reload_json(old, new), "removed"@, l) && json::lists(l, removed),
{
    reveal_strlit("mounted");
    reveal_strlit("added");
    reveal_strlit("removed");
    assert("mounted"@.len() == 7 && "mounted"@[0] == 'm');
    assert("added"@.len() == 5);
    assert("removed"@.len() == 7 && "removed"@[0] == 'r');
    new_names_are_determined(added, new, old);
    new_names_are_determined(removed, old, new);
    assert(json::says(reload_json(old, new), "added"@, error::text_list(added)));
    assert(json::says(reload_json(old, new), "removed"@, error::text_list(removed)));
    assert(json::lists(error::text_list(added), added));
    assert(json::lists(error::text_list(removed), removed));
}

/// A deletion is answered with the id of the row, and nothing else. An id of fewer
/// characters than a full one, which has 36, is a shortened one.
pub proof fn deletions_are_answered_with_the_id(id: Seq<char>)
    ensures
        json::says(deleted_json(id), "deleted"@, JsonModel::Text(id)),
        forall|k: Seq<char>| #[trigger]
            deleted_json(id)->Object_0.contains_key(k) ==> k == "deleted"@,
        is_short(id) <==> id.len() < 36,
        store::is_uuid_v4(id) ==> !is_short(id),
{
}

/// Outcomes are what was returned.
pub proof fn ids_are_what_was_returned(id: String, e: MiniAppError)
    ensures
        id_outcome(Ok(id)) == Ok::<Seq<char>, ErrorModel>(id@),
        id_outcome(Err(e)) == Err::<Seq<char>, ErrorModel>(e@),
{
}

/// A selector is checked by the names that it lists; one of all fields is always
/// accepted.
pub proof fn selectors_are_checked_by_their_names(
    names: Vec<String>,
    fields: Seq<FieldModel>,
)
    ensures
        selector_failure(FieldSelector::All, fields) is None,
        selector_failure(FieldSelector::List(names), fields) is None <==> forall|i: int|
            0 <= i < names@.len() ==> exists|j: int|
                0 <= j < fields.len() && (#[trigger] fields[j]).name == (#[trigger] names@[i])@,
{
    let all = text::texts(names@);
    selections_are_of_known_fields(all, fields);
    if unknown_selected(all, fields) is None {
        assert forall|i: int| 0 <= i < names@.len() implies exists|j: int|
            0 <= j < fields.len() && (#[trigger] fields[j]).name == (#[trigger] names@[i])@ by {
            assert(all[i] == names@[i]@);
        }
    } else {
        let k = choose|k: int|
            #![trigger all[k]]
            0 <= k < all.len() && forall|j: int|
                0 <= j < fields.len() ==> (#[trigger] fields[j]).name != all[k];
        assert(names@[k]@ == all[k]);
    }
}

/// A list shows its rows in their order, with a comma between each two: a row more
/// comes after the others.
pub proof fn lists_show_their_rows_in_order(rows: Seq<RowModel>, row: RowModel)
    ensures
        rows_shown(Seq::empty()) == "["@ + "]"@,
        rows_shown(seq![row]) == "["@ + row_shown(row) + "]"@,
        rows.len() > 0 ==> rows_shown(rows.push(row)) == rows_shown(rows).take(
            rows_shown(rows).len() - "]"@.len(),
        ) + ","@ + row_shown(row) + "]"@,
{
    let show = |r: RowModel| row_shown(r);
    members::objects_are_their_members(Seq::empty(), Seq::empty(), row_shown(row));
    assert(Seq::<RowModel>::empty().map_values(show) =~= Seq::<Seq<char>>::empty());
    assert(seq![row].map_values(show) =~= seq![row_shown(row)]);
    assert(rows.push(row).map_values(show) =~= rows.map_values(show).push(row_shown(row)));
    text::joined_texts_keep_their_order(rows.map_values(show), row_shown(row), ","@);
    if rows.len() > 0 {
        let inner = text::joined(rows.map_values(show), ","@);
        assert(rows_shown(rows).take(rows_shown(rows).len() - "]"@.len()) =~= "["@ + inner);
        assert(rows_shown(rows.push(row)) =~= "["@ + inner + ","@ + row_shown(row) + "]"@);
    }
}

} // verus!
