//! The tools that manage schemas: create, update, delete, and batches.

use vstd::prelude::*;
use vstd::string::*;

use crate::config::{Config, ConfigModel};
use crate::error;
use crate::error::ErrorModel;
use crate::error::MiniAppError;
use crate::filter;
use crate::json;
use crate::json::JsonModel;
use crate::json::NumberModel;
use crate::json::{JsonNumber, JsonObject, JsonValue};
use crate::mcp::plan;
use crate::mcp::plan::{OnFailure, Plan, PlannedStep, Report, Step};
use crate::mcp::registry;
use crate::mcp::registry::{TableEntry, TableRegistry};
use crate::pairs;
use crate::path;
use crate::path::FilePath;
use crate::schema;
use crate::schema::{FieldDef, FieldType, SchemaConfig};
use crate::schema::{FieldModel, SchemaModel};
use crate::text;
use crate::textmap::TextMap;

verus! {

broadcast use vstd::map::group_map_axioms;

/// Whether a character may stand in the name of a table.
pub open spec fn name_char(c: char) -> bool {
    ('A' <= c && c <= 'Z') || ('a' <= c && c <= 'z') || ('0' <= c && c <= '9') || c == '_' || c
        == '-'
}

/// The first character that may not stand in the name of a table.
pub open spec fn first_bad_char(s: Seq<char>) -> Option<char>
    decreases s.len(),
{
    if s.len() == 0 {
        None
    } else if !name_char(s[0]) {
        Some(s[0])
    } else {
        first_bad_char(s.drop_first())
    }
}

/// What is wrong with the name of a table, if anything.
pub open spec fn name_failure(table: Seq<char>) -> Option<ErrorModel> {
    if table.len() == 0 {
        Some(
            ErrorModel::Validation {
                field: "table"@,
                reason: "table name must not be empty"@,
            },
        )
    } else if table == "."@ || table == ".."@ {
        Some(
            ErrorModel::Validation {
                field: "table"@,
                reason: "table name '"@ + table + "' is reserved"@,
            },
        )
    } else if table[0] == '.' {
        Some(
            ErrorModel::Validation {
                field: "table"@,
                reason: "table name must not start with '.'"@,
            },
        )
    } else {
        match first_bad_char(table) {
            Some(c) => Some(
                ErrorModel::Validation {
                    field: "table"@,
                    reason: "table name contains invalid character '"@ + seq![c]
                        + "'; allowed: [A-Za-z0-9_-]"@,
                },
            ),
            None => None,
        }
    }
}

/// A name that is accepted is not empty and consists of ASCII letters, digits,
/// `_` and `-`: it names one directory, and nothing outside the one it is looked
/// up in. Every such name is accepted.
pub proof fn accepted_names_are_plain(table: Seq<char>)
    ensures
        name_failure(table) is None <==> table.len() > 0 && forall|i: int|
            0 <= i < table.len() ==> name_char(#[trigger] table[i]),
{
    first_bad_char_found(table);
    reveal_strlit(".");
    reveal_strlit("..");
    assert("."@.len() == 1 && "."@[0] == '.');
    assert(".."@.len() == 2 && ".."@[0] == '.');
}

proof fn first_bad_char_found(s: Seq<char>)
    ensures
        first_bad_char(s) is None <==> forall|i: int|
            0 <= i < s.len() ==> name_char(#[trigger] s[i]),
    decreases s.len(),
{
    if s.len() > 0 {
        let rest = s.drop_first();
        first_bad_char_found(rest);
        assert forall|i: int| 0 < i < s.len() implies s[i] == #[trigger] rest[i - 1] by {}
        if first_bad_char(s) is None {
            assert forall|i: int| 0 <= i < s.len() implies name_char(#[trigger] s[i]) by {
                if i > 0 {
                    assert(s[i] == rest[i - 1]);
                }
            }
        } else if name_char(s[0]) {
            let i = choose|i: int| 0 <= i < rest.len() && !name_char(#[trigger] rest[i]);
            assert(s[i + 1] == rest[i]);
        }
    }
}

/// Checks the name of a table.
pub fn validate_table_name(table: &str) -> (r: Result<(), MiniAppError>)
    ensures
        filter::reports(r, name_failure(table@)),
{
    let chars: Vec<char> = text::chars_of(table);
    if chars.len() == 0 {
        return Err(
            MiniAppError::Validation {
                field: "table".to_owned(),
                reason: "table name must not be empty".to_owned(),
            },
        );
    }
    if text::same_text(table, ".") || text::same_text(table, "..") {
        return Err(
            MiniAppError::Validation {
                field: "table".to_owned(),
                reason: "table name '".to_owned().concat(table).concat("' is reserved"),
            },
        );
    }
    if chars[0] == '.' {
        return Err(
            MiniAppError::Validation {
                field: "table".to_owned(),
                reason: "table name must not start with '.'".to_owned(),
            },
        );
    }
    let mut i: usize = 0;
    assert(table@.skip(0) =~= table@);
    while i < chars.len()
        invariant
            i <= chars@.len(),
            chars@ == table@,
            first_bad_char(table@) == first_bad_char(table@.skip(i as int)),
            name_failure(table@) == (match first_bad_char(table@) {
                Some(c) => Some(
                    ErrorModel::Validation {
                        field: "table"@,
                        reason: "table name contains invalid character '"@ + seq![c]
                            + "'; allowed: [A-Za-z0-9_-]"@,
                    },
                ),
                None => None,
            }),
        decreases chars@.len() - i,
    {
        let c: char = chars[i];
        let ghost rest = table@.skip(i as int);
        assert(rest[0] == c);
        assert(rest.drop_first() =~= table@.skip(i + 1));
        let ok: bool = ('A' <= c && c <= 'Z') || ('a' <= c && c <= 'z') || ('0' <= c && c <= '9')
            || c == '_' || c == '-';
        if !ok {
            let mut bad: String = String::new();
            bad.push(c);
            assert(bad@ =~= seq![c]);
            return Err(
                MiniAppError::Validation {
                    field: "table".to_owned(),
                    reason: "table name contains invalid character '".to_owned().concat(
                        bad.as_str(),
                    ).concat("'; allowed: [A-Za-z0-9_-]"),
                },
            );
        }
        i += 1;
    }
    Ok(())
}

/// The directory of a scope and the schema file of a table in it.
pub open spec fn scope_paths(
    scope: Seq<char>,
    table: Seq<char>,
    config: ConfigModel,
) -> Result<(Seq<path::PartModel>, Seq<path::PartModel>), ErrorModel> {
    match name_failure(table) {
        Some(e) => Err(e),
        None => if scope == "project"@ {
            match config.project_dir {
                Some(dir) => Ok((dir, registry::schema_file(dir, table))),
                None => Err(
                    ErrorModel::Config("project scope requires MINI_APP_PROJECT_DIR"@),
                ),
            }
        } else if scope == "user"@ {
            match config.user_dir {
                Some(dir) => Ok((dir, registry::schema_file(dir, table))),
                None => Err(ErrorModel::Config("user scope requires MINI_APP_USER_DIR"@)),
            }
        } else {
            Err(
                ErrorModel::Validation {
                    field: "scope"@,
                    reason: "invalid scope '"@ + scope + "'; must be 'project' or 'user'"@,
                },
            )
        },
    }
}

/// The outcome of resolving a scope, as a model.
pub open spec fn paths_outcome(r: Result<(FilePath, FilePath), MiniAppError>) -> Result<
    (Seq<path::PartModel>, Seq<path::PartModel>),
    ErrorModel,
> {
    match r {
        Ok((root, yaml)) => Ok((root@, yaml@)),
        Err(e) => Err(e@),
    }
}

/// The directory of a scope and the schema file of a table in it:
/// `<scope>/<table>/schema.yaml`.
pub fn resolve_scope_paths(scope: &str, table: &str, config: &Config) -> (r: Result<
    (FilePath, FilePath),
    MiniAppError,
>)
    ensures
        paths_outcome(r) == scope_paths(scope@, table@, config@),
{
    match validate_table_name(table) {
        Err(e) => {
            return Err(e);
        },
        Ok(_) => {},
    }
    let dir: FilePath = if text::same_text(scope, "project") {
        match &config.project_dir {
            Some(d) => d.duplicate(),
            None => {
                return Err(
                    MiniAppError::Config("project scope requires MINI_APP_PROJECT_DIR".to_owned()),
                );
            },
        }
    } else if text::same_text(scope, "user") {
        match &config.user_dir {
            Some(d) => d.duplicate(),
            None => {
                return Err(
                    MiniAppError::Config("user scope requires MINI_APP_USER_DIR".to_owned()),
                );
            },
        }
    } else {
        return Err(
            MiniAppError::Validation {
                field: "scope".to_owned(),
                reason: "invalid scope '".to_owned().concat(scope).concat(
                    "'; must be 'project' or 'user'",
                ),
            },
        );
    };
    let yaml: FilePath = dir.join(table).join("schema.yaml");
    Ok((dir, yaml))
}

/// Whatever the arguments, a schema file that is resolved lies in the directory
/// of its scope, under a directory with the name of its table.
pub proof fn resolved_paths_stay_in_scope(
    scope: Seq<char>,
    table: Seq<char>,
    config: ConfigModel,
)
    requires
        scope_paths(scope, table, config) is Ok,
    ensures
        ({
            let (root, yaml) = scope_paths(scope, table, config)->Ok_0;
            &&& config.project_dir == Some(root) || config.user_dir == Some(root)
            &&& path::lies_in(yaml, root)
            &&& yaml.len() == root.len() + 2
            &&& yaml[root.len() as int] == path::PartModel::Name(table)
            &&& forall|i: int| 0 <= i < table.len() ==> name_char(#[trigger] table[i])
        }),
{
    accepted_names_are_plain(table);
    let (root, yaml) = scope_paths(scope, table, config)->Ok_0;
    assert(root =~= yaml.subrange(0, root.len() as int));
}

/// A field as a tool is given it.
#[derive(Debug, PartialEq, Eq)]
pub struct FieldDefInput {
    pub name: String,
    /// The name of the type.
    pub ty: String,
    pub required: bool,
    pub description: Option<String>,
}

/// A field as a tool is given it, as a model.
pub struct InputModel {
    pub name: Seq<char>,
    pub ty: Seq<char>,
    pub required: bool,
    pub description: Option<Seq<char>>,
}

impl View for FieldDefInput {
    type V = InputModel;

    open spec fn view(&self) -> InputModel {
        InputModel {
            name: self.name@,
            ty: self.ty@,
            required: self.required,
            description: text::text_option(self.description),
        }
    }
}

/// The given fields as models.
pub open spec fn input_models(inputs: Seq<FieldDefInput>) -> Seq<InputModel> {
    inputs.map_values(|f: FieldDefInput| f@)
}

/// The type that a name stands for, for the field called `field`.
pub open spec fn type_called(ty: Seq<char>, field: Seq<char>) -> Result<FieldType, ErrorModel> {
    if ty == "string"@ {
        Ok(FieldType::String)
    } else if ty == "number"@ {
        Ok(FieldType::Number)
    } else if ty == "boolean"@ {
        Ok(FieldType::Boolean)
    } else if ty == "array"@ {
        Ok(FieldType::Array)
    } else if ty == "object"@ {
        Ok(FieldType::Object)
    } else {
        Err(
            ErrorModel::Validation {
                field: "fields["@ + field + "].type"@,
                reason: "unknown type '"@ + ty
                    + "'; must be one of: string, number, boolean, array, object"@,
            },
        )
    }
}

/// Every type is called by its name.
pub proof fn types_are_called_by_their_names(ty: FieldType, field: Seq<char>)
    ensures
        type_called(schema::name_of_type(ty), field) == Ok::<FieldType, ErrorModel>(ty),
{
    reveal_strlit("string");
    reveal_strlit("number");
    reveal_strlit("boolean");
    reveal_strlit("array");
    reveal_strlit("object");
    assert("string"@.len() == 6 && "string"@[0] == 's');
    assert("number"@.len() == 6 && "number"@[0] == 'n');
    assert("boolean"@.len() == 7);
    assert("array"@.len() == 5);
    assert("object"@.len() == 6 && "object"@[0] == 'o');
}

/// The outcome of reading a type, as a model.
pub open spec fn type_outcome(r: Result<FieldType, MiniAppError>) -> Result<
    FieldType,
    ErrorModel,
> {
    match r {
        Ok(ty) => Ok(ty),
        Err(e) => Err(e@),
    }
}

/// Reads the name of a type.
pub fn parse_field_type(ty: &str, field: &str) -> (r: Result<FieldType, MiniAppError>)
    ensures
        type_outcome(r) == type_called(ty@, field@),
{
    if text::same_text(ty, "string") {
        Ok(FieldType::String)
    } else if text::same_text(ty, "number") {
        Ok(FieldType::Number)
    } else if text::same_text(ty, "boolean") {
        Ok(FieldType::Boolean)
    } else if text::same_text(ty, "array") {
        Ok(FieldType::Array)
    } else if text::same_text(ty, "object") {
        Ok(FieldType::Object)
    } else {
        Err(
            MiniAppError::Validation {
                field: "fields[".to_owned().concat(field).concat("].type"),
                reason: "unknown type '".to_owned().concat(ty).concat(
                    "'; must be one of: string, number, boolean, array, object",
                ),
            },
        )
    }
}

/// The fields that are given, or what is wrong with the first that cannot be
/// read.
pub open spec fn fields_given(inputs: Seq<InputModel>) -> Result<Seq<FieldModel>, ErrorModel>
    decreases inputs.len(),
{
    if inputs.len() == 0 {
        Ok(Seq::empty())
    } else {
        let input = inputs.last();
        match fields_given(inputs.drop_last()) {
            Err(e) => Err(e),
            Ok(fields) => match type_called(input.ty, input.name) {
                Err(e) => Err(e),
                Ok(ty) => Ok(
                    fields.push(
                        FieldModel {
                            name: input.name,
                            ty,
                            required: input.required,
                            description: input.description,
                        },
                    ),
                ),
            },
        }
    }
}

/// The outcome of reading fields, as a model.
pub open spec fn fields_outcome(r: Result<Vec<FieldDef>, MiniAppError>) -> Result<
    Seq<FieldModel>,
    ErrorModel,
> {
    match r {
        Ok(fields) => Ok(schema::field_models(fields@)),
        Err(e) => Err(e@),
    }
}

proof fn fields_given_fails_early(inputs: Seq<InputModel>, n: int)
    requires
        0 <= n <= inputs.len(),
        fields_given(inputs.take(n)) is Err,
    ensures
        fields_given(inputs) == fields_given(inputs.take(n)),
    decreases inputs.len() - n,
{
    if n < inputs.len() {
        assert(inputs.take(n + 1).drop_last() =~= inputs.take(n));
        fields_given_fails_early(inputs, n + 1);
    } else {
        assert(inputs.take(n) =~= inputs);
    }
}

/// Reads the fields that a tool is given, in order.
pub fn parse_fields(inputs: &Vec<FieldDefInput>) -> (r: Result<Vec<FieldDef>, MiniAppError>)
    ensures
        fields_outcome(r) == fields_given(input_models(inputs@)),
{
    let ghost models = input_models(inputs@);
    let mut fields: Vec<FieldDef> = Vec::new();
    let mut i: usize = 0;
    assert(models.take(0) =~= Seq::<InputModel>::empty());
    assert(schema::field_models(fields@) =~= Seq::<FieldModel>::empty());
    while i < inputs.len()
        invariant
            i <= inputs@.len(),
            models == input_models(inputs@),
            fields_given(models.take(i as int)) == Ok::<Seq<FieldModel>, ErrorModel>(
                schema::field_models(fields@),
            ),
        decreases inputs@.len() - i,
    {
        let input: &FieldDefInput = &inputs[i];
        let ghost upto = models.take(i + 1);
        assert(upto.drop_last() =~= models.take(i as int));
        assert(upto.last() == input@);
        match parse_field_type(&input.ty, &input.name) {
            Err(e) => {
                proof {
                    fields_given_fails_early(models, i + 1);
                }
                return Err(e);
            },
            Ok(ty) => {
                let field: FieldDef = FieldDef {
                    name: input.name.clone(),
                    ty,
                    required: input.required,
                    description: text::duplicate_option(&input.description),
                };
                let ghost before = schema::field_models(fields@);
                fields.push(field);
                assert(schema::field_models(fields@) =~= before.push(field@));
            },
        }
        i += 1;
    }
    assert(models.take(models.len() as int) =~= models);
    Ok(fields)
}

/// Parameters of the `schema_create` tool.
#[derive(Debug, PartialEq, Eq)]
pub struct SchemaCreateParams {
    pub table: String,
    /// `project` or `user`.
    pub scope: String,
    pub title: Option<String>,
    pub description: Option<String>,
    pub fields: Vec<FieldDefInput>,
    /// Report what would be done, and do nothing.
    pub dry_run: bool,
}

/// Parameters of the `schema_update` tool.
#[derive(Debug, PartialEq, Eq)]
pub struct SchemaUpdateParams {
    pub table: String,
    /// `project` or `user`.
    pub scope: String,
    pub title: Option<String>,
    pub description: Option<String>,
    /// All fields of the new schema.
    pub fields: Vec<FieldDefInput>,
    /// Report what would be done, and do nothing.
    pub dry_run: bool,
}

/// Parameters of the `schema_delete` tool.
#[derive(Debug, PartialEq, Eq)]
pub struct SchemaDeleteParams {
    pub table: String,
    /// `project` or `user`.
    pub scope: String,
    /// Report what would be done, and do nothing.
    pub dry_run: bool,
}

/// A schema as a tool is given it, with where it belongs.
pub struct GivenModel {
    pub table: Seq<char>,
    pub scope: Seq<char>,
    pub title: Option<Seq<char>>,
    pub description: Option<Seq<char>>,
    pub fields: Seq<InputModel>,
    pub dry_run: bool,
}

impl View for SchemaCreateParams {
    type V = GivenModel;

    open spec fn view(&self) -> GivenModel {
        GivenModel {
            table: self.table@,
            scope: self.scope@,
            title: text::text_option(self.title),
            description: text::text_option(self.description),
            fields: input_models(self.fields@),
            dry_run: self.dry_run,
        }
    }
}

impl View for SchemaUpdateParams {
    type V = GivenModel;

    open spec fn view(&self) -> GivenModel {
        GivenModel {
            table: self.table@,
            scope: self.scope@,
            title: text::text_option(self.title),
            description: text::text_option(self.description),
            fields: input_models(self.fields@),
            dry_run: self.dry_run,
        }
    }
}

/// A schema without a place for files.
pub open spec fn plain_schema(
    table: Seq<char>,
    title: Option<Seq<char>>,
    description: Option<Seq<char>>,
    fields: Seq<FieldModel>,
) -> SchemaModel {
    SchemaModel { table, title, description, fields, dump: None }
}

/// A JSON object without members.
pub open spec fn no_members() -> Map<Seq<char>, JsonModel> {
    Map::empty()
}

/// A path as a JSON text.
pub open spec fn path_json(p: Seq<path::PartModel>) -> JsonModel {
    JsonModel::Text(path::written(p))
}

/// A number of things as a JSON number.
pub open spec fn count_json(n: int) -> JsonModel {
    JsonModel::Number(NumberModel::Integer(n))
}

/// A report of what a dry run would affect.
pub open spec fn dry_run_report(affects: Map<Seq<char>, JsonModel>) -> JsonModel {
    JsonModel::Object(
        no_members().insert("dry_run"@, JsonModel::Bool(true)).insert(
            "affects"@,
            JsonModel::Object(affects),
        ),
    )
}

fn dry_run_value(affects: JsonObject) -> (r: JsonValue)
    ensures
        r@ == dry_run_report(affects@),
{
    let mut o: JsonObject = JsonObject::new();
    o.insert("dry_run".to_owned(), JsonValue::Bool(true));
    o.insert("affects".to_owned(), JsonValue::Object(affects));
    JsonValue::Object(o)
}

/// The plan of `schema_create`, where `exists` says whether the schema file
/// exists.
pub open spec fn create_plan(config: ConfigModel, given: GivenModel, exists: bool) -> Result<
    plan::PlanModel,
    ErrorModel,
> {
    match scope_paths(given.scope, given.table, config) {
        Err(e) => Err(e),
        Ok((root, yaml)) => if given.dry_run {
            Ok(
                plan::PlanModel {
                    steps: Seq::empty(),
                    outcome: Ok(
                        plan::ReportModel::Json(
                            dry_run_report(
                                no_members().insert("would_create"@, path_json(yaml)).insert(
                                    "already_exists"@,
                                    JsonModel::Bool(exists),
                                ),
                            ),
                        ),
                    ),
                },
            )
        } else if exists {
            Err(ErrorModel::SchemaExists { table: given.table })
        } else {
            match fields_given(given.fields) {
                Err(e) => Err(e),
                Ok(fields) => {
                    let schema = plain_schema(
                        given.table,
                        given.title,
                        given.description,
                        fields,
                    );
                    Ok(
                        plan::PlanModel {
                            steps: seq![
                                plan::reported(
                                    plan::StepModel::CreateDir {
                                        path: path::under(root, given.table),
                                    },
                                ),
                                plan::reported(
                                    plan::StepModel::WriteSchema { path: yaml, schema },
                                ),
                                plan::reported(
                                    plan::StepModel::OpenStore {
                                        db_path: registry::database_file(root, given.table),
                                        schema,
                                    },
                                ),
                                plan::reported(plan::StepModel::RebuildRegistry),
                            ],
                            outcome: Ok(
                                plan::ReportModel::Json(
                                    JsonModel::Object(
                                        no_members().insert(
                                            "created"@,
                                            JsonModel::Text(given.table),
                                        ).insert("schema_path"@, path_json(yaml)).insert(
                                            "scope"@,
                                            JsonModel::Text(given.scope),
                                        ),
                                    ),
                                ),
                            ),
                        },
                    )
                },
            }
        },
    }
}

fn planned(step: Step) -> (r: PlannedStep)
    ensures
        r@ == plan::reported(step@),
{
    PlannedStep { step, on_failure: OnFailure::Report }
}

/// The database file of a table in the scope directory `root`.
pub(crate) fn database_path(root: &FilePath, table: &str) -> (r: FilePath)
    ensures
        r@ == registry::database_file(root@, table@),
{
    root.join(table).join(table.to_owned().concat(".db").as_str())
}

/// Plans `schema_create`: the directory of the table is made, its schema file
/// written, its database opened, and the tables are read anew. `exists` says
/// whether the schema file is there already, which is refused. A dry run plans
/// nothing and reports what would be created.
pub fn do_schema_create(config: &Config, params: &SchemaCreateParams, exists: bool) -> (r: Result<
    Plan,
    MiniAppError,
>)
    ensures
        plan::plan_outcome(r) == create_plan(config@, params@, exists),
{
    let (root, yaml) = match resolve_scope_paths(&params.scope, &params.table, config) {
        Err(e) => {
            return Err(e);
        },
        Ok(p) => p,
    };
    if params.dry_run {
        let mut affects: JsonObject = JsonObject::new();
        affects.insert("would_create".to_owned(), JsonValue::Text(yaml.display()));
        affects.insert("already_exists".to_owned(), JsonValue::Bool(exists));
        return Ok(Plan::report(dry_run_value(affects)));
    }
    if exists {
        return Err(MiniAppError::SchemaExists { table: params.table.clone() });
    }
    let fields: Vec<FieldDef> = match parse_fields(&params.fields) {
        Err(e) => {
            return Err(e);
        },
        Ok(f) => f,
    };
    let schema: SchemaConfig = SchemaConfig {
        table: params.table.clone(),
        title: text::duplicate_option(&params.title),
        description: text::duplicate_option(&params.description),
        fields,
        dump: None,
    };
    let copy: SchemaConfig = schema.duplicate();
    let mut report: JsonObject = JsonObject::new();
    report.insert("created".to_owned(), JsonValue::Text(params.table.clone()));
    report.insert("schema_path".to_owned(), JsonValue::Text(yaml.display()));
    report.insert("scope".to_owned(), JsonValue::Text(params.scope.clone()));
    let mut steps: Vec<PlannedStep> = Vec::new();
    let db_path: FilePath = database_path(&root, &params.table);
    steps.push(planned(Step::CreateDir { path: root.join(params.table.as_str()) }));
    steps.push(planned(Step::WriteSchema { path: yaml, schema }));
    steps.push(planned(Step::OpenStore { db_path, schema: copy }));
    steps.push(planned(Step::RebuildRegistry));
    let r = Plan { steps, outcome: Ok(Report::Json(JsonValue::Object(report))) };
    assert(r@.steps =~= create_plan(config@, params@, exists)->Ok_0.steps);
    Ok(r)
}

/// The type of each field; where a name comes twice, the last field counts.
pub open spec fn declared(fields: Seq<FieldModel>) -> Map<Seq<char>, FieldType> {
    pairs::pairs_map(fields.map_values(|f: FieldModel| (f.name, f.ty)))
}

/// The list of the names that are in `a` and not in `b`, in ascending order.
pub open spec fn lists_missing(
    names: Seq<Seq<char>>,
    a: Map<Seq<char>, FieldType>,
    b: Map<Seq<char>, FieldType>,
) -> bool {
    &&& text::ascending(names)
    &&& forall|n: Seq<char>| #[trigger]
        names.contains(n) <==> a.contains_key(n) && !b.contains_key(n)
}

/// The list of the names that are in both, with another type, in ascending
/// order.
pub open spec fn lists_retyped(
    names: Seq<Seq<char>>,
    a: Map<Seq<char>, FieldType>,
    b: Map<Seq<char>, FieldType>,
) -> bool {
    &&& text::ascending(names)
    &&& forall|n: Seq<char>| #[trigger]
        names.contains(n) <==> a.contains_key(n) && b.contains_key(n) && a[n] != b[n]
}

/// The fields that the new schema has and the old one has not.
pub open spec fn fields_added(old: Seq<FieldModel>, new: Seq<FieldModel>) -> Seq<Seq<char>> {
    choose|names: Seq<Seq<char>>| lists_missing(names, declared(new), declared(old))
}

/// The fields that the old schema has and the new one has not.
pub open spec fn fields_removed(old: Seq<FieldModel>, new: Seq<FieldModel>) -> Seq<Seq<char>> {
    choose|names: Seq<Seq<char>>| lists_missing(names, declared(old), declared(new))
}

/// The fields that both schemas have, with another type.
pub open spec fn fields_type_changed(old: Seq<FieldModel>, new: Seq<FieldModel>) -> Seq<
    Seq<char>,
> {
    choose|names: Seq<Seq<char>>| lists_retyped(names, declared(old), declared(new))
}

/// The lists of a comparison are determined by what they hold: a list in
/// ascending order with exactly the names in question is the list.
pub proof fn field_lists_are_determined(
    old: Seq<FieldModel>,
    new: Seq<FieldModel>,
    names: Seq<Seq<char>>,
)
    ensures
        lists_missing(names, declared(new), declared(old)) ==> fields_added(old, new) == names,
        lists_missing(names, declared(old), declared(new)) ==> fields_removed(old, new) == names,
        lists_retyped(names, declared(old), declared(new)) ==> fields_type_changed(old, new)
            == names,
{
    if lists_missing(names, declared(new), declared(old)) {
        text::ascending_lists_with_same_texts(names, fields_added(old, new));
    }
    if lists_missing(names, declared(old), declared(new)) {
        text::ascending_lists_with_same_texts(names, fields_removed(old, new));
    }
    if lists_retyped(names, declared(old), declared(new)) {
        text::ascending_lists_with_same_texts(names, fields_type_changed(old, new));
    }
}

fn declared_types(fields: &Vec<FieldDef>) -> (r: TextMap<FieldType>)
    ensures
        r@ == declared(schema::field_models(fields@)),
{
    let ghost models = schema::field_models(fields@);
    let ghost all = models.map_values(|f: FieldModel| (f.name, f.ty));
    let mut r: TextMap<FieldType> = TextMap::new();
    let mut i: usize = 0;
    assert(all.take(0) =~= Seq::<(Seq<char>, FieldType)>::empty());
    while i < fields.len()
        invariant
            i <= fields@.len(),
            models == schema::field_models(fields@),
            all == models.map_values(|f: FieldModel| (f.name, f.ty)),
            r@ == pairs::pairs_map(all.take(i as int)),
        decreases fields@.len() - i,
    {
        let ghost upto = all.take(i + 1);
        assert(upto.drop_last() =~= all.take(i as int));
        assert(upto.last() == (fields@[i as int].name@, fields@[i as int].ty));
        r.insert(fields[i].name.clone(), fields[i].ty);
        i += 1;
    }
    assert(all.take(all.len() as int) =~= all);
    r
}

/// The keys of `a` that `b` does not have, or, with `retyped`, those that both
/// have with another type.
fn keys_compared(a: &TextMap<FieldType>, b: &TextMap<FieldType>, retyped: bool) -> (r: Vec<String>)
    ensures
        !retyped ==> lists_missing(text::texts(r@), a@, b@),
        retyped ==> lists_retyped(text::texts(r@), a@, b@),
{
    let mut r: Vec<String> = Vec::new();
    let n: usize = a.len();
    let ghost pairs = a.pairs();
    let mut i: usize = 0;
    while i < n
        invariant
            i <= n,
            n == pairs.len(),
            pairs == a.pairs(),
            pairs::keys_ascend(pairs),
            a@ == pairs::pairs_map(pairs),
            text::ascending(text::texts(r@)),
            forall|k: Seq<char>| #[trigger]
                text::texts(r@).contains(k) <==> exists|j: int|
                    0 <= j < i && (#[trigger] pairs[j]).0 == k && chosen(
                        pairs[j].0,
                        pairs[j].1,
                        b@,
                        retyped,
                    ),
        decreases n - i,
    {
        let key: &String = a.key_at(i);
        let take: bool = match b.get(key.as_str()) {
            Some(ty) => retyped && *ty != *a.value_at(i),
            None => !retyped,
        };
        let ghost before = text::texts(r@);
        let ghost seen = r@;
        proof {
            assert(take == chosen(pairs[i as int].0, pairs[i as int].1, b@, retyped));
        }
        if take {
            r.push(key.clone());
        }
        proof {
            let now = text::texts(r@);
            if take {
                assert(now =~= before.push(pairs[i as int].0));
                assert forall|x: int, y: int| 0 <= x < y < now.len() implies text::text_before(
                    now[x],
                    now[y],
                ) by {
                    if y < before.len() {
                        assert(text::text_before(before[x], before[y]));
                    } else {
                        assert(before.contains(before[x]));
                        let j = choose|j: int|
                            0 <= j < i && (#[trigger] pairs[j]).0 == before[x] && chosen(
                                pairs[j].0,
                                pairs[j].1,
                                b@,
                                retyped,
                            );
                        assert(text::text_before(pairs[j].0, pairs[i as int].0));
                    }
                }
            } else {
                assert(now == before);
            }
            assert forall|k: Seq<char>| #[trigger]
                now.contains(k) <==> exists|j: int|
                    0 <= j < i + 1 && (#[trigger] pairs[j]).0 == k && chosen(
                        pairs[j].0,
                        pairs[j].1,
                        b@,
                        retyped,
                    ) by {
                if now.contains(k) {
                    let h = choose|h: int| 0 <= h < now.len() && now[h] == k;
                    if h < before.len() {
                        assert(before[h] == k);
                        assert(before.contains(k));
                    } else {
                        assert(pairs[i as int].0 == k);
                    }
                }
                if exists|j: int|
                    0 <= j < i + 1 && (#[trigger] pairs[j]).0 == k && chosen(
                        pairs[j].0,
                        pairs[j].1,
                        b@,
                        retyped,
                    ) {
                    let j = choose|j: int|
                        0 <= j < i + 1 && (#[trigger] pairs[j]).0 == k && chosen(
                            pairs[j].0,
                            pairs[j].1,
                            b@,
                            retyped,
                        );
                    if j < i {
                        assert(before.contains(k));
                        let h = choose|h: int| 0 <= h < before.len() && before[h] == k;
                        assert(now[h] == k);
                    } else {
                        assert(now[now.len() - 1] == k);
                    }
                }
            }
        }
        i += 1;
    }
    proof {
        let names = text::texts(r@);
        assert forall|k: Seq<char>| #[trigger] names.contains(k) <==> a@.contains_key(k) && chosen(
            k,
            a@[k],
            b@,
            retyped,
        ) by {
            pairs::pairs_map_keys(pairs, k);
            if names.contains(k) {
                let j = choose|j: int|
                    0 <= j < n && (#[trigger] pairs[j]).0 == k && chosen(
                        pairs[j].0,
                        pairs[j].1,
                        b@,
                        retyped,
                    );
                pairs::pairs_map_value(pairs, j);
            }
            if a@.contains_key(k) && chosen(k, a@[k], b@, retyped) {
                let j = choose|j: int| 0 <= j < pairs.len() && (#[trigger] pairs[j]).0 == k;
                pairs::pairs_map_value(pairs, j);
                assert(chosen(pairs[j].0, pairs[j].1, b@, retyped));
            }
        }
        if retyped {
            assert forall|k: Seq<char>| #[trigger] names.contains(k) <==> a@.contains_key(k)
                && b@.contains_key(k) && a@[k] != b@[k] by {
                assert(chosen(k, a@[k], b@, retyped) == (b@.contains_key(k) && a@[k] != b@[k]));
            }
        } else {
            assert forall|k: Seq<char>| #[trigger] names.contains(k) <==> a@.contains_key(k)
                && !b@.contains_key(k) by {
                assert(chosen(k, a@[k], b@, retyped) == !b@.contains_key(k));
            }
        }
    }
    r
}

spec fn chosen(
    key: Seq<char>,
    ty: FieldType,
    b: Map<Seq<char>, FieldType>,
    retyped: bool,
) -> bool {
    if retyped {
        b.contains_key(key) && ty != b[key]
    } else {
        !b.contains_key(key)
    }
}

/// How the fields of a schema change.
#[derive(Debug, PartialEq, Eq)]
pub struct FieldDiff {
    pub added: Vec<String>,
    pub removed: Vec<String>,
    pub type_changed: Vec<String>,
}

/// Compares the fields of two schemas by name; each list is in ascending order.
pub fn field_diff(old: &Vec<FieldDef>, new: &Vec<FieldDef>) -> (r: FieldDiff)
    ensures
        text::texts(r.added@) == fields_added(
            schema::field_models(old@),
            schema::field_models(new@),
        ),
        text::texts(r.removed@) == fields_removed(
            schema::field_models(old@),
            schema::field_models(new@),
        ),
        text::texts(r.type_changed@) == fields_type_changed(
            schema::field_models(old@),
            schema::field_models(new@),
        ),
        lists_missing(
            text::texts(r.added@),
            declared(schema::field_models(new@)),
            declared(schema::field_models(old@)),
        ),
        lists_missing(
            text::texts(r.removed@),
            declared(schema::field_models(old@)),
            declared(schema::field_models(new@)),
        ),
        lists_retyped(
            text::texts(r.type_changed@),
            declared(schema::field_models(old@)),
            declared(schema::field_models(new@)),
        ),
{
    let before: TextMap<FieldType> = declared_types(old);
    let after: TextMap<FieldType> = declared_types(new);
    let r = FieldDiff {
        added: keys_compared(&after, &before, false),
        removed: keys_compared(&before, &after, false),
        type_changed: keys_compared(&before, &after, true),
    };
    proof {
        let o = schema::field_models(old@);
        let n = schema::field_models(new@);
        field_lists_are_determined(o, n, text::texts(r.added@));
        field_lists_are_determined(o, n, text::texts(r.removed@));
        field_lists_are_determined(o, n, text::texts(r.type_changed@));
    }
    r
}

/// The lists of a field comparison, as members of a report.
pub open spec fn with_diff(
    members: Map<Seq<char>, JsonModel>,
    old: Seq<FieldModel>,
    new: Seq<FieldModel>,
) -> Map<Seq<char>, JsonModel> {
    members.insert("fields_added"@, error::text_list(fields_added(old, new))).insert(
        "fields_removed"@,
        error::text_list(fields_removed(old, new)),
    ).insert("fields_type_changed"@, error::text_list(fields_type_changed(old, new)))
}

/// What is read of the rows of a table, as a model.
pub open spec fn rows_counted(rows: Result<u64, MiniAppError>) -> Result<u64, ErrorModel> {
    match rows {
        Ok(n) => Ok(n),
        Err(e) => Err(e@),
    }
}

/// The steps that keep a copy of a table, change its schema file, and take the
/// change over.
pub open spec fn guarded_change(
    root: Seq<path::PartModel>,
    table: Seq<char>,
    yaml: Seq<path::PartModel>,
    change: plan::StepModel,
    retention: usize,
) -> Seq<plan::PlannedModel> {
    seq![
        plan::reported(
            plan::StepModel::Backup {
                scope_root: root,
                table,
                yaml_path: yaml,
                db_path: registry::database_file(root, table),
            },
        ),
        plan::reported(change),
        plan::reported(plan::StepModel::PurgeBackups { scope_root: root, table, retention }),
        plan::reported(plan::StepModel::RebuildRegistry),
    ]
}

/// How many backups a configuration keeps.
pub open spec fn backups_kept(config: ConfigModel) -> usize {
    match config.backup_retention {
        Some(n) => n,
        None => crate::config::DEFAULT_RETENTION,
    }
}

/// The plan of `schema_update`: `mounted` says whether the table is mounted, `old`
/// is its schema where its file can be read, and `rows` the number of its rows.
pub open spec fn update_plan(
    config: ConfigModel,
    given: GivenModel,
    mounted: bool,
    old: Option<SchemaModel>,
    rows: Result<u64, ErrorModel>,
) -> Result<plan::PlanModel, ErrorModel> {
    match scope_paths(given.scope, given.table, config) {
        Err(e) => Err(e),
        Ok((root, yaml)) => if !mounted || old is None {
            Err(ErrorModel::TableNotFound { table: given.table })
        } else {
            match fields_given(given.fields) {
                Err(e) => Err(e),
                Ok(fields) => if given.dry_run {
                    match rows {
                        Err(e) => Err(e),
                        Ok(n) => Ok(
                            plan::PlanModel {
                                steps: Seq::empty(),
                                outcome: Ok(
                                    plan::ReportModel::Json(
                                        dry_run_report(
                                            with_diff(
                                                no_members(),
                                                old->0.fields,
                                                fields,
                                            ).insert("rows_unchanged"@, count_json(n as int)),
                                        ),
                                    ),
                                ),
                            },
                        ),
                    }
                } else {
                    Ok(
                        plan::PlanModel {
                            steps: guarded_change(
                                root,
                                given.table,
                                yaml,
                                plan::StepModel::WriteSchema {
                                    path: yaml,
                                    schema: plain_schema(
                                        given.table,
                                        given.title,
                                        given.description,
                                        fields,
                                    ),
                                },
                                backups_kept(config),
                            ),
                            outcome: Ok(
                                plan::ReportModel::Json(
                                    JsonModel::Object(
                                        with_diff(
                                            no_members().insert(
                                                "updated"@,
                                                JsonModel::Text(given.table),
                                            ).insert("schema_path"@, path_json(yaml)).insert(
                                                "scope"@,
                                                JsonModel::Text(given.scope),
                                            ),
                                            old->0.fields,
                                            fields,
                                        ),
                                    ),
                                ),
                            ),
                        },
                    )
                },
            }
        },
    }
}

fn insert_diff(o: &mut JsonObject, diff: &FieldDiff)
    ensures
        final(o)@ == old(o)@.insert(
            "fields_added"@,
            error::text_list(text::texts(diff.added@)),
        ).insert("fields_removed"@, error::text_list(text::texts(diff.removed@))).insert(
            "fields_type_changed"@,
            error::text_list(text::texts(diff.type_changed@)),
        ),
{
    o.insert("fields_added".to_owned(), error::text_array(&diff.added));
    o.insert("fields_removed".to_owned(), error::text_array(&diff.removed));
    o.insert("fields_type_changed".to_owned(), error::text_array(&diff.type_changed));
}

fn guarded_steps(root: FilePath, table: &String, yaml: FilePath, change: Step, retention: usize) -> (r:
    Vec<PlannedStep>)
    ensures
        plan::step_models(r@) == guarded_change(root@, table@, yaml@, change@, retention),
{
    let mut steps: Vec<PlannedStep> = Vec::new();
    let db_path: FilePath = database_path(&root, table.as_str());
    steps.push(
        planned(
            Step::Backup {
                scope_root: root.duplicate(),
                table: table.clone(),
                yaml_path: yaml,
                db_path,
            },
        ),
    );
    steps.push(planned(change));
    steps.push(
        planned(Step::PurgeBackups { scope_root: root, table: table.clone(), retention }),
    );
    steps.push(planned(Step::RebuildRegistry));
    assert(plan::step_models(steps@) =~= guarded_change(
        root@,
        table@,
        yaml@,
        change@,
        retention,
    ));
    steps
}

/// The schema, where there is one, as a model.
pub open spec fn schema_option(s: Option<SchemaConfig>) -> Option<SchemaModel> {
    match s {
        Some(s) => Some(s@),
        None => None,
    }
}

/// Plans `schema_update`: a backup is written, the schema file replaced as a
/// whole, old backups are deleted, and the tables are read anew. No statement is
/// run on the database. `mounted` says whether the table is mounted, `old` is
/// its schema where its file can be read, and `rows` the number of its rows,
/// which a dry run reports.
pub fn do_schema_update(
    config: &Config,
    params: &SchemaUpdateParams,
    mounted: bool,
    old: Option<SchemaConfig>,
    rows: Result<u64, MiniAppError>,
) -> (r: Result<Plan, MiniAppError>)
    ensures
        plan::plan_outcome(r) == update_plan(
            config@,
            params@,
            mounted,
            schema_option(old),
            rows_counted(rows),
        ),
{
    let (root, yaml) = match resolve_scope_paths(&params.scope, &params.table, config) {
        Err(e) => {
            return Err(e);
        },
        Ok(p) => p,
    };
    if !mounted {
        return Err(MiniAppError::TableNotFound { table: params.table.clone() });
    }
    let before: SchemaConfig = match old {
        Some(s) => s,
        None => {
            return Err(MiniAppError::TableNotFound { table: params.table.clone() });
        },
    };
    let fields: Vec<FieldDef> = match parse_fields(&params.fields) {
        Err(e) => {
            return Err(e);
        },
        Ok(f) => f,
    };
    let diff: FieldDiff = field_diff(&before.fields, &fields);
    if params.dry_run {
        let n: u64 = match rows {
            Err(e) => {
                return Err(e);
            },
            Ok(n) => n,
        };
        let mut affects: JsonObject = JsonObject::new();
        insert_diff(&mut affects, &diff);
        affects.insert("rows_unchanged".to_owned(), JsonValue::Number(JsonNumber::Unsigned(n)));
        return Ok(Plan::report(dry_run_value(affects)));
    }
    let schema: SchemaConfig = SchemaConfig {
        table: params.table.clone(),
        title: text::duplicate_option(&params.title),
        description: text::duplicate_option(&params.description),
        fields,
        dump: None,
    };
    let mut report: JsonObject = JsonObject::new();
    report.insert("updated".to_owned(), JsonValue::Text(params.table.clone()));
    report.insert("schema_path".to_owned(), JsonValue::Text(yaml.display()));
    report.insert("scope".to_owned(), JsonValue::Text(params.scope.clone()));
    insert_diff(&mut report, &diff);
    let change: Step = Step::WriteSchema { path: yaml.duplicate(), schema };
    let steps: Vec<PlannedStep> = guarded_steps(
        root,
        &params.table,
        yaml,
        change,
        config.backup_retention(),
    );
    Ok(Plan { steps, outcome: Ok(Report::Json(JsonValue::Object(report))) })
}

/// The plan of `schema_delete`.
pub open spec fn delete_plan(
    config: ConfigModel,
    table: Seq<char>,
    scope: Seq<char>,
    dry_run: bool,
    mounted: bool,
    rows: Result<u64, ErrorModel>,
) -> Result<plan::PlanModel, ErrorModel> {
    match scope_paths(scope, table, config) {
        Err(e) => Err(e),
        Ok((root, yaml)) => if !mounted {
            Err(ErrorModel::TableNotFound { table })
        } else if dry_run {
            match rows {
                Err(e) => Err(e),
                Ok(n) => Ok(
                    plan::PlanModel {
                        steps: Seq::empty(),
                        outcome: Ok(
                            plan::ReportModel::Json(
                                dry_run_report(
                                    no_members().insert(
                                        "rows_orphaned"@,
                                        count_json(n as int),
                                    ).insert("would_remove_yaml"@, path_json(yaml)).insert(
                                        "db_file_retained"@,
                                        path_json(registry::database_file(root, table)),
                                    ),
                                ),
                            ),
                        ),
                    },
                ),
            }
        } else {
            Ok(
                plan::PlanModel {
                    steps: guarded_change(
                        root,
                        table,
                        yaml,
                        plan::StepModel::RemoveSchema { path: yaml },
                        backups_kept(config),
                    ),
                    outcome: Ok(
                        plan::ReportModel::Json(
                            JsonModel::Object(
                                no_members().insert("deleted"@, JsonModel::Text(table)).insert(
                                    "schema_path_removed"@,
                                    path_json(yaml),
                                ).insert(
                                    "db_file_retained"@,
                                    path_json(registry::database_file(root, table)),
                                ).insert("scope"@, JsonModel::Text(scope)),
                            ),
                        ),
                    ),
                },
            )
        },
    }
}

/// Plans `schema_delete`: a backup is written, the schema file removed, old
/// backups are deleted, and the tables are read anew. The database stays. A dry
/// run plans nothing and reports the number of rows that would be left without a
/// schema.
pub fn do_schema_delete(
    config: &Config,
    params: &SchemaDeleteParams,
    mounted: bool,
    rows: Result<u64, MiniAppError>,
) -> (r: Result<Plan, MiniAppError>)
    ensures
        plan::plan_outcome(r) == delete_plan(
            config@,
            params.table@,
            params.scope@,
            params.dry_run,
            mounted,
            rows_counted(rows),
        ),
{
    let (root, yaml) = match resolve_scope_paths(&params.scope, &params.table, config) {
        Err(e) => {
            return Err(e);
        },
        Ok(p) => p,
    };
    if !mounted {
        return Err(MiniAppError::TableNotFound { table: params.table.clone() });
    }
    let db_path: FilePath = database_path(&root, params.table.as_str());
    if params.dry_run {
        let n: u64 = match rows {
            Err(e) => {
                return Err(e);
            },
            Ok(n) => n,
        };
        let mut affects: JsonObject = JsonObject::new();
        affects.insert("rows_orphaned".to_owned(), JsonValue::Number(JsonNumber::Unsigned(n)));
        affects.insert("would_remove_yaml".to_owned(), JsonValue::Text(yaml.display()));
        affects.insert("db_file_retained".to_owned(), JsonValue::Text(db_path.display()));
        return Ok(Plan::report(dry_run_value(affects)));
    }
    let mut report: JsonObject = JsonObject::new();
    report.insert("deleted".to_owned(), JsonValue::Text(params.table.clone()));
    report.insert("schema_path_removed".to_owned(), JsonValue::Text(yaml.display()));
    report.insert("db_file_retained".to_owned(), JsonValue::Text(db_path.display()));
    report.insert("scope".to_owned(), JsonValue::Text(params.scope.clone()));
    let change: Step = Step::RemoveSchema { path: yaml.duplicate() };
    let steps: Vec<PlannedStep> = guarded_steps(
        root,
        &params.table,
        yaml,
        change,
        config.backup_retention(),
    );
    Ok(Plan { steps, outcome: Ok(Report::Json(JsonValue::Object(report))) })
}

/// What was found of tables in a directory, or why it could not be searched.
pub type Found<S> = Result<Vec<(String, TableEntry<S>)>, MiniAppError>;

/// Why the tables cannot be read anew, if they cannot: the first failure, where
/// the directory of the user is searched first, then that of the project, and
/// then the one table of legacy mode is mounted.
pub open spec fn rebuild_failure<S>(
    user: Found<S>,
    project: Found<S>,
    legacy: Option<Result<TableEntry<S>, MiniAppError>>,
) -> Option<ErrorModel> {
    match (user, project, legacy) {
        (Err(e), _, _) => Some(e@),
        (Ok(_), Err(e), _) => Some(e@),
        (Ok(_), Ok(_), Some(Err(e))) => Some(e@),
        _ => None,
    }
}

/// The tables that are mounted when they are read anew: those of the user, those
/// of the project in their place, and the one table of legacy mode in place of
/// either.
pub open spec fn rebuilt_tables<S>(
    user: registry::Tables<S>,
    project: registry::Tables<S>,
    legacy: Option<TableEntry<S>>,
) -> registry::Tables<S> {
    let found = registry::scopes_merged(user, project);
    match legacy {
        Some(entry) => found.insert(entry.schema.table@, entry),
        None => found,
    }
}

/// The default table: that of legacy mode.
pub open spec fn rebuilt_default<S>(legacy: Option<TableEntry<S>>) -> Option<Seq<char>> {
    match legacy {
        Some(entry) => Some(entry.schema.table@),
        None => None,
    }
}

/// The tables read anew, from what was found in the directories and, in legacy
/// mode, of its one table.
pub fn rebuild_registry<S>(
    user: Found<S>,
    project: Found<S>,
    legacy: Option<Result<TableEntry<S>, MiniAppError>>,
) -> (r: Result<TableRegistry<S>, MiniAppError>)
    ensures
        match r {
            Err(e) => rebuild_failure(user, project, legacy) == Some(e@),
            Ok(t) => rebuild_failure(user, project, legacy) is None && ({
                let mounted = match legacy {
                    Some(l) => Some(l->Ok_0),
                    None => None,
                };
                &&& t.tables() == rebuilt_tables(
                    registry::tables_found(user->Ok_0@),
                    registry::tables_found(project->Ok_0@),
                    mounted,
                )
                &&& t.default_name() == rebuilt_default(mounted)
            }),
        },
{
    let user_tables: Vec<(String, TableEntry<S>)> = match user {
        Err(e) => {
            return Err(e);
        },
        Ok(t) => t,
    };
    let project_tables: Vec<(String, TableEntry<S>)> = match project {
        Err(e) => {
            return Err(e);
        },
        Ok(t) => t,
    };
    match legacy {
        Some(Err(e)) => Err(e),
        Some(Ok(entry)) => Ok(
            TableRegistry::mount_from_dirs(user_tables, project_tables).mount_legacy_into(entry),
        ),
        None => Ok(TableRegistry::mount_from_dirs(user_tables, project_tables)),
    }
}

/// The table of legacy mode takes precedence over a table of the same name, and
/// is found without a name; every other table stays what it was.
pub proof fn legacy_table_takes_precedence<S>(
    user: registry::Tables<S>,
    project: registry::Tables<S>,
    entry: TableEntry<S>,
    name: Seq<char>,
)
    ensures
        ({
            let tables = rebuilt_tables(user, project, Some(entry));
            let default_table = rebuilt_default(Some(entry));
            &&& registry::resolved(tables, default_table, None) == Ok::<TableEntry<S>, ErrorModel>(
                entry,
            )
            &&& registry::table_called(tables, entry.schema.table@) == Ok::<
                TableEntry<S>,
                ErrorModel,
            >(entry)
            &&& name != entry.schema.table@ ==> registry::table_called(tables, name)
                == registry::table_called(rebuilt_tables(user, project, None), name)
        }),
{
}

/// Which table a name stands for once the tables are read anew: that of legacy mode,
/// where it has the name; otherwise the one that was found last in the directory of
/// the project, otherwise the one that was found last in that of the user, and none
/// where neither has it. Without a name it is that of legacy mode.
pub proof fn tables_are_found_by_precedence<S>(
    user: Seq<(String, TableEntry<S>)>,
    project: Seq<(String, TableEntry<S>)>,
    legacy: Option<TableEntry<S>>,
    name: Seq<char>,
    entry: TableEntry<S>,
)
    ensures
        ({
            let tables = rebuilt_tables(
                registry::tables_found(user),
                registry::tables_found(project),
                legacy,
            );
            let named = registry::resolved(tables, rebuilt_default(legacy), Some(name));
            let unnamed = registry::resolved(tables, rebuilt_default(legacy), None);
            let in_legacy = legacy matches Some(l) && l.schema.table@ == name;
            let in_project = exists|i: int|
                0 <= i < project.len() && (#[trigger] project[i]).0@ == name;
            let in_user = exists|i: int| 0 <= i < user.len() && (#[trigger] user[i]).0@ == name;
            &&& in_legacy ==> named == Ok::<TableEntry<S>, ErrorModel>(legacy->0)
            &&& !in_legacy && registry::last_found(project, name, entry) ==> named == Ok::<
                TableEntry<S>,
                ErrorModel,
            >(entry)
            &&& !in_legacy && !in_project && registry::last_found(user, name, entry) ==> named
                == Ok::<TableEntry<S>, ErrorModel>(entry)
            &&& !in_legacy && !in_project && !in_user ==> named == Err::<
                TableEntry<S>,
                ErrorModel,
            >(ErrorModel::TableNotFound { table: name })
            &&& legacy matches Some(l) ==> unnamed == Ok::<TableEntry<S>, ErrorModel>(l)
            &&& legacy is None ==> unnamed == Err::<TableEntry<S>, ErrorModel>(
                ErrorModel::TableRequired,
            )
        }),
{
    registry::findings_are_mounted(user, name, entry);
    registry::findings_are_mounted(project, name, entry);
}

/// Reading the tables anew fails where something could not be read: the directory of
/// the user, or else that of the project, or else the table of legacy mode.
pub proof fn rebuilding_fails_for_what_cannot_be_read<S>(
    user: Found<S>,
    project: Found<S>,
    legacy: Option<Result<TableEntry<S>, MiniAppError>>,
)
    ensures
        user matches Err(e) ==> rebuild_failure(user, project, legacy) == Some(e@),
        user is Ok && project is Err ==> rebuild_failure(user, project, legacy) == Some(
            project->Err_0@,
        ),
        user is Ok && project is Ok ==> (match legacy {
            Some(Err(e)) => rebuild_failure(user, project, legacy) == Some(e@),
            _ => rebuild_failure(user, project, legacy) is None,
        }),
{
}

/// Without a table of legacy mode, a request must name its table.
pub proof fn table_must_be_named<S>(user: registry::Tables<S>, project: registry::Tables<S>)
    ensures
        registry::resolved(
            rebuilt_tables(user, project, None),
            rebuilt_default(None::<TableEntry<S>>),
            None,
        ) == Err::<TableEntry<S>, ErrorModel>(ErrorModel::TableRequired),
{
}

/// Whether a plan writes `schema` to the schema file `file`.
pub open spec fn writes_schema(
    steps: Seq<plan::PlannedModel>,
    file: Seq<path::PartModel>,
    schema: SchemaModel,
) -> bool {
    exists|k: int|
        0 <= k < steps.len() && (#[trigger] steps[k]).step == (plan::StepModel::WriteSchema {
            path: file,
            schema,
        })
}

/// Whether a plan opens the database `file`.
pub open spec fn opens_database(
    steps: Seq<plan::PlannedModel>,
    file: Seq<path::PartModel>,
) -> bool {
    exists|k: int|
        0 <= k < steps.len() && (match (#[trigger] steps[k]).step {
            plan::StepModel::OpenStore { db_path, .. } => db_path == file,
            _ => false,
        })
}

/// The schema that `schema_create` is given.
pub open spec fn schema_given(given: GivenModel) -> SchemaModel {
    plain_schema(given.table, given.title, given.description, fields_given(given.fields)->Ok_0)
}

/// A created table is there at once: what the plan writes and opens are the schema
/// file and the database that a scan of the scope looks for, it reads the tables
/// anew after that, and it reports the table as created.
pub proof fn created_files_are_scanned(
    config: ConfigModel,
    given: GivenModel,
    candidate: registry::Candidate,
)
    requires
        !given.dry_run,
        create_plan(config, given, false) is Ok,
        registry::candidate_for(
            candidate,
            scope_paths(given.scope, given.table, config)->Ok_0.0,
            given.table,
        ),
    ensures
        ({
            let p = create_plan(config, given, false)->Ok_0;
            &&& forall|s: SchemaModel| #[trigger]
                writes_schema(p.steps, candidate.schema_path@, s) <==> s == schema_given(given)
            &&& opens_database(p.steps, candidate.db_path@)
            &&& p.steps.len() > 0 && p.steps.last().step == plan::StepModel::RebuildRegistry
            &&& p.outcome matches Ok(plan::ReportModel::Json(JsonModel::Object(report)))
                && report.contains_key("created"@) && report["created"@] == JsonModel::Text(
                given.table,
            )
        }),
{
    let p = create_plan(config, given, false)->Ok_0;
    assert(p.steps[1].step == (plan::StepModel::WriteSchema {
        path: candidate.schema_path@,
        schema: schema_given(given),
    }));
    assert(p.steps[2].step == (plan::StepModel::OpenStore {
        db_path: candidate.db_path@,
        schema: schema_given(given),
    }));
    report_keys_differ();
}

proof fn report_keys_differ()
    ensures
        "created"@ != "schema_path"@,
        "created"@ != "scope"@,
{
    reveal_strlit("created");
    reveal_strlit("schema_path");
    reveal_strlit("scope");
    assert("created"@.len() == 7);
    assert("schema_path"@.len() == 11);
    assert("scope"@.len() == 5);
}

/// What was found in the directory of a scope.
pub open spec fn found_in_scope<S>(
    scope: Seq<char>,
    user: Seq<(String, TableEntry<S>)>,
    project: Seq<(String, TableEntry<S>)>,
) -> Seq<(String, TableEntry<S>)> {
    if scope == "project"@ {
        project
    } else {
        user
    }
}

/// A table that was created resolves once the tables are read anew. The scan
/// finds its schema file, reads from it the schema that the plan wrote there, opens
/// the database and mounts the table, under its name and with the fields that were
/// given, in their order. A request that names it then gets a table, and gets that
/// very one unless a table of higher precedence has the same name: one of the
/// project where it was created for the user, or that of legacy mode.
pub proof fn created_table_resolves<S>(
    config: ConfigModel,
    given: GivenModel,
    candidate: registry::Candidate,
    read: SchemaConfig,
    store: S,
    user: Seq<(String, TableEntry<S>)>,
    project: Seq<(String, TableEntry<S>)>,
    i: int,
    legacy: Option<TableEntry<S>>,
)
    requires
        !given.dry_run,
        create_plan(config, given, false) is Ok,
        registry::candidate_for(
            candidate,
            scope_paths(given.scope, given.table, config)->Ok_0.0,
            given.table,
        ),
        writes_schema(
            create_plan(config, given, false)->Ok_0.steps,
            candidate.schema_path@,
            read@,
        ),
        ({
            let found = found_in_scope(given.scope, user, project);
            &&& 0 <= i < found.len()
            &&& registry::scan_next(candidate, registry::Scan::Opened(Some(store), read))
                == registry::ScanModel::Mount(found[i].0@, found[i].1)
            &&& forall|j: int|
                i < j < found.len() ==> (#[trigger] found[j]).0@ != found[i].0@
        }),
    ensures
        registry::scan_next(candidate, registry::Scan::<S>::SchemaFile(true)) is LoadSchema,
        registry::scan_next(candidate, registry::Scan::<S>::Schema(Some(read)))
            == registry::ScanModel::<S>::OpenStore(read),
        ({
            let entry = TableEntry { store, schema: read, schema_path: candidate.schema_path };
            let tables = rebuilt_tables(
                registry::tables_found(user),
                registry::tables_found(project),
                legacy,
            );
            let named = registry::resolved(tables, rebuilt_default(legacy), Some(given.table));
            &&& registry::scan_next(candidate, registry::Scan::Opened(Some(store), read))
                == registry::ScanModel::Mount(given.table, entry)
            &&& entry.schema@ == schema_given(given)
            &&& fields_given(given.fields) == Ok::<Seq<FieldModel>, ErrorModel>(
                entry.schema@.fields,
            )
            &&& named is Ok
            &&& (given.scope == "project"@ || !registry::tables_found(project).contains_key(
                given.table,
            )) && (legacy is None || legacy->0.schema.table@ != given.table) ==> named == Ok::<
                TableEntry<S>,
                ErrorModel,
            >(entry)
        }),
{
    created_files_are_scanned(config, given, candidate);
    let found = found_in_scope(given.scope, user, project);
    let spelt = registry::found_pairs(found);
    assert forall|j: int| i < j < spelt.len() implies (#[trigger] spelt[j]).0 != spelt[i].0 by {
        assert(found[j].0@ != found[i].0@);
    }
    pairs::pairs_map_last(spelt, i);
}

/// A dry run says that it is one, and what it would affect.
pub proof fn dry_runs_say_so(affects: Map<Seq<char>, JsonModel>)
    ensures
        json::says(dry_run_report(affects), "dry_run"@, JsonModel::Bool(true)),
        json::says(dry_run_report(affects), "affects"@, JsonModel::Object(affects)),
{
    reveal_strlit("dry_run");
    reveal_strlit("affects");
    assert("dry_run"@[0] == 'd' && "affects"@[0] == 'a');
}

/// A dry run of any of the three tools plans nothing.
pub proof fn dry_runs_plan_nothing(
    config: ConfigModel,
    given: GivenModel,
    exists: bool,
    mounted: bool,
    old: Option<SchemaModel>,
    rows: Result<u64, ErrorModel>,
)
    requires
        given.dry_run,
    ensures
        create_plan(config, given, exists) matches Ok(p) ==> p.steps.len() == 0,
        update_plan(config, given, mounted, old, rows) matches Ok(p) ==> p.steps.len() == 0,
        delete_plan(config, given.table, given.scope, true, mounted, rows) matches Ok(p)
            ==> p.steps.len() == 0,
{
}

/// Where a plan replaces or removes a schema file, a backup of that very file
/// comes before, and the plan ends before the change where the backup fails.
pub open spec fn backed_up_first(steps: Seq<plan::PlannedModel>) -> bool {
    forall|i: int|
        0 <= i < steps.len() ==> {
            let step = (#[trigger] steps[i]).step;
            let file = match step {
                plan::StepModel::WriteSchema { path, schema } => Some(path),
                plan::StepModel::RemoveSchema { path } => Some(path),
                _ => None,
            };
            file is Some ==> exists|j: int|
                0 <= j < i && backs_up((#[trigger] steps[j]).step, file->0) && !(
                steps[j].on_failure is Continue)
        }
}

/// The step is a backup of the schema file `file`.
pub open spec fn backs_up(step: plan::StepModel, file: Seq<path::PartModel>) -> bool {
    step matches plan::StepModel::Backup { scope_root, table, yaml_path, db_path } && yaml_path
        == file
}

/// Updates and deletions keep a backup before they change a schema file.
pub proof fn changes_are_backed_up_first(
    config: ConfigModel,
    given: GivenModel,
    mounted: bool,
    old: Option<SchemaModel>,
    rows: Result<u64, ErrorModel>,
)
    ensures
        update_plan(config, given, mounted, old, rows) matches Ok(p) ==> backed_up_first(p.steps),
        delete_plan(config, given.table, given.scope, given.dry_run, mounted, rows) matches Ok(p)
            ==> backed_up_first(p.steps),
{
    match update_plan(config, given, mounted, old, rows) {
        Ok(p) => {
            if p.steps.len() > 0 {
                assert(backs_up(p.steps[0].step, p.steps[1].step->WriteSchema_path));
            }
        },
        Err(_) => {},
    }
    match delete_plan(config, given.table, given.scope, given.dry_run, mounted, rows) {
        Ok(p) => {
            if p.steps.len() > 0 {
                assert(backs_up(p.steps[0].step, p.steps[1].step->RemoveSchema_path));
            }
        },
        Err(_) => {},
    }
}

/// The only files that a plan removes are schema files, and it runs no
/// statement of its own on a database.
pub open spec fn spares_databases(steps: Seq<plan::PlannedModel>) -> bool {
    forall|i: int|
        0 <= i < steps.len() ==> {
            let step = (#[trigger] steps[i]).step;
            &&& step matches plan::StepModel::RemoveSchema { path } ==> path.len() > 0
                && path.last() == path::PartModel::Name("schema.yaml"@)
            &&& !(step is RunSql)
        }
}

/// None of the three tools removes a database or runs a statement on one.
pub proof fn databases_are_spared(
    config: ConfigModel,
    given: GivenModel,
    exists: bool,
    mounted: bool,
    old: Option<SchemaModel>,
    rows: Result<u64, ErrorModel>,
)
    ensures
        create_plan(config, given, exists) matches Ok(p) ==> spares_databases(p.steps),
        update_plan(config, given, mounted, old, rows) matches Ok(p) ==> spares_databases(p.steps),
        delete_plan(config, given.table, given.scope, given.dry_run, mounted, rows) matches Ok(p)
            ==> spares_databases(p.steps),
{
}

/// A table whose schema file exists is never created anew.
pub proof fn existing_schema_is_not_overwritten(config: ConfigModel, given: GivenModel)
    requires
        scope_paths(given.scope, given.table, config) is Ok,
        !given.dry_run,
    ensures
        create_plan(config, given, true) == Err::<plan::PlanModel, ErrorModel>(
            ErrorModel::SchemaExists { table: given.table },
        ),
{
}

/// Whether a text is the name of a type.
pub open spec fn type_named(text: Seq<char>, ty: FieldType) -> bool {
    &&& ty == FieldType::String ==> text == "string"@
    &&& ty == FieldType::Number ==> text == "number"@
    &&& ty == FieldType::Boolean ==> text == "boolean"@
    &&& ty == FieldType::Array ==> text == "array"@
    &&& ty == FieldType::Object ==> text == "object"@
}

/// Whether a text is the name of some type.
pub open spec fn names_a_type(text: Seq<char>) -> bool {
    text == "string"@ || text == "number"@ || text == "boolean"@ || text == "array"@ || text
        == "object"@
}

/// Whether a field is the one that was given: the same name, the type that was
/// named, required or not as was said, and the same description.
pub open spec fn field_as_given(field: FieldModel, input: InputModel) -> bool {
    &&& field.name == input.name
    &&& type_named(input.ty, field.ty)
    &&& field.required == input.required
    &&& field.description == input.description
}

/// Whether the fields are those that were given, one by one and in order.
pub open spec fn fields_as_given(fields: Seq<FieldModel>, inputs: Seq<InputModel>) -> bool {
    &&& fields.len() == inputs.len()
    &&& forall|i: int| 0 <= i < inputs.len() ==> field_as_given(#[trigger] fields[i], inputs[i])
}

/// Whether a schema is the one that was given.
pub open spec fn schema_as_given(schema: SchemaModel, given: GivenModel) -> bool {
    &&& schema.table == given.table
    &&& schema.title == given.title
    &&& schema.description == given.description
    &&& fields_as_given(schema.fields, given.fields)
    &&& schema.dump is None
}

proof fn type_names_differ()
    ensures
        "string"@ != "number"@,
        "string"@ != "boolean"@,
        "string"@ != "array"@,
        "string"@ != "object"@,
        "number"@ != "boolean"@,
        "number"@ != "array"@,
        "number"@ != "object"@,
        "boolean"@ != "array"@,
        "boolean"@ != "object"@,
        "array"@ != "object"@,
{
    reveal_strlit("string");
    reveal_strlit("number");
    reveal_strlit("boolean");
    reveal_strlit("array");
    reveal_strlit("object");
    assert("string"@.len() == 6 && "string"@[0] == 's');
    assert("number"@.len() == 6 && "number"@[0] == 'n');
    assert("boolean"@.len() == 7);
    assert("array"@.len() == 5);
    assert("object"@.len() == 6 && "object"@[0] == 'o');
}

/// Fields are read exactly where each of them names a type, and are then those that
/// were given, one by one and in order. Otherwise the first that names none is
/// reported, with what it names.
pub proof fn fields_are_read_as_given(inputs: Seq<InputModel>)
    ensures
        fields_given(inputs) is Ok <==> forall|i: int|
            0 <= i < inputs.len() ==> names_a_type((#[trigger] inputs[i]).ty),
        fields_given(inputs) matches Ok(fields) ==> fields_as_given(fields, inputs),
        fields_given(inputs) matches Err(e) ==> exists|k: int|
            #![trigger inputs[k]]
            0 <= k < inputs.len() && !names_a_type(inputs[k].ty) && e == (
            ErrorModel::Validation {
                field: "fields["@ + inputs[k].name + "].type"@,
                reason: "unknown type '"@ + inputs[k].ty
                    + "'; must be one of: string, number, boolean, array, object"@,
            }) && forall|j: int| 0 <= j < k ==> names_a_type((#[trigger] inputs[j]).ty),
    decreases inputs.len(),
{
    if inputs.len() > 0 {
        type_names_differ();
        let front = inputs.drop_last();
        fields_are_read_as_given(front);
        let n = inputs.len() - 1;
        assert(inputs[n] == inputs.last());
        match fields_given(front) {
            Ok(fields) => {
                assert forall|i: int| 0 <= i < n implies names_a_type((#[trigger] inputs[i]).ty) by {
                    assert(front[i] == inputs[i]);
                }
                if names_a_type(inputs[n].ty) {
                    let now = fields_given(inputs)->Ok_0;
                    assert forall|i: int| 0 <= i < inputs.len() implies field_as_given(
                        #[trigger] now[i],
                        inputs[i],
                    ) by {
                        if i < n {
                            assert(now[i] == fields[i] && front[i] == inputs[i]);
                            assert(field_as_given(fields[i], front[i]));
                        }
                    }
                }
            },
            Err(e) => {
                let k = choose|k: int|
                    #![trigger front[k]]
                    0 <= k < front.len() && !names_a_type(front[k].ty) && e == (
                    ErrorModel::Validation {
                        field: "fields["@ + front[k].name + "].type"@,
                        reason: "unknown type '"@ + front[k].ty
                            + "'; must be one of: string, number, boolean, array, object"@,
                    }) && forall|j: int| 0 <= j < k ==> names_a_type((#[trigger] front[j]).ty);
                assert(inputs[k] == front[k]);
                assert forall|j: int| 0 <= j < k implies names_a_type((#[trigger] inputs[j]).ty) by {
                    assert(front[j] == inputs[j]);
                }
            },
        }
    }
}

/// Two lists of fields that are as given are the same.
pub proof fn fields_are_given_once(
    a: Seq<FieldModel>,
    b: Seq<FieldModel>,
    inputs: Seq<InputModel>,
)
    requires
        fields_as_given(a, inputs),
        fields_as_given(b, inputs),
    ensures
        a == b,
{
    type_names_differ();
    assert forall|i: int| 0 <= i < inputs.len() implies a[i] == b[i] by {
        assert(field_as_given(a[i], inputs[i]));
        assert(field_as_given(b[i], inputs[i]));
    }
    assert(a =~= b);
}

/// Whether a text may be the name of a table: ASCII letters, digits, `_` and `-`,
/// and at least one of them.
pub open spec fn plain_name(table: Seq<char>) -> bool {
    &&& table.len() > 0
    &&& forall|i: int|
        0 <= i < table.len() ==> {
            let c = #[trigger] table[i];
            ('a' <= c <= 'z') || ('A' <= c <= 'Z') || ('0' <= c <= '9') || c == '_' || c == '-'
        }
}

/// Whether `root` is the directory of a scope.
pub open spec fn scope_root(
    config: ConfigModel,
    scope: Seq<char>,
    root: Seq<path::PartModel>,
) -> bool {
    ||| scope == "project"@ && config.project_dir == Some(root)
    ||| scope == "user"@ && config.user_dir == Some(root)
}

/// The schema file of a table: `<root>/<table>/schema.yaml`.
pub open spec fn yaml_in(root: Seq<path::PartModel>, table: Seq<char>) -> Seq<path::PartModel> {
    root.push(path::PartModel::Name(table)).push(path::PartModel::Name("schema.yaml"@))
}

/// The database of a table: `<root>/<table>/<table>.db`.
pub open spec fn db_in(root: Seq<path::PartModel>, table: Seq<char>) -> Seq<path::PartModel> {
    root.push(path::PartModel::Name(table)).push(path::PartModel::Name(table + ".db"@))
}

proof fn scope_names_differ()
    ensures
        "project"@ != "user"@,
{
    reveal_strlit("project");
    reveal_strlit("user");
    assert("project"@.len() == 7 && "user"@.len() == 4);
}

/// A scope and a table resolve exactly where the name is plain and the scope is one
/// of the two and has a directory: to that directory and, in it, the schema file of
/// the table. What is wrong is said otherwise, with the name before the scope.
pub proof fn scopes_resolve_to_their_directories(
    config: ConfigModel,
    scope: Seq<char>,
    table: Seq<char>,
    root: Seq<path::PartModel>,
)
    ensures
        plain_name(table) && scope_root(config, scope, root) ==> scope_paths(scope, table, config)
            == Ok::<(Seq<path::PartModel>, Seq<path::PartModel>), ErrorModel>(
            (root, yaml_in(root, table)),
        ),
        scope_paths(scope, table, config) matches Ok(p) ==> plain_name(table) && scope_root(
            config,
            scope,
            p.0,
        ) && p.1 == yaml_in(p.0, table),
        !plain_name(table) ==> (scope_paths(scope, table, config) matches Err(
            ErrorModel::Validation { field, reason },
        ) && field == "table"@),
        plain_name(table) && scope != "project"@ && scope != "user"@ ==> scope_paths(
            scope,
            table,
            config,
        ) == Err::<(Seq<path::PartModel>, Seq<path::PartModel>), ErrorModel>(
            ErrorModel::Validation {
                field: "scope"@,
                reason: "invalid scope '"@ + scope + "'; must be 'project' or 'user'"@,
            },
        ),
        plain_name(table) && scope == "project"@ && config.project_dir is None ==> scope_paths(
            scope,
            table,
            config,
        ) == Err::<(Seq<path::PartModel>, Seq<path::PartModel>), ErrorModel>(
            ErrorModel::Config("project scope requires MINI_APP_PROJECT_DIR"@),
        ),
        plain_name(table) && scope == "user"@ && config.user_dir is None ==> scope_paths(
            scope,
            table,
            config,
        ) == Err::<(Seq<path::PartModel>, Seq<path::PartModel>), ErrorModel>(
            ErrorModel::Config("user scope requires MINI_APP_USER_DIR"@),
        ),
{
    scope_names_differ();
    accepted_names_are_plain(table);
    if plain_name(table) {
        assert forall|i: int| 0 <= i < table.len() implies name_char(#[trigger] table[i]) by {
            let c = table[i];
        }
    }
    if name_failure(table) is None {
        assert forall|i: int| 0 <= i < table.len() implies ({
            let c = #[trigger] table[i];
            ('a' <= c <= 'z') || ('A' <= c <= 'Z') || ('0' <= c <= '9') || c == '_' || c == '-'
        }) by {
            assert(name_char(table[i]));
        }
    }
}

/// What is wrong with a name: that it is empty, that it is `.` or `..`, that it
/// starts with a dot, or the first character in it that may not stand there.
pub proof fn bad_names_are_told_why(table: Seq<char>, k: int)
    ensures
        table.len() == 0 ==> name_failure(table) == Some(
            ErrorModel::Validation {
                field: "table"@,
                reason: "table name must not be empty"@,
            },
        ),
        table == "."@ || table == ".."@ ==> name_failure(table) == Some(
            ErrorModel::Validation {
                field: "table"@,
                reason: "table name '"@ + table + "' is reserved"@,
            },
        ),
        table.len() > 0 && table != "."@ && table != ".."@ && table[0] == '.' ==> name_failure(
            table,
        ) == Some(
            ErrorModel::Validation {
                field: "table"@,
                reason: "table name must not start with '.'"@,
            },
        ),
        0 <= k < table.len() && table[0] != '.' && !plain_name(seq![table[k]]) && (k == 0
            || plain_name(table.take(k))) ==> name_failure(table) == Some(
            ErrorModel::Validation {
                field: "table"@,
                reason: "table name contains invalid character '"@ + seq![table[k]]
                    + "'; allowed: [A-Za-z0-9_-]"@,
            },
        ),
{
    reveal_strlit(".");
    reveal_strlit("..");
    assert("."@.len() == 1 && "."@[0] == '.');
    assert(".."@.len() == 2 && ".."@[0] == '.');
    if 0 <= k < table.len() && table[0] != '.' && !plain_name(seq![table[k]]) && (k == 0
        || plain_name(table.take(k))) {
        assert(!name_char(table[k])) by {
            if name_char(table[k]) {
                assert(plain_name(seq![table[k]]));
            }
        }
        assert forall|i: int| 0 <= i < k implies name_char(#[trigger] table[i]) by {
            assert(table.take(k)[i] == table[i]);
        }
        first_bad_char_at(table, k);
    }
}

proof fn first_bad_char_at(s: Seq<char>, k: int)
    requires
        0 <= k < s.len(),
        !name_char(s[k]),
        forall|i: int| 0 <= i < k ==> name_char(#[trigger] s[i]),
    ensures
        first_bad_char(s) == Some(s[k]),
    decreases k,
{
    if k > 0 {
        let rest = s.drop_first();
        assert(name_char(s[0]));
        assert forall|i: int| 0 <= i < k - 1 implies name_char(#[trigger] rest[i]) by {
            assert(rest[i] == s[i + 1]);
        }
        assert(rest[k - 1] == s[k]);
        first_bad_char_at(rest, k - 1);
    }
}

/// A number of copies that is set, and 10 where none is.
pub open spec fn set_or_ten(set: Option<usize>) -> usize {
    match set {
        Some(n) => n,
        None => 10,
    }
}

/// A step whose failure is reported as it is.
pub open spec fn simply(step: plan::StepModel) -> plan::PlannedModel {
    plan::PlannedModel { step, on_failure: plan::OnFailureModel::Report }
}

proof fn report_keys_are_apart()
    ensures
        "created"@ != "schema_path"@ && "created"@ != "scope"@ && "schema_path"@ != "scope"@,
        "updated"@ != "schema_path"@ && "updated"@ != "scope"@,
        "updated"@ != "fields_added"@ && "updated"@ != "fields_removed"@ && "updated"@
            != "fields_type_changed"@,
        "schema_path"@ != "fields_added"@ && "schema_path"@ != "fields_removed"@ && "schema_path"@
            != "fields_type_changed"@,
        "scope"@ != "fields_added"@ && "scope"@ != "fields_removed"@ && "scope"@
            != "fields_type_changed"@,
        "fields_added"@ != "fields_removed"@ && "fields_added"@ != "fields_type_changed"@
            && "fields_removed"@ != "fields_type_changed"@,
        "rows_unchanged"@ != "fields_added"@ && "rows_unchanged"@ != "fields_removed"@
            && "rows_unchanged"@ != "fields_type_changed"@,
        "deleted"@ != "schema_path_removed"@ && "deleted"@ != "db_file_retained"@ && "deleted"@
            != "scope"@,
        "schema_path_removed"@ != "db_file_retained"@ && "schema_path_removed"@ != "scope"@
            && "db_file_retained"@ != "scope"@,
        "rows_orphaned"@ != "would_remove_yaml"@ && "rows_orphaned"@ != "db_file_retained"@
            && "would_remove_yaml"@ != "db_file_retained"@,
        "would_create"@ != "already_exists"@,
{
    reveal_strlit("created");
    reveal_strlit("updated");
    reveal_strlit("deleted");
    reveal_strlit("schema_path");
    reveal_strlit("scope");
    reveal_strlit("fields_added");
    reveal_strlit("fields_removed");
    reveal_strlit("fields_type_changed");
    reveal_strlit("rows_unchanged");
    reveal_strlit("schema_path_removed");
    reveal_strlit("db_file_retained");
    reveal_strlit("rows_orphaned");
    reveal_strlit("would_remove_yaml");
    reveal_strlit("would_create");
    reveal_strlit("already_exists");
    assert("created"@.len() == 7 && "updated"@.len() == 7 && "deleted"@.len() == 7);
    assert("schema_path"@.len() == 11 && "scope"@.len() == 5 && "fields_added"@.len() == 12);
    assert("fields_removed"@.len() == 14 && "fields_removed"@[0] == 'f');
    assert("rows_unchanged"@.len() == 14 && "rows_unchanged"@[0] == 'r');
    assert("fields_type_changed"@.len() == 19 && "schema_path_removed"@.len() == 19);
    assert("db_file_retained"@.len() == 16 && "rows_orphaned"@.len() == 13);
    assert("would_remove_yaml"@.len() == 17 && "would_create"@.len() == 12);
    assert("already_exists"@.len() == 14);
}

/// What `schema_create` does: it makes the directory of the table, writes there the
/// schema that was given, opens the database of the table with it, and reads the
/// tables anew; and it says what was created, and where.
pub proof fn creating_writes_what_is_given(
    config: ConfigModel,
    given: GivenModel,
    root: Seq<path::PartModel>,
)
    requires
        plain_name(given.table),
        scope_root(config, given.scope, root),
        !given.dry_run,
        forall|i: int|
            0 <= i < given.fields.len() ==> names_a_type((#[trigger] given.fields[i]).ty),
    ensures
        create_plan(config, given, false) is Ok,
        ({
            let p = create_plan(config, given, false)->Ok_0;
            &&& exists|s: SchemaModel| #[trigger]
                schema_as_given(s, given) && p.steps == seq![
                    simply(
                        plan::StepModel::CreateDir {
                            path: root.push(path::PartModel::Name(given.table)),
                        },
                    ),
                    simply(
                        plan::StepModel::WriteSchema { path: yaml_in(root, given.table), schema: s },
                    ),
                    simply(
                        plan::StepModel::OpenStore { db_path: db_in(root, given.table), schema: s },
                    ),
                    simply(plan::StepModel::RebuildRegistry),
                ]
            &&& p.outcome matches Ok(plan::ReportModel::Json(report)) && json::says(
                report,
                "created"@,
                JsonModel::Text(given.table),
            ) && json::says(
                report,
                "schema_path"@,
                JsonModel::Text(path::written(yaml_in(root, given.table))),
            ) && json::says(report, "scope"@, JsonModel::Text(given.scope))
        }),
{
    scopes_resolve_to_their_directories(config, given.scope, given.table, root);
    fields_are_read_as_given(given.fields);
    report_keys_are_apart();
    let p = create_plan(config, given, false)->Ok_0;
    let s = plain_schema(
        given.table,
        given.title,
        given.description,
        fields_given(given.fields)->Ok_0,
    );
    assert(schema_as_given(s, given));
    assert(p.steps =~= seq![
        simply(plan::StepModel::CreateDir { path: root.push(path::PartModel::Name(given.table)) }),
        simply(plan::StepModel::WriteSchema { path: yaml_in(root, given.table), schema: s }),
        simply(plan::StepModel::OpenStore { db_path: db_in(root, given.table), schema: s }),
        simply(plan::StepModel::RebuildRegistry),
    ]);
}

/// What `schema_update` does: it backs the table up, writes the schema that was
/// given, whatever the old one was, deletes old backups, and reads the tables anew.
/// It writes no other schema, and to no other place.
pub proof fn updating_writes_what_is_given(
    config: ConfigModel,
    given: GivenModel,
    root: Seq<path::PartModel>,
    old: SchemaModel,
    rows: Result<u64, ErrorModel>,
)
    requires
        plain_name(given.table),
        scope_root(config, given.scope, root),
        !given.dry_run,
        forall|i: int|
            0 <= i < given.fields.len() ==> names_a_type((#[trigger] given.fields[i]).ty),
    ensures
        update_plan(config, given, true, Some(old), rows) is Ok,
        ({
            let p = update_plan(config, given, true, Some(old), rows)->Ok_0;
            &&& exists|s: SchemaModel|
                {
                    &&& #[trigger] schema_as_given(s, given)
                    &&& p.steps == seq![
                        simply(
                            plan::StepModel::Backup {
                                scope_root: root,
                                table: given.table,
                                yaml_path: yaml_in(root, given.table),
                                db_path: db_in(root, given.table),
                            },
                        ),
                        simply(
                            plan::StepModel::WriteSchema {
                                path: yaml_in(root, given.table),
                                schema: s,
                            },
                        ),
                        simply(
                            plan::StepModel::PurgeBackups {
                                scope_root: root,
                                table: given.table,
                                retention: set_or_ten(config.backup_retention),
                            },
                        ),
                        simply(plan::StepModel::RebuildRegistry),
                    ]
                }
            &&& p.outcome matches Ok(plan::ReportModel::Json(report)) && json::says(
                report,
                "updated"@,
                JsonModel::Text(given.table),
            ) && json::says(
                report,
                "schema_path"@,
                JsonModel::Text(path::written(yaml_in(root, given.table))),
            ) && json::says(report, "scope"@, JsonModel::Text(given.scope))
        }),
        forall|other: SchemaModel|
            #![trigger update_plan(config, given, true, Some(other), rows)]
            update_plan(config, given, true, Some(other), rows) is Ok && update_plan(
                config,
                given,
                true,
                Some(other),
                rows,
            )->Ok_0.steps == update_plan(config, given, true, Some(old), rows)->Ok_0.steps,
{
    scopes_resolve_to_their_directories(config, given.scope, given.table, root);
    fields_are_read_as_given(given.fields);
    report_keys_are_apart();
    let p = update_plan(config, given, true, Some(old), rows)->Ok_0;
    let kept = set_or_ten(config.backup_retention);
    let s = plain_schema(
        given.table,
        given.title,
        given.description,
        fields_given(given.fields)->Ok_0,
    );
    assert(schema_as_given(s, given));
    assert(p.steps =~= seq![
        simply(
            plan::StepModel::Backup {
                scope_root: root,
                table: given.table,
                yaml_path: yaml_in(root, given.table),
                db_path: db_in(root, given.table),
            },
        ),
        simply(plan::StepModel::WriteSchema { path: yaml_in(root, given.table), schema: s }),
        simply(
            plan::StepModel::PurgeBackups { scope_root: root, table: given.table, retention: kept },
        ),
        simply(plan::StepModel::RebuildRegistry),
    ]);
}

/// What `schema_delete` does: it backs the table up, removes its schema file, and
/// nothing else of it, deletes old backups, and reads the tables anew. The report
/// says what was removed, and that the database stays.
pub proof fn deleting_removes_the_schema_file(
    config: ConfigModel,
    table: Seq<char>,
    scope: Seq<char>,
    root: Seq<path::PartModel>,
    rows: Result<u64, ErrorModel>,
)
    requires
        plain_name(table),
        scope_root(config, scope, root),
    ensures
        delete_plan(config, table, scope, false, true, rows) is Ok,
        ({
            let p = delete_plan(config, table, scope, false, true, rows)->Ok_0;
            &&& p.steps == seq![
                simply(
                    plan::StepModel::Backup {
                        scope_root: root,
                        table,
                        yaml_path: yaml_in(root, table),
                        db_path: db_in(root, table),
                    },
                ),
                simply(plan::StepModel::RemoveSchema { path: yaml_in(root, table) }),
                simply(
                    plan::StepModel::PurgeBackups {
                        scope_root: root,
                        table,
                        retention: set_or_ten(config.backup_retention),
                    },
                ),
                simply(plan::StepModel::RebuildRegistry),
            ]
            &&& p.outcome matches Ok(plan::ReportModel::Json(report)) && json::says(
                report,
                "deleted"@,
                JsonModel::Text(table),
            ) && json::says(
                report,
                "schema_path_removed"@,
                JsonModel::Text(path::written(yaml_in(root, table))),
            ) && json::says(
                report,
                "db_file_retained"@,
                JsonModel::Text(path::written(db_in(root, table))),
            ) && json::says(report, "scope"@, JsonModel::Text(scope))
        }),
{
    scopes_resolve_to_their_directories(config, scope, table, root);
    report_keys_are_apart();
    let p = delete_plan(config, table, scope, false, true, rows)->Ok_0;
    let kept = set_or_ten(config.backup_retention);
    assert(p.steps =~= seq![
        simply(
            plan::StepModel::Backup {
                scope_root: root,
                table,
                yaml_path: yaml_in(root, table),
                db_path: db_in(root, table),
            },
        ),
        simply(plan::StepModel::RemoveSchema { path: yaml_in(root, table) }),
        simply(plan::StepModel::PurgeBackups { scope_root: root, table, retention: kept }),
        simply(plan::StepModel::RebuildRegistry),
    ]);
}

/// The three tools refuse what they cannot do, and for the first of these reasons:
/// the name or the scope does not resolve; the schema to be created exists already,
/// or the table to be changed is not there; a field names no type; the rows cannot
/// be counted, which a dry run needs.
pub proof fn tools_refuse_what_they_cannot_do(
    config: ConfigModel,
    given: GivenModel,
    exists_already: bool,
    mounted: bool,
    old: Option<SchemaModel>,
    rows: Result<u64, ErrorModel>,
)
    ensures
        ({
            let created = create_plan(config, given, exists_already);
            let updated = update_plan(config, given, mounted, old, rows);
            let deleted = delete_plan(
                config,
                given.table,
                given.scope,
                given.dry_run,
                mounted,
                rows,
            );
            match scope_paths(given.scope, given.table, config) {
                Err(e) => created == Err::<plan::PlanModel, ErrorModel>(e) && updated == Err::<
                    plan::PlanModel,
                    ErrorModel,
                >(e) && deleted == Err::<plan::PlanModel, ErrorModel>(e),
                Ok(_) => {
                    &&& exists_already && !given.dry_run ==> created == Err::<
                        plan::PlanModel,
                        ErrorModel,
                    >(ErrorModel::SchemaExists { table: given.table })
                    &&& !mounted || old is None ==> updated == Err::<plan::PlanModel, ErrorModel>(
                        ErrorModel::TableNotFound { table: given.table },
                    )
                    &&& !mounted ==> deleted == Err::<plan::PlanModel, ErrorModel>(
                        ErrorModel::TableNotFound { table: given.table },
                    )
                    &&& fields_given(given.fields) matches Err(e) ==> {
                        &&& !exists_already && !given.dry_run ==> created == Err::<
                            plan::PlanModel,
                            ErrorModel,
                        >(e)
                        &&& mounted && old is Some ==> updated == Err::<
                            plan::PlanModel,
                            ErrorModel,
                        >(e)
                    }
                    &&& given.dry_run ==> created is Ok
                    &&& given.dry_run && mounted && rows is Err ==> deleted == Err::<
                        plan::PlanModel,
                        ErrorModel,
                    >(rows->Err_0)
                    &&& given.dry_run && mounted && rows is Ok ==> deleted is Ok
                    &&& given.dry_run && mounted && old is Some && fields_given(given.fields) is Ok
                        ==> (rows matches Err(e) ==> updated == Err::<plan::PlanModel, ErrorModel>(
                        e,
                    )) && (rows is Ok ==> updated is Ok)
                },
            }
        }),
{
}

/// A dry run of `schema_create` says which file would be created, and whether it is
/// there already; one of `schema_delete` says how many rows would be left, which
/// file would go, and which stay.
pub proof fn dry_runs_say_what_would_be(
    config: ConfigModel,
    given: GivenModel,
    root: Seq<path::PartModel>,
    exists_already: bool,
    rows: u64,
)
    requires
        plain_name(given.table),
        scope_root(config, given.scope, root),
        given.dry_run,
    ensures
        ({
            &&& create_plan(config, given, exists_already) matches Ok(p)
            &&& p.steps.len() == 0
            &&& p.outcome matches Ok(plan::ReportModel::Json(report))
            &&& json::says(report, "dry_run"@, JsonModel::Bool(true))
            &&& exists|a: JsonModel| #[trigger]
                json::says(report, "affects"@, a) && json::says(
                    a,
                    "would_create"@,
                    JsonModel::Text(path::written(yaml_in(root, given.table))),
                ) && json::says(a, "already_exists"@, JsonModel::Bool(exists_already))
        }),
        ({
            &&& delete_plan(config, given.table, given.scope, true, true, Ok(rows)) matches Ok(p)
            &&& p.steps.len() == 0
            &&& p.outcome matches Ok(plan::ReportModel::Json(report))
            &&& json::says(report, "dry_run"@, JsonModel::Bool(true))
            &&& exists|a: JsonModel| #[trigger]
                json::says(report, "affects"@, a) && json::says(
                    a,
                    "rows_orphaned"@,
                    JsonModel::Number(NumberModel::Integer(rows as int)),
                ) && json::says(
                    a,
                    "would_remove_yaml"@,
                    JsonModel::Text(path::written(yaml_in(root, given.table))),
                ) && json::says(
                    a,
                    "db_file_retained"@,
                    JsonModel::Text(path::written(db_in(root, given.table))),
                )
        }),
{
    scopes_resolve_to_their_directories(config, given.scope, given.table, root);
    report_keys_are_apart();
    let yaml = yaml_in(root, given.table);
    let a = no_members().insert("would_create"@, path_json(yaml)).insert(
        "already_exists"@,
        JsonModel::Bool(exists_already),
    );
    dry_runs_say_so(a);
    assert(json::says(dry_run_report(a), "affects"@, JsonModel::Object(a)));
    let b = no_members().insert("rows_orphaned"@, count_json(rows as int)).insert(
        "would_remove_yaml"@,
        path_json(yaml),
    ).insert("db_file_retained"@, path_json(registry::database_file(root, given.table)));
    dry_runs_say_so(b);
    assert(json::says(dry_run_report(b), "affects"@, JsonModel::Object(b)));
}

/// Whether a field of that name is among the fields.
pub open spec fn has_field(fields: Seq<FieldModel>, name: Seq<char>) -> bool {
    exists|i: int| 0 <= i < fields.len() && (#[trigger] fields[i]).name == name
}

/// Whether the last field of that name has that type.
pub open spec fn last_typed(fields: Seq<FieldModel>, name: Seq<char>, ty: FieldType) -> bool {
    exists|i: int|
        #![trigger fields[i]]
        0 <= i < fields.len() && fields[i].name == name && fields[i].ty == ty && forall|j: int|
            i < j < fields.len() ==> (#[trigger] fields[j]).name != name
}

proof fn declared_types_are_the_last(fields: Seq<FieldModel>, name: Seq<char>)
    ensures
        declared(fields).contains_key(name) <==> has_field(fields, name),
        forall|ty: FieldType| #[trigger]
            last_typed(fields, name, ty) <==> declared(fields).contains_key(name) && declared(
                fields,
            )[name] == ty,
    decreases fields.len(),
{
    let all = fields.map_values(|f: FieldModel| (f.name, f.ty));
    pairs::pairs_map_keys(all, name);
    if declared(fields).contains_key(name) {
        let i = choose|i: int| 0 <= i < all.len() && (#[trigger] all[i]).0 == name;
        assert(fields[i].name == name);
    }
    if has_field(fields, name) {
        let i = choose|i: int| 0 <= i < fields.len() && (#[trigger] fields[i]).name == name;
        assert(all[i].0 == name);
    }
    assert forall|ty: FieldType| #[trigger] last_typed(fields, name, ty) implies declared(
        fields,
    ).contains_key(name) && declared(fields)[name] == ty by {
        let i = choose|i: int|
            #![trigger fields[i]]
            0 <= i < fields.len() && fields[i].name == name && fields[i].ty == ty && forall|j: int|
                i < j < fields.len() ==> (#[trigger] fields[j]).name != name;
        assert forall|j: int| i < j < all.len() implies (#[trigger] all[j]).0 != all[i].0 by {
            assert(fields[j].name != name);
        }
        assert(all[i] == (fields[i].name, fields[i].ty));
        pairs::pairs_map_last(all, i);
    }
    if has_field(fields, name) {
        let ty = declared(fields)[name];
        let k = last_of_name(fields, name);
        assert(last_typed(fields, name, fields[k].ty));
        assert(fields[k].ty == ty);
    }
}

proof fn last_of_name(fields: Seq<FieldModel>, name: Seq<char>) -> (k: int)
    requires
        has_field(fields, name),
    ensures
        0 <= k < fields.len(),
        fields[k].name == name,
        forall|j: int| k < j < fields.len() ==> (#[trigger] fields[j]).name != name,
    decreases fields.len(),
{
    let n = fields.len() - 1;
    if fields[n].name == name {
        n
    } else {
        let front = fields.drop_last();
        let i = choose|i: int| 0 <= i < fields.len() && (#[trigger] fields[i]).name == name;
        assert(front[i].name == name);
        let k = last_of_name(front, name);
        assert forall|j: int| k < j < fields.len() implies (#[trigger] fields[j]).name != name by {
            if j < n {
                assert(front[j] == fields[j]);
            }
        }
        k
    }
}

/// Whether a report lists these names as those of fields that are added, removed,
/// and of another type.
pub open spec fn tells_changes(
    report: JsonModel,
    added: Seq<Seq<char>>,
    removed: Seq<Seq<char>>,
    retyped: Seq<Seq<char>>,
) -> bool {
    &&& exists|l: JsonModel| #[trigger]
        json::says(report, "fields_added"@, l) && json::lists(l, added)
    &&& exists|l: JsonModel| #[trigger]
        json::says(report, "fields_removed"@, l) && json::lists(l, removed)
    &&& exists|l: JsonModel| #[trigger]
        json::says(report, "fields_type_changed"@, l) && json::lists(l, retyped)
}

/// Fields that are as given are what is read of them.
pub proof fn given_fields_are_read(fields: Seq<FieldModel>, inputs: Seq<InputModel>)
    requires
        fields_as_given(fields, inputs),
    ensures
        fields_given(inputs) == Ok::<Seq<FieldModel>, ErrorModel>(fields),
{
    type_names_differ();
    fields_are_read_as_given(inputs);
    assert forall|i: int| 0 <= i < inputs.len() implies names_a_type((#[trigger] inputs[i]).ty) by {
        assert(field_as_given(fields[i], inputs[i]));
    }
    fields_are_given_once(fields_given(inputs)->Ok_0, fields, inputs);
}

/// The fields that are added are those that only the new schema has, and those that
/// are removed those that only the old one has.
pub proof fn changed_fields_are_listed(
    old: Seq<FieldModel>,
    new: Seq<FieldModel>,
    added: Seq<Seq<char>>,
    removed: Seq<Seq<char>>,
)
    requires
        text::ascending(added) && text::ascending(removed),
        forall|n: Seq<char>| #[trigger]
            added.contains(n) <==> has_field(new, n) && !has_field(old, n),
        forall|n: Seq<char>| #[trigger]
            removed.contains(n) <==> has_field(old, n) && !has_field(new, n),
    ensures
        fields_added(old, new) == added,
        fields_removed(old, new) == removed,
{
    assert forall|n: Seq<char>| #[trigger] added.contains(n) <==> declared(new).contains_key(n)
        && !declared(old).contains_key(n) by {
        declared_types_are_the_last(new, n);
        declared_types_are_the_last(old, n);
    }
    assert forall|n: Seq<char>| #[trigger] removed.contains(n) <==> declared(old).contains_key(n)
        && !declared(new).contains_key(n) by {
        declared_types_are_the_last(new, n);
        declared_types_are_the_last(old, n);
    }
    field_lists_are_determined(old, new, added);
    field_lists_are_determined(old, new, removed);
}

/// What `schema_update` says of the fields, in a dry run as in a run: which of those
/// given the old schema does not have, which of the old ones are not given, and
/// which are in both with another type; each list in ascending order. A dry run also
/// says how many rows stay as they are.
pub proof fn updates_say_how_fields_change(
    config: ConfigModel,
    given: GivenModel,
    old: SchemaModel,
    rows: u64,
    fields: Seq<FieldModel>,
    added: Seq<Seq<char>>,
    removed: Seq<Seq<char>>,
    retyped: Seq<Seq<char>>,
)
    requires
        scope_paths(given.scope, given.table, config) is Ok,
        fields_as_given(fields, given.fields),
        text::ascending(added) && text::ascending(removed) && text::ascending(retyped),
        forall|n: Seq<char>| #[trigger]
            added.contains(n) <==> has_field(fields, n) && !has_field(old.fields, n),
        forall|n: Seq<char>| #[trigger]
            removed.contains(n) <==> has_field(old.fields, n) && !has_field(fields, n),
        forall|n: Seq<char>| #[trigger]
            retyped.contains(n) <==> exists|a: FieldType, b: FieldType|
                a != b && #[trigger] last_typed(old.fields, n, a) && #[trigger] last_typed(
                    fields,
                    n,
                    b,
                ),
    ensures
        ({
            &&& update_plan(config, given, true, Some(old), Ok(rows)) matches Ok(p)
            &&& p.outcome matches Ok(plan::ReportModel::Json(report))
            &&& !given.dry_run ==> tells_changes(report, added, removed, retyped)
            &&& given.dry_run ==> json::says(report, "dry_run"@, JsonModel::Bool(true))
                && exists|a: JsonModel| #[trigger]
                json::says(report, "affects"@, a) && tells_changes(a, added, removed, retyped)
                    && json::says(
                    a,
                    "rows_unchanged"@,
                    JsonModel::Number(NumberModel::Integer(rows as int)),
                )
        }),
{
    report_keys_are_apart();
    type_names_differ();
    fields_are_read_as_given(given.fields);
    assert forall|i: int| 0 <= i < given.fields.len() implies names_a_type(
        (#[trigger] given.fields[i]).ty,
    ) by {
        assert(field_as_given(fields[i], given.fields[i]));
    }
    let new = fields_given(given.fields)->Ok_0;
    fields_are_given_once(new, fields, given.fields);
    assert forall|n: Seq<char>| #[trigger] added.contains(n) <==> declared(new).contains_key(n)
        && !declared(old.fields).contains_key(n) by {
        declared_types_are_the_last(new, n);
        declared_types_are_the_last(old.fields, n);
    }
    assert forall|n: Seq<char>| #[trigger] removed.contains(n) <==> declared(
        old.fields,
    ).contains_key(n) && !declared(new).contains_key(n) by {
        declared_types_are_the_last(new, n);
        declared_types_are_the_last(old.fields, n);
    }
    assert forall|n: Seq<char>| #[trigger] retyped.contains(n) <==> declared(
        old.fields,
    ).contains_key(n) && declared(new).contains_key(n) && declared(old.fields)[n] != declared(
        new,
    )[n] by {
        declared_types_are_the_last(new, n);
        declared_types_are_the_last(old.fields, n);
        if declared(old.fields).contains_key(n) && declared(new).contains_key(n) {
            assert(last_typed(old.fields, n, declared(old.fields)[n]));
            assert(last_typed(new, n, declared(new)[n]));
        }
    }
    field_lists_are_determined(old.fields, new, added);
    field_lists_are_determined(old.fields, new, removed);
    field_lists_are_determined(old.fields, new, retyped);
    let p = update_plan(config, given, true, Some(old), Ok(rows))->Ok_0;
    let report = p.outcome->Ok_0->Json_0;
    let inner = with_diff(no_members(), old.fields, new).insert(
        "rows_unchanged"@,
        count_json(rows as int),
    );
    dry_runs_say_so(inner);
    let a = if given.dry_run {
        JsonModel::Object(inner)
    } else {
        report
    };
    assert(given.dry_run ==> json::says(report, "affects"@, a));
    assert(json::says(a, "fields_added"@, error::text_list(added)));
    assert(json::says(a, "fields_removed"@, error::text_list(removed)));
    assert(json::says(a, "fields_type_changed"@, error::text_list(retyped)));
    assert(json::lists(error::text_list(added), added));
    assert(json::lists(error::text_list(removed), removed));
    assert(json::lists(error::text_list(retyped), retyped));
    assert(tells_changes(a, added, removed, retyped));
}

/// Parameters say what they hold.
pub proof fn parameters_say_what_they_hold(
    c: SchemaCreateParams,
    u: SchemaUpdateParams,
    f: FieldDefInput,
)
    ensures
        c@.table == c.table@ && c@.scope == c.scope@ && c@.dry_run == c.dry_run,
        c.title matches Some(t) ==> c@.title == Some(t@),
        c.title is None ==> c@.title is None,
        c.description matches Some(t) ==> c@.description == Some(t@),
        c.description is None ==> c@.description is None,
        c@.fields.len() == c.fields@.len(),
        forall|i: int| 0 <= i < c.fields@.len() ==> #[trigger] c@.fields[i] == c.fields@[i]@,
        u@.table == u.table@ && u@.scope == u.scope@ && u@.dry_run == u.dry_run,
        u.title matches Some(t) ==> u@.title == Some(t@),
        u.title is None ==> u@.title is None,
        u.description matches Some(t) ==> u@.description == Some(t@),
        u.description is None ==> u@.description is None,
        u@.fields.len() == u.fields@.len(),
        forall|i: int| 0 <= i < u.fields@.len() ==> #[trigger] u@.fields[i] == u.fields@[i]@,
        f@.name == f.name@ && f@.ty == f.ty@ && f@.required == f.required,
        f.description matches Some(t) ==> f@.description == Some(t@),
        f.description is None ==> f@.description is None,
{
}

/// Outcomes are what was returned.
pub proof fn readings_are_what_was_returned(
    paths: (FilePath, FilePath),
    ty: FieldType,
    fields: Vec<FieldDef>,
    s: SchemaConfig,
    n: u64,
    p: Plan,
    e: MiniAppError,
    i: int,
)
    ensures
        paths_outcome(Ok(paths)) == Ok::<(Seq<path::PartModel>, Seq<path::PartModel>), ErrorModel>(
            (paths.0@, paths.1@),
        ),
        paths_outcome(Err(e)) == Err::<(Seq<path::PartModel>, Seq<path::PartModel>), ErrorModel>(
            e@,
        ),
        type_outcome(Ok(ty)) == Ok::<FieldType, ErrorModel>(ty),
        type_outcome(Err(e)) == Err::<FieldType, ErrorModel>(e@),
        fields_outcome(Ok(fields)) matches Ok(fs) && fs.len() == fields@.len() && (0 <= i
            < fields@.len() ==> fs[i] == fields@[i]@),
        fields_outcome(Err(e)) == Err::<Seq<FieldModel>, ErrorModel>(e@),
        schema_option(Some(s)) == Some(s@) && schema_option(None) is None,
        rows_counted(Ok(n)) == Ok::<u64, ErrorModel>(n),
        rows_counted(Err(e)) == Err::<u64, ErrorModel>(e@),
        plan::plan_outcome(Ok(p)) == Ok::<plan::PlanModel, ErrorModel>(p@),
        plan::plan_outcome(Err(e)) == Err::<plan::PlanModel, ErrorModel>(e@),
{
}

/// A type is read from its name, and from nothing else.
pub proof fn types_are_read_from_their_names(name: Seq<char>, field: Seq<char>)
    ensures
        type_called(name, field) matches Ok(ty) ==> type_named(name, ty),
        type_called(name, field) is Ok <==> names_a_type(name),
        !names_a_type(name) ==> type_called(name, field) == Err::<FieldType, ErrorModel>(
            ErrorModel::Validation {
                field: "fields["@ + field + "].type"@,
                reason: "unknown type '"@ + name
                    + "'; must be one of: string, number, boolean, array, object"@,
            },
        ),
{
    type_names_differ();
}

} // verus!
