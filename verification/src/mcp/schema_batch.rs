//! The `schema_batch` tool: several ops on one table, all or none.

use vstd::prelude::*;
use vstd::string::*;

use crate::config::{Config, ConfigModel};
use crate::error;
use crate::error::ErrorModel;
use crate::error::MiniAppError;
use crate::json;
use crate::json::JsonModel;
use crate::json::{JsonNumber, JsonObject, JsonValue};
use crate::mcp::plan;
use crate::mcp::plan::{BatchResult, OnFailure, Plan, PlannedStep, Report, Step};
use crate::mcp::registry;
use crate::mcp::schema_tools;
use crate::mcp::schema_tools::FieldDefInput;
use crate::path;
use crate::path::FilePath;
use crate::schema;
use crate::schema::SchemaModel;
use crate::schema::{FieldDef, SchemaConfig};
use crate::text;

verus! {

broadcast use vstd::map::group_map_axioms;

/// One op of a batch.
#[derive(Debug, PartialEq, Eq)]
pub enum BatchOp {
    /// Run a statement.
    Query { sql: String, params: Option<Vec<JsonValue>>, table: String },
    /// Create a schema.
    SchemaCreate { table: String, scope: String, fields: Vec<FieldDefInput> },
    /// Replace a schema.
    SchemaUpdate { table: String, scope: String, fields: Vec<FieldDefInput> },
    /// Remove a schema; the database stays.
    SchemaDelete { table: String, scope: String },
}

/// What an op says.
pub enum OpModel {
    Query { sql: Seq<char>, params: Seq<JsonModel>, table: Seq<char> },
    SchemaCreate { table: Seq<char>, scope: Seq<char>, fields: Seq<schema_tools::InputModel> },
    SchemaUpdate { table: Seq<char>, scope: Seq<char>, fields: Seq<schema_tools::InputModel> },
    SchemaDelete { table: Seq<char>, scope: Seq<char> },
}

impl View for BatchOp {
    type V = OpModel;

    open spec fn view(&self) -> OpModel {
        match self {
            BatchOp::Query { sql, params, table } => OpModel::Query {
                sql: sql@,
                params: match params {
                    Some(p) => json::value_models(p@),
                    None => Seq::empty(),
                },
                table: table@,
            },
            BatchOp::SchemaCreate { table, scope, fields } => OpModel::SchemaCreate {
                table: table@,
                scope: scope@,
                fields: schema_tools::input_models(fields@),
            },
            BatchOp::SchemaUpdate { table, scope, fields } => OpModel::SchemaUpdate {
                table: table@,
                scope: scope@,
                fields: schema_tools::input_models(fields@),
            },
            BatchOp::SchemaDelete { table, scope } => OpModel::SchemaDelete {
                table: table@,
                scope: scope@,
            },
        }
    }
}

/// The ops as models.
pub open spec fn op_models(ops: Seq<BatchOp>) -> Seq<OpModel> {
    ops.map_values(|o: BatchOp| o@)
}

/// The table that an op is about.
pub open spec fn table_of(op: OpModel) -> Seq<char> {
    match op {
        OpModel::Query { sql, params, table } => table,
        OpModel::SchemaCreate { table, scope, fields } => table,
        OpModel::SchemaUpdate { table, scope, fields } => table,
        OpModel::SchemaDelete { table, scope } => table,
    }
}

impl BatchOp {
    /// The table that the op is about.
    pub fn table_name(&self) -> (r: &str)
        ensures
            r@ == table_of(self@),
    {
        match self {
            BatchOp::Query { table, .. } => table.as_str(),
            BatchOp::SchemaCreate { table, .. } => table.as_str(),
            BatchOp::SchemaUpdate { table, .. } => table.as_str(),
            BatchOp::SchemaDelete { table, .. } => table.as_str(),
        }
    }
}

/// Parameters of the `schema_batch` tool.
#[derive(Debug, PartialEq, Eq)]
pub struct SchemaBatchParams {
    /// The ops, all on one table.
    pub ops: Vec<BatchOp>,
    /// Report what would be done, and do nothing.
    pub dry_run: bool,
}

/// What was read for an op beforehand.
#[derive(Debug, PartialEq, Eq)]
pub struct OpFacts {
    /// Whether the schema file exists.
    pub exists: bool,
    /// The schema in the file, where it can be read.
    pub old: Option<SchemaConfig>,
    /// The number of rows of the table; 0 where they cannot be counted.
    pub rows: u64,
}

/// What was read for an op, as a model.
pub struct FactsModel {
    pub exists: bool,
    pub old: Option<SchemaModel>,
    pub rows: u64,
}

impl View for OpFacts {
    type V = FactsModel;

    open spec fn view(&self) -> FactsModel {
        FactsModel {
            exists: self.exists,
            old: schema_tools::schema_option(self.old),
            rows: self.rows,
        }
    }
}

/// What was read, as models.
pub open spec fn fact_models(facts: Seq<OpFacts>) -> Seq<FactsModel> {
    facts.map_values(|f: OpFacts| f@)
}

/// How a parameter of a statement is bound: a text as it is, anything else as its
/// JSON text.
pub open spec fn bound_text(value: JsonModel) -> Seq<char> {
    match value {
        JsonModel::Text(s) => s,
        _ => json::json_text(value),
    }
}

/// How parameters are bound, in order.
pub open spec fn bound_texts(values: Seq<JsonModel>) -> Seq<Seq<char>> {
    values.map_values(|v: JsonModel| bound_text(v))
}

/// The table and the scope of an op that replaces or removes a schema.
pub open spec fn changed_by(op: OpModel) -> Option<(Seq<char>, Seq<char>)> {
    match op {
        OpModel::SchemaUpdate { table, scope, fields } => Some((table, scope)),
        OpModel::SchemaDelete { table, scope } => Some((table, scope)),
        _ => None,
    }
}

/// Steps, and the error that ends them, if one does.
pub type Phase = (Seq<plan::PlannedModel>, Option<ErrorModel>);

/// The op of number `i` fails for this reason.
pub open spec fn aborted(i: int, reason: Seq<char>) -> ErrorModel {
    ErrorModel::BatchAborted { op_index: i, reason }
}

/// A step of the op of number `i`.
pub open spec fn of_op(step: plan::StepModel, i: int, prefix: Seq<char>) -> plan::PlannedModel {
    plan::PlannedModel {
        step,
        on_failure: plan::OnFailureModel::Abort { op_index: i, prefix },
    }
}

/// First, a backup for every op that replaces or removes a schema.
pub open spec fn backup_phase(config: ConfigModel, ops: Seq<OpModel>) -> Phase
    decreases ops.len(),
{
    if ops.len() == 0 {
        (Seq::empty(), None)
    } else {
        let (steps, failure) = backup_phase(config, ops.drop_last());
        match (failure, changed_by(ops.last())) {
            (None, Some((table, scope))) => match schema_tools::scope_paths(scope, table, config) {
                Err(e) => (steps, Some(aborted(ops.len() - 1, error::message_of(e)))),
                Ok((root, yaml)) => (
                    steps.push(
                        of_op(
                            plan::StepModel::Backup {
                                scope_root: root,
                                table,
                                yaml_path: yaml,
                                db_path: registry::database_file(root, table),
                            },
                            ops.len() - 1,
                            "backup failed: "@,
                        ),
                    ),
                    None,
                ),
            },
            _ => (steps, failure),
        }
    }
}

/// What an op does before anything is made final: a statement runs, the
/// directory of a new table is made; and everything that can be wrong with the op
/// shows.
pub open spec fn op_phase(config: ConfigModel, op: OpModel, i: int, exists: bool) -> Phase {
    match op {
        OpModel::Query { sql, params, table } => (
            seq![
                of_op(
                    plan::StepModel::RunSql { sql, params: bound_texts(params) },
                    i,
                    Seq::empty(),
                ),
            ],
            None,
        ),
        OpModel::SchemaCreate { table, scope, fields } => match schema_tools::scope_paths(
            scope,
            table,
            config,
        ) {
            Err(e) => (Seq::empty(), Some(aborted(i, error::message_of(e)))),
            Ok((root, yaml)) => if exists {
                (
                    Seq::empty(),
                    Some(aborted(i, error::message_of(ErrorModel::SchemaExists { table }))),
                )
            } else {
                match schema_tools::fields_given(fields) {
                    Err(e) => (Seq::empty(), Some(aborted(i, error::message_of(e)))),
                    Ok(_) => (
                        seq![
                            of_op(
                                plan::StepModel::CreateDir { path: path::under(root, table) },
                                i,
                                "create_dir_all failed: "@,
                            ),
                        ],
                        None,
                    ),
                }
            },
        },
        OpModel::SchemaUpdate { table, scope, fields } => match schema_tools::scope_paths(
            scope,
            table,
            config,
        ) {
            Err(e) => (Seq::empty(), Some(aborted(i, error::message_of(e)))),
            Ok(_) => match schema_tools::fields_given(fields) {
                Err(e) => (Seq::empty(), Some(aborted(i, error::message_of(e)))),
                Ok(_) => (Seq::empty(), None),
            },
        },
        OpModel::SchemaDelete { table, scope } => match schema_tools::scope_paths(
            scope,
            table,
            config,
        ) {
            Err(e) => (Seq::empty(), Some(aborted(i, error::message_of(e)))),
            Ok(_) => (Seq::empty(), None),
        },
    }
}

/// Then the ops, in order, up to the first that fails.
pub open spec fn body_phase(
    config: ConfigModel,
    ops: Seq<OpModel>,
    facts: Seq<FactsModel>,
) -> Phase
    decreases ops.len(),
{
    if ops.len() == 0 {
        (Seq::empty(), None)
    } else {
        let (steps, failure) = body_phase(config, ops.drop_last(), facts);
        match failure {
            Some(e) => (steps, Some(e)),
            None => {
                let i = ops.len() - 1;
                let (more, failure) = op_phase(config, ops.last(), i, facts[i].exists);
                (steps + more, failure)
            },
        }
    }
}

/// The schema file of a table in a scope.
pub open spec fn yaml_of(config: ConfigModel, scope: Seq<char>, table: Seq<char>) -> Seq<
    path::PartModel,
> {
    schema_tools::scope_paths(scope, table, config)->Ok_0.1
}

/// The schema that an op gives a table.
pub open spec fn schema_given(
    table: Seq<char>,
    fields: Seq<schema_tools::InputModel>,
) -> SchemaModel {
    schema_tools::plain_schema(table, None, None, schema_tools::fields_given(fields)->Ok_0)
}

/// The change of a schema file that an op comes to.
pub open spec fn file_change(config: ConfigModel, op: OpModel) -> Option<plan::PlannedModel> {
    match op {
        OpModel::Query { sql, params, table } => None,
        OpModel::SchemaCreate { table, scope, fields } => Some(
            write_deferred(yaml_of(config, scope, table), schema_given(table, fields)),
        ),
        OpModel::SchemaUpdate { table, scope, fields } => Some(
            write_deferred(yaml_of(config, scope, table), schema_given(table, fields)),
        ),
        OpModel::SchemaDelete { table, scope } => Some(
            plan::PlannedModel {
                step: plan::StepModel::RemoveSchema { path: yaml_of(config, scope, table) },
                on_failure: plan::OnFailureModel::ReportBackup {
                    prefix: "deferred YAML remove failed after SAVEPOINT commit: "@,
                },
            },
        ),
    }
}

/// A schema file that is written once the savepoint is committed.
pub open spec fn write_deferred(path: Seq<path::PartModel>, schema: SchemaModel) -> plan::PlannedModel {
    plan::PlannedModel {
        step: plan::StepModel::WriteSchema { path, schema },
        on_failure: plan::OnFailureModel::ReportBackup {
            prefix: "deferred YAML rename failed after SAVEPOINT commit: "@,
        },
    }
}

/// Then, with the savepoint committed, the changes of schema files, in order.
pub open spec fn file_phase(config: ConfigModel, ops: Seq<OpModel>) -> Seq<plan::PlannedModel>
    decreases ops.len(),
{
    if ops.len() == 0 {
        Seq::empty()
    } else {
        match file_change(config, ops.last()) {
            Some(step) => file_phase(config, ops.drop_last()).push(step),
            None => file_phase(config, ops.drop_last()),
        }
    }
}

/// Then old backups are deleted; where that fails, the batch goes on.
pub open spec fn purge_phase(config: ConfigModel, ops: Seq<OpModel>) -> Seq<plan::PlannedModel>
    decreases ops.len(),
{
    if ops.len() == 0 {
        Seq::empty()
    } else {
        let steps = purge_phase(config, ops.drop_last());
        match changed_by(ops.last()) {
            Some((table, scope)) => steps.push(
                plan::PlannedModel {
                    step: plan::StepModel::PurgeBackups {
                        scope_root: schema_tools::scope_paths(scope, table, config)->Ok_0.0,
                        table,
                        retention: schema_tools::backups_kept(config),
                    },
                    on_failure: plan::OnFailureModel::Continue,
                },
            ),
            None => steps,
        }
    }
}

/// Then the databases of new tables are opened.
pub open spec fn open_phase(config: ConfigModel, ops: Seq<OpModel>) -> Seq<plan::PlannedModel>
    decreases ops.len(),
{
    if ops.len() == 0 {
        Seq::empty()
    } else {
        let steps = open_phase(config, ops.drop_last());
        match ops.last() {
            OpModel::SchemaCreate { table, scope, fields } => steps.push(
                plan::reported(
                    plan::StepModel::OpenStore {
                        db_path: registry::database_file(
                            schema_tools::scope_paths(scope, table, config)->Ok_0.0,
                            table,
                        ),
                        schema: schema_given(table, fields),
                    },
                ),
            ),
            _ => steps,
        }
    }
}

/// Whether some op runs a statement.
pub open spec fn has_query(ops: Seq<OpModel>) -> bool {
    exists|i: int| 0 <= i < ops.len() && (#[trigger] ops[i]) is Query
}

/// The files that steps write or remove, in order.
pub open spec fn files_changed(steps: Seq<plan::PlannedModel>) -> Seq<Seq<path::PartModel>> {
    steps.map_values(
        |s: plan::PlannedModel|
            match s.step {
                plan::StepModel::WriteSchema { path, schema } => path,
                plan::StepModel::RemoveSchema { path } => path,
                _ => Seq::empty(),
            },
    )
}

/// The directories that backups are written to, in order.
pub open spec fn backup_dirs(steps: Seq<plan::PlannedModel>) -> Seq<Seq<path::PartModel>> {
    steps.map_values(
        |s: plan::PlannedModel|
            match s.step {
                plan::StepModel::Backup { scope_root, table, yaml_path, db_path } => path::under(
                    scope_root,
                    "_backup"@,
                ),
                _ => Seq::empty(),
            },
    )
}

/// The savepoint, where the batch runs statements.
pub open spec fn opening(query: bool, table: Seq<char>) -> Seq<plan::PlannedModel> {
    if query {
        seq![plan::reported(plan::StepModel::OpenSavepoint { table })]
    } else {
        Seq::empty()
    }
}

/// The end of the savepoint, where the batch runs statements.
pub open spec fn committing(query: bool) -> Seq<plan::PlannedModel> {
    if query {
        seq![plan::reported(plan::StepModel::CommitSavepoint)]
    } else {
        Seq::empty()
    }
}

/// The plan of a batch that is carried out, for ops on one table.
pub open spec fn carried_out(
    config: ConfigModel,
    ops: Seq<OpModel>,
    facts: Seq<FactsModel>,
    mounted: bool,
) -> plan::PlanModel {
    let table = table_of(ops[0]);
    let query = has_query(ops);
    let (backups, failure) = backup_phase(config, ops);
    match failure {
        Some(e) => plan::PlanModel { steps: backups, outcome: Err(e) },
        None => if query && !mounted {
            plan::PlanModel { steps: backups, outcome: Err(ErrorModel::TableNotFound { table }) }
        } else {
            let (body, failure) = body_phase(config, ops, facts);
            let begun = backups + opening(query, table) + body;
            match failure {
                Some(e) => plan::PlanModel { steps: begun, outcome: Err(e) },
                None => plan::PlanModel {
                    steps: begun + committing(query) + file_phase(config, ops) + purge_phase(
                        config,
                        ops,
                    ) + open_phase(config, ops) + seq![
                        plan::reported(plan::StepModel::RebuildRegistry),
                    ],
                    outcome: Ok(
                        plan::ReportModel::Batch(
                            plan::BatchModel {
                                committed: true,
                                ops_executed: ops.len() as int,
                                yaml_writes: files_changed(file_phase(config, ops)),
                                backups_written: backup_dirs(backups),
                                registry_rebuilt: true,
                            },
                        ),
                    ),
                },
            }
        },
    }
}

/// What an op would affect.
pub open spec fn affects_of(config: ConfigModel, op: OpModel, fact: FactsModel) -> Result<
    JsonModel,
    ErrorModel,
> {
    match op {
        OpModel::Query { sql, params, table } => Ok(
            JsonModel::Object(
                schema_tools::no_members().insert("op"@, JsonModel::Text("query"@)).insert(
                    "sql"@,
                    JsonModel::Text(sql),
                ).insert("rows_affected"@, JsonModel::Null).insert(
                    "note"@,
                    JsonModel::Text("dry_run: SQL not executed"@),
                ),
            ),
        ),
        OpModel::SchemaCreate { table, scope, fields } => match schema_tools::scope_paths(
            scope,
            table,
            config,
        ) {
            Err(e) => Err(e),
            Ok((root, yaml)) => Ok(
                JsonModel::Object(
                    schema_tools::no_members().insert(
                        "op"@,
                        JsonModel::Text("schema_create"@),
                    ).insert("table"@, JsonModel::Text(table)).insert(
                        "would_create"@,
                        schema_tools::path_json(yaml),
                    ).insert("already_exists"@, JsonModel::Bool(fact.exists)).insert(
                        "fields_count"@,
                        schema_tools::count_json(fields.len() as int),
                    ),
                ),
            ),
        },
        OpModel::SchemaUpdate { table, scope, fields } => match schema_tools::scope_paths(
            scope,
            table,
            config,
        ) {
            Err(e) => Err(e),
            Ok(_) => match schema_tools::fields_given(fields) {
                Err(e) => Err(e),
                Ok(new) => Ok(
                    JsonModel::Object(
                        schema_tools::no_members().insert(
                            "op"@,
                            JsonModel::Text("schema_update"@),
                        ).insert("table"@, JsonModel::Text(table)).insert(
                            "fields_added"@,
                            error::text_list(
                                match fact.old {
                                    Some(s) => schema_tools::fields_added(s.fields, new),
                                    None => Seq::empty(),
                                },
                            ),
                        ).insert(
                            "fields_removed"@,
                            error::text_list(
                                match fact.old {
                                    Some(s) => schema_tools::fields_removed(s.fields, new),
                                    None => Seq::empty(),
                                },
                            ),
                        ).insert(
                            "rows_unchanged"@,
                            schema_tools::count_json(fact.rows as int),
                        ),
                    ),
                ),
            },
        },
        OpModel::SchemaDelete { table, scope } => match schema_tools::scope_paths(
            scope,
            table,
            config,
        ) {
            Err(e) => Err(e),
            Ok((root, yaml)) => Ok(
                JsonModel::Object(
                    schema_tools::no_members().insert(
                        "op"@,
                        JsonModel::Text("schema_delete"@),
                    ).insert("table"@, JsonModel::Text(table)).insert(
                        "would_remove_yaml"@,
                        schema_tools::path_json(yaml),
                    ).insert("rows_orphaned"@, schema_tools::count_json(fact.rows as int)),
                ),
            ),
        },
    }
}

/// What all ops would affect, in order, or the failure of the first that fails.
pub open spec fn all_affects(
    config: ConfigModel,
    ops: Seq<OpModel>,
    facts: Seq<FactsModel>,
) -> Result<Seq<JsonModel>, ErrorModel>
    decreases ops.len(),
{
    if ops.len() == 0 {
        Ok(Seq::empty())
    } else {
        let i = ops.len() - 1;
        match all_affects(config, ops.drop_last(), facts) {
            Err(e) => Err(e),
            Ok(affects) => match affects_of(config, ops.last(), facts[i]) {
                Err(e) => Err(aborted(i, error::message_of(e))),
                Ok(v) => Ok(affects.push(v)),
            },
        }
    }
}

/// The plan of `schema_batch`.
pub open spec fn batch_plan(
    config: ConfigModel,
    ops: Seq<OpModel>,
    dry_run: bool,
    facts: Seq<FactsModel>,
    mounted: bool,
) -> Result<plan::PlanModel, ErrorModel> {
    if ops.len() == 0 {
        Ok(
            plan::PlanModel {
                steps: Seq::empty(),
                outcome: Ok(
                    plan::ReportModel::Batch(
                        plan::BatchModel {
                            committed: !dry_run,
                            ops_executed: 0,
                            yaml_writes: Seq::empty(),
                            backups_written: Seq::empty(),
                            registry_rebuilt: false,
                        },
                    ),
                ),
            },
        )
    } else if !one_table(ops) {
        Err(
            ErrorModel::Validation {
                field: "ops"@,
                reason: "all ops in a batch must target the same table"@,
            },
        )
    } else if dry_run {
        match all_affects(config, ops, facts) {
            Err(e) => Err(e),
            Ok(affects) => Ok(
                plan::PlanModel {
                    steps: Seq::empty(),
                    outcome: Ok(plan::ReportModel::Json(dry_run_outcome(affects, ops.len()))),
                },
            ),
        }
    } else {
        Ok(carried_out(config, ops, facts, mounted))
    }
}

/// All ops are about one table.
pub open spec fn one_table(ops: Seq<OpModel>) -> bool {
    forall|i: int| 0 <= i < ops.len() ==> table_of(#[trigger] ops[i]) == table_of(ops[0])
}

/// The report of a dry run.
pub open spec fn dry_run_outcome(affects: Seq<JsonModel>, ops: nat) -> JsonModel {
    JsonModel::Object(
        schema_tools::no_members().insert("committed"@, JsonModel::Bool(false)).insert(
            "dry_run"@,
            JsonModel::Bool(true),
        ).insert("ops_executed"@, schema_tools::count_json(ops as int)).insert(
            "affects"@,
            JsonModel::Array(affects),
        ).insert("yaml_writes"@, JsonModel::Array(Seq::empty())).insert(
            "backups_written"@,
            JsonModel::Array(Seq::empty()),
        ).insert("registry_rebuilt"@, JsonModel::Bool(false)),
    )
}

/// Steps and the error that ends them, as a model.
pub open spec fn phase_model(r: (Vec<PlannedStep>, Option<MiniAppError>)) -> Phase {
    (
        plan::step_models(r.0@),
        match r.1 {
            Some(e) => Some(e@),
            None => None,
        },
    )
}

proof fn backup_phase_fails_early(config: ConfigModel, ops: Seq<OpModel>, n: int)
    requires
        0 <= n <= ops.len(),
        backup_phase(config, ops.take(n)).1 is Some,
    ensures
        backup_phase(config, ops) == backup_phase(config, ops.take(n)),
    decreases ops.len() - n,
{
    if n < ops.len() {
        assert(ops.take(n + 1).drop_last() =~= ops.take(n));
        backup_phase_fails_early(config, ops, n + 1);
    } else {
        assert(ops.take(n) =~= ops);
    }
}

proof fn body_phase_fails_early(
    config: ConfigModel,
    ops: Seq<OpModel>,
    facts: Seq<FactsModel>,
    n: int,
)
    requires
        0 <= n <= ops.len(),
        body_phase(config, ops.take(n), facts).1 is Some,
    ensures
        body_phase(config, ops, facts) == body_phase(config, ops.take(n), facts),
    decreases ops.len() - n,
{
    if n < ops.len() {
        assert(ops.take(n + 1).drop_last() =~= ops.take(n));
        body_phase_fails_early(config, ops, facts, n + 1);
    } else {
        assert(ops.take(n) =~= ops);
    }
}

proof fn all_affects_fails_early(
    config: ConfigModel,
    ops: Seq<OpModel>,
    facts: Seq<FactsModel>,
    n: int,
)
    requires
        0 <= n <= ops.len(),
        all_affects(config, ops.take(n), facts) is Err,
    ensures
        all_affects(config, ops, facts) == all_affects(config, ops.take(n), facts),
    decreases ops.len() - n,
{
    if n < ops.len() {
        assert(ops.take(n + 1).drop_last() =~= ops.take(n));
        all_affects_fails_early(config, ops, facts, n + 1);
    } else {
        assert(ops.take(n) =~= ops);
    }
}

fn bind_texts(params: &Option<Vec<JsonValue>>) -> (r: Vec<String>)
    ensures
        text::texts(r@) == bound_texts(
            match params {
                Some(p) => json::value_models(p@),
                None => Seq::empty(),
            },
        ),
{
    let mut r: Vec<String> = Vec::new();
    match params {
        None => {
            assert(text::texts(r@) =~= bound_texts(Seq::empty()));
        },
        Some(values) => {
            let mut i: usize = 0;
            while i < values.len()
                invariant
                    i <= values@.len(),
                    r@.len() == i,
                    forall|j: int| 0 <= j < i ==> (#[trigger] r@[j])@ == bound_text(values@[j]@),
                decreases values@.len() - i,
            {
                let bound: String = match &values[i] {
                    JsonValue::Text(s) => s.clone(),
                    other => other.to_text(),
                };
                r.push(bound);
                i += 1;
            }
            assert(text::texts(r@) =~= bound_texts(json::value_models(values@)));
        },
    }
    r
}

fn op_step(step: Step, i: usize, prefix: &str) -> (r: PlannedStep)
    ensures
        r@ == of_op(step@, i as int, prefix@),
{
    PlannedStep { step, on_failure: OnFailure::Abort { op_index: i, prefix: prefix.to_owned() } }
}

/// The table and the scope of an op that replaces or removes a schema.
fn changes(op: &BatchOp) -> (r: Option<(&String, &String)>)
    ensures
        match r {
            Some((table, scope)) => changed_by(op@) == Some((table@, scope@)),
            None => changed_by(op@) is None,
        },
{
    match op {
        BatchOp::SchemaUpdate { table, scope, .. } => Some((table, scope)),
        BatchOp::SchemaDelete { table, scope } => Some((table, scope)),
        _ => None,
    }
}

fn backup_steps(config: &Config, ops: &Vec<BatchOp>) -> (r: (
    Vec<PlannedStep>,
    Option<MiniAppError>,
))
    ensures
        phase_model(r) == backup_phase(config@, op_models(ops@)),
{
    let ghost models = op_models(ops@);
    let mut steps: Vec<PlannedStep> = Vec::new();
    let mut i: usize = 0;
    assert(models.take(0) =~= Seq::<OpModel>::empty());
    assert(plan::step_models(steps@) =~= Seq::<plan::PlannedModel>::empty());
    while i < ops.len()
        invariant
            i <= ops@.len(),
            models == op_models(ops@),
            backup_phase(config@, models.take(i as int)) == (
                plan::step_models(steps@),
                None::<ErrorModel>,
            ),
        decreases ops@.len() - i,
    {
        let ghost upto = models.take(i + 1);
        assert(upto.drop_last() =~= models.take(i as int));
        assert(upto.last() == ops@[i as int]@);
        match changes(&ops[i]) {
            None => {},
            Some((table, scope)) => match schema_tools::resolve_scope_paths(scope, table, config) {
                Err(e) => {
                    proof {
                        backup_phase_fails_early(config@, models, i + 1);
                    }
                    return (
                        steps,
                        Some(MiniAppError::BatchAborted { op_index: i, reason: e.message() }),
                    );
                },
                Ok((root, yaml)) => {
                    let db_path: FilePath = schema_tools::database_path(&root, table.as_str());
                    let step: PlannedStep = op_step(
                        Step::Backup {
                            scope_root: root,
                            table: table.clone(),
                            yaml_path: yaml,
                            db_path,
                        },
                        i,
                        "backup failed: ",
                    );
                    let ghost before = plan::step_models(steps@);
                    steps.push(step);
                    assert(plan::step_models(steps@) =~= before.push(step@));
                },
            },
        }
        i += 1;
    }
    assert(models.take(models.len() as int) =~= models);
    (steps, None)
}

fn op_steps(config: &Config, op: &BatchOp, i: usize, exists: bool) -> (r: (
    Vec<PlannedStep>,
    Option<MiniAppError>,
))
    ensures
        phase_model(r) == op_phase(config@, op@, i as int, exists),
{
    let mut steps: Vec<PlannedStep> = Vec::new();
    assert(plan::step_models(steps@) =~= Seq::<plan::PlannedModel>::empty());
    match op {
        BatchOp::Query { sql, params, .. } => {
            let step: PlannedStep = op_step(
                Step::RunSql { sql: sql.clone(), params: bind_texts(params) },
                i,
                "",
            );
            proof {
                reveal_strlit("");
                assert(""@ =~= Seq::<char>::empty());
            }
            steps.push(step);
            assert(plan::step_models(steps@) =~= seq![step@]);
            (steps, None)
        },
        BatchOp::SchemaCreate { table, scope, fields } => {
            match schema_tools::resolve_scope_paths(scope, table, config) {
                Err(e) => (
                    steps,
                    Some(MiniAppError::BatchAborted { op_index: i, reason: e.message() }),
                ),
                Ok((root, yaml)) => {
                    if exists {
                        let e: MiniAppError = MiniAppError::SchemaExists { table: table.clone() };
                        return (
                            steps,
                            Some(MiniAppError::BatchAborted { op_index: i, reason: e.message() }),
                        );
                    }
                    match schema_tools::parse_fields(fields) {
                        Err(e) => (
                            steps,
                            Some(MiniAppError::BatchAborted { op_index: i, reason: e.message() }),
                        ),
                        Ok(_) => {
                            let step: PlannedStep = op_step(
                                Step::CreateDir { path: root.join(table.as_str()) },
                                i,
                                "create_dir_all failed: ",
                            );
                            steps.push(step);
                            assert(plan::step_models(steps@) =~= seq![step@]);
                            (steps, None)
                        },
                    }
                },
            }
        },
        BatchOp::SchemaUpdate { table, scope, fields } => {
            match schema_tools::resolve_scope_paths(scope, table, config) {
                Err(e) => (
                    steps,
                    Some(MiniAppError::BatchAborted { op_index: i, reason: e.message() }),
                ),
                Ok(_) => match schema_tools::parse_fields(fields) {
                    Err(e) => (
                        steps,
                        Some(MiniAppError::BatchAborted { op_index: i, reason: e.message() }),
                    ),
                    Ok(_) => (steps, None),
                },
            }
        },
        BatchOp::SchemaDelete { table, scope } => {
            match schema_tools::resolve_scope_paths(scope, table, config) {
                Err(e) => (
                    steps,
                    Some(MiniAppError::BatchAborted { op_index: i, reason: e.message() }),
                ),
                Ok(_) => (steps, None),
            }
        },
    }
}

fn body_steps(config: &Config, ops: &Vec<BatchOp>, facts: &Vec<OpFacts>) -> (r: (
    Vec<PlannedStep>,
    Option<MiniAppError>,
))
    requires
        facts@.len() == ops@.len(),
    ensures
        phase_model(r) == body_phase(config@, op_models(ops@), fact_models(facts@)),
{
    let ghost models = op_models(ops@);
    let ghost known = fact_models(facts@);
    let mut steps: Vec<PlannedStep> = Vec::new();
    let mut i: usize = 0;
    assert(models.take(0) =~= Seq::<OpModel>::empty());
    assert(plan::step_models(steps@) =~= Seq::<plan::PlannedModel>::empty());
    while i < ops.len()
        invariant
            i <= ops@.len(),
            facts@.len() == ops@.len(),
            models == op_models(ops@),
            known == fact_models(facts@),
            body_phase(config@, models.take(i as int), known) == (
                plan::step_models(steps@),
                None::<ErrorModel>,
            ),
        decreases ops@.len() - i,
    {
        let ghost upto = models.take(i + 1);
        assert(upto.drop_last() =~= models.take(i as int));
        assert(upto.last() == ops@[i as int]@);
        assert(known[i as int] == facts@[i as int]@);
        let (more, failure) = op_steps(config, &ops[i], i, facts[i].exists);
        let mut more: Vec<PlannedStep> = more;
        let ghost before = plan::step_models(steps@);
        let ghost added = plan::step_models(more@);
        steps.append(&mut more);
        assert(plan::step_models(steps@) =~= before + added);
        match failure {
            Some(e) => {
                proof {
                    body_phase_fails_early(config@, models, known, i + 1);
                }
                return (steps, Some(e));
            },
            None => {},
        }
        i += 1;
    }
    assert(models.take(models.len() as int) =~= models);
    (steps, None)
}

/// No op of the batch has anything wrong with it.
pub open spec fn all_sound(config: ConfigModel, ops: Seq<OpModel>) -> bool {
    forall|i: int| 0 <= i < ops.len() ==> sound(config, #[trigger] ops[i])
}

/// The paths and the fields of an op can be made out.
pub open spec fn sound(config: ConfigModel, op: OpModel) -> bool {
    match op {
        OpModel::Query { sql, params, table } => true,
        OpModel::SchemaCreate { table, scope, fields } => schema_tools::scope_paths(
            scope,
            table,
            config,
        ) is Ok && schema_tools::fields_given(fields) is Ok,
        OpModel::SchemaUpdate { table, scope, fields } => schema_tools::scope_paths(
            scope,
            table,
            config,
        ) is Ok && schema_tools::fields_given(fields) is Ok,
        OpModel::SchemaDelete { table, scope } => schema_tools::scope_paths(
            scope,
            table,
            config,
        ) is Ok,
    }
}

/// Where no op fails, every op is sound.
proof fn body_without_failure_is_sound(
    config: ConfigModel,
    ops: Seq<OpModel>,
    facts: Seq<FactsModel>,
)
    requires
        body_phase(config, ops, facts).1 is None,
    ensures
        all_sound(config, ops),
    decreases ops.len(),
{
    if ops.len() > 0 {
        body_without_failure_is_sound(config, ops.drop_last(), facts);
        assert forall|i: int| 0 <= i < ops.len() implies sound(config, #[trigger] ops[i]) by {
            if i < ops.len() - 1 {
                assert(ops[i] == ops.drop_last()[i]);
            }
        }
    }
}

/// The schema that an op gives a table, together with where its file and its
/// database lie.
fn given_schema(config: &Config, table: &String, scope: &String, fields: &Vec<FieldDefInput>) -> (r:
    Result<(FilePath, FilePath, SchemaConfig), MiniAppError>)
    ensures
        schema_tools::scope_paths(scope@, table@, config@) is Ok && schema_tools::fields_given(
            schema_tools::input_models(fields@),
        ) is Ok ==> (r matches Ok((root, yaml, s)) && schema_tools::scope_paths(
            scope@,
            table@,
            config@,
        ) == Ok::<(Seq<path::PartModel>, Seq<path::PartModel>), ErrorModel>((root@, yaml@)) && s@
            == schema_given(table@, schema_tools::input_models(fields@))),
{
    match schema_tools::resolve_scope_paths(scope, table, config) {
        Err(e) => Err(e),
        Ok((root, yaml)) => match schema_tools::parse_fields(fields) {
            Err(e) => Err(e),
            Ok(fields) => {
                let s: SchemaConfig = SchemaConfig {
                    table: table.clone(),
                    title: None,
                    description: None,
                    fields,
                    dump: None,
                };
                Ok((root, yaml, s))
            },
        },
    }
}

fn file_step(config: &Config, op: &BatchOp) -> (r: Option<PlannedStep>)
    requires
        sound(config@, op@),
    ensures
        match r {
            Some(s) => file_change(config@, op@) == Some(s@),
            None => file_change(config@, op@) is None,
        },
{
    match op {
        BatchOp::Query { .. } => None,
        BatchOp::SchemaCreate { table, scope, fields } | BatchOp::SchemaUpdate {
            table,
            scope,
            fields,
        } => match given_schema(config, table, scope, fields) {
            Err(_) => None,
            Ok((_, yaml, s)) => Some(
                PlannedStep {
                    step: Step::WriteSchema { path: yaml, schema: s },
                    on_failure: OnFailure::ReportBackup {
                        prefix: "deferred YAML rename failed after SAVEPOINT commit: ".to_owned(),
                    },
                },
            ),
        },
        BatchOp::SchemaDelete { table, scope } => match schema_tools::resolve_scope_paths(
            scope,
            table,
            config,
        ) {
            Err(_) => None,
            Ok((_, yaml)) => Some(
                PlannedStep {
                    step: Step::RemoveSchema { path: yaml },
                    on_failure: OnFailure::ReportBackup {
                        prefix: "deferred YAML remove failed after SAVEPOINT commit: ".to_owned(),
                    },
                },
            ),
        },
    }
}

fn file_steps(config: &Config, ops: &Vec<BatchOp>) -> (r: Vec<PlannedStep>)
    requires
        all_sound(config@, op_models(ops@)),
    ensures
        plan::step_models(r@) == file_phase(config@, op_models(ops@)),
{
    let ghost models = op_models(ops@);
    let mut steps: Vec<PlannedStep> = Vec::new();
    let mut i: usize = 0;
    assert(models.take(0) =~= Seq::<OpModel>::empty());
    assert(plan::step_models(steps@) =~= Seq::<plan::PlannedModel>::empty());
    while i < ops.len()
        invariant
            i <= ops@.len(),
            models == op_models(ops@),
            all_sound(config@, models),
            plan::step_models(steps@) == file_phase(config@, models.take(i as int)),
        decreases ops@.len() - i,
    {
        let ghost upto = models.take(i + 1);
        assert(upto.drop_last() =~= models.take(i as int));
        assert(upto.last() == ops@[i as int]@);
        assert(models[i as int] == ops@[i as int]@);
        match file_step(config, &ops[i]) {
            Some(step) => {
                let ghost before = plan::step_models(steps@);
                steps.push(step);
                assert(plan::step_models(steps@) =~= before.push(step@));
            },
            None => {},
        }
        i += 1;
    }
    assert(models.take(models.len() as int) =~= models);
    steps
}

fn purge_steps(config: &Config, ops: &Vec<BatchOp>) -> (r: Vec<PlannedStep>)
    requires
        all_sound(config@, op_models(ops@)),
    ensures
        plan::step_models(r@) == purge_phase(config@, op_models(ops@)),
{
    let ghost models = op_models(ops@);
    let mut steps: Vec<PlannedStep> = Vec::new();
    let mut i: usize = 0;
    assert(models.take(0) =~= Seq::<OpModel>::empty());
    assert(plan::step_models(steps@) =~= Seq::<plan::PlannedModel>::empty());
    while i < ops.len()
        invariant
            i <= ops@.len(),
            models == op_models(ops@),
            all_sound(config@, models),
            plan::step_models(steps@) == purge_phase(config@, models.take(i as int)),
        decreases ops@.len() - i,
    {
        let ghost upto = models.take(i + 1);
        assert(upto.drop_last() =~= models.take(i as int));
        assert(upto.last() == ops@[i as int]@);
        assert(models[i as int] == ops@[i as int]@);
        match changes(&ops[i]) {
            Some((table, scope)) => match schema_tools::resolve_scope_paths(scope, table, config) {
                Ok((root, _)) => {
                    let step: PlannedStep = PlannedStep {
                        step: Step::PurgeBackups {
                            scope_root: root,
                            table: table.clone(),
                            retention: config.backup_retention(),
                        },
                        on_failure: OnFailure::Continue,
                    };
                    let ghost before = plan::step_models(steps@);
                    steps.push(step);
                    assert(plan::step_models(steps@) =~= before.push(step@));
                },
                Err(_) => {},
            },
            None => {},
        }
        i += 1;
    }
    assert(models.take(models.len() as int) =~= models);
    steps
}

fn open_steps(config: &Config, ops: &Vec<BatchOp>) -> (r: Vec<PlannedStep>)
    requires
        all_sound(config@, op_models(ops@)),
    ensures
        plan::step_models(r@) == open_phase(config@, op_models(ops@)),
{
    let ghost models = op_models(ops@);
    let mut steps: Vec<PlannedStep> = Vec::new();
    let mut i: usize = 0;
    assert(models.take(0) =~= Seq::<OpModel>::empty());
    assert(plan::step_models(steps@) =~= Seq::<plan::PlannedModel>::empty());
    while i < ops.len()
        invariant
            i <= ops@.len(),
            models == op_models(ops@),
            all_sound(config@, models),
            plan::step_models(steps@) == open_phase(config@, models.take(i as int)),
        decreases ops@.len() - i,
    {
        let ghost upto = models.take(i + 1);
        assert(upto.drop_last() =~= models.take(i as int));
        assert(upto.last() == ops@[i as int]@);
        assert(models[i as int] == ops@[i as int]@);
        match &ops[i] {
            BatchOp::SchemaCreate { table, scope, fields } => {
                match given_schema(config, table, scope, fields) {
                    Ok((root, _, s)) => {
                        let step: PlannedStep = PlannedStep {
                            step: Step::OpenStore {
                                db_path: schema_tools::database_path(&root, table.as_str()),
                                schema: s,
                            },
                            on_failure: OnFailure::Report,
                        };
                        let ghost before = plan::step_models(steps@);
                        steps.push(step);
                        assert(plan::step_models(steps@) =~= before.push(step@));
                    },
                    Err(_) => {},
                }
            },
            _ => {},
        }
        i += 1;
    }
    assert(models.take(models.len() as int) =~= models);
    steps
}

/// Whether some op runs a statement.
fn runs_statements(ops: &Vec<BatchOp>) -> (r: bool)
    ensures
        r == has_query(op_models(ops@)),
{
    let ghost models = op_models(ops@);
    let mut i: usize = 0;
    while i < ops.len()
        invariant
            i <= ops@.len(),
            models == op_models(ops@),
            forall|j: int| 0 <= j < i ==> !((#[trigger] models[j]) is Query),
        decreases ops@.len() - i,
    {
        assert(models[i as int] == ops@[i as int]@);
        if matches!(&ops[i], BatchOp::Query { .. }) {
            return true;
        }
        i += 1;
    }
    false
}

/// Whether all ops are about one table.
fn on_one_table(ops: &Vec<BatchOp>) -> (r: bool)
    requires
        ops@.len() > 0,
    ensures
        r == one_table(op_models(ops@)),
{
    let ghost models = op_models(ops@);
    let first: &str = ops[0].table_name();
    assert(models[0] == ops@[0]@);
    let mut i: usize = 0;
    while i < ops.len()
        invariant
            i <= ops@.len(),
            models == op_models(ops@),
            first@ == table_of(models[0]),
            forall|j: int| 0 <= j < i ==> table_of(#[trigger] models[j]) == first@,
        decreases ops@.len() - i,
    {
        assert(models[i as int] == ops@[i as int]@);
        if !text::same_text(ops[i].table_name(), first) {
            return false;
        }
        i += 1;
    }
    true
}

/// The files that steps write or remove, in order.
fn changed_files(steps: &Vec<PlannedStep>) -> (r: Vec<FilePath>)
    ensures
        plan::path_models(r@) == files_changed(plan::step_models(steps@)),
{
    let mut r: Vec<FilePath> = Vec::new();
    let mut i: usize = 0;
    while i < steps.len()
        invariant
            i <= steps@.len(),
            r@.len() == i,
            forall|j: int|
                0 <= j < i ==> (#[trigger] r@[j])@ == files_changed(
                    plan::step_models(steps@),
                )[j],
        decreases steps@.len() - i,
    {
        let p: FilePath = match &steps[i].step {
            Step::WriteSchema { path, .. } => path.duplicate(),
            Step::RemoveSchema { path } => path.duplicate(),
            _ => {
                let p: FilePath = FilePath::new(Vec::new());
                assert(p@ =~= Seq::<path::PartModel>::empty());
                p
            },
        };
        r.push(p);
        i += 1;
    }
    assert(plan::path_models(r@) =~= files_changed(plan::step_models(steps@)));
    r
}

/// The directories that backups are written to, in order.
fn backup_directories(steps: &Vec<PlannedStep>) -> (r: Vec<FilePath>)
    ensures
        plan::path_models(r@) == backup_dirs(plan::step_models(steps@)),
{
    let mut r: Vec<FilePath> = Vec::new();
    let mut i: usize = 0;
    while i < steps.len()
        invariant
            i <= steps@.len(),
            r@.len() == i,
            forall|j: int|
                0 <= j < i ==> (#[trigger] r@[j])@ == backup_dirs(plan::step_models(steps@))[j],
        decreases steps@.len() - i,
    {
        let p: FilePath = match &steps[i].step {
            Step::Backup { scope_root, .. } => scope_root.join("_backup"),
            _ => {
                let p: FilePath = FilePath::new(Vec::new());
                assert(p@ =~= Seq::<path::PartModel>::empty());
                p
            },
        };
        r.push(p);
        i += 1;
    }
    assert(plan::path_models(r@) =~= backup_dirs(plan::step_models(steps@)));
    r
}

fn append_steps(steps: &mut Vec<PlannedStep>, more: Vec<PlannedStep>)
    ensures
        plan::step_models(final(steps)@) == plan::step_models(old(steps)@) + plan::step_models(
            more@,
        ),
{
    let mut more: Vec<PlannedStep> = more;
    let ghost before = steps@;
    let ghost added = more@;
    steps.append(&mut more);
    assert(plan::step_models(before + added) =~= plan::step_models(before) + plan::step_models(
        added,
    ));
}

fn push_step(steps: &mut Vec<PlannedStep>, step: Step)
    ensures
        plan::step_models(final(steps)@) == plan::step_models(old(steps)@) + seq![
            plan::reported(step@),
        ],
{
    let planned: PlannedStep = PlannedStep { step, on_failure: OnFailure::Report };
    let ghost before = steps@;
    steps.push(planned);
    assert(plan::step_models(before.push(planned)) =~= plan::step_models(before) + seq![planned@]);
}

fn plan_carried_out(
    config: &Config,
    ops: &Vec<BatchOp>,
    facts: &Vec<OpFacts>,
    mounted: bool,
) -> (r: Plan)
    requires
        ops@.len() > 0,
        facts@.len() == ops@.len(),
    ensures
        r@ == carried_out(config@, op_models(ops@), fact_models(facts@), mounted),
{
    let ghost models = op_models(ops@);
    let ghost known = fact_models(facts@);
    let table: &str = ops[0].table_name();
    assert(models[0] == ops@[0]@);
    let query: bool = runs_statements(ops);
    let (backups, failure) = backup_steps(config, ops);
    match failure {
        Some(e) => {
            return Plan { steps: backups, outcome: Err(e) };
        },
        None => {},
    }
    if query && !mounted {
        return Plan {
            steps: backups,
            outcome: Err(MiniAppError::TableNotFound { table: table.to_owned() }),
        };
    }
    let backups_written: Vec<FilePath> = backup_directories(&backups);
    let mut steps: Vec<PlannedStep> = backups;
    let ghost first = plan::step_models(steps@);
    if query {
        push_step(&mut steps, Step::OpenSavepoint { table: table.to_owned() });
    }
    assert(plan::step_models(steps@) =~= first + opening(query, table@));
    let (body, failure) = body_steps(config, ops, facts);
    append_steps(&mut steps, body);
    let ghost begun = plan::step_models(steps@);
    assert(begun == first + opening(query, table@) + body_phase(config@, models, known).0);
    match failure {
        Some(e) => {
            return Plan { steps, outcome: Err(e) };
        },
        None => {},
    }
    proof {
        body_without_failure_is_sound(config@, models, known);
    }
    if query {
        push_step(&mut steps, Step::CommitSavepoint);
    }
    assert(plan::step_models(steps@) =~= begun + committing(query));
    let files: Vec<PlannedStep> = file_steps(config, ops);
    let yaml_writes: Vec<FilePath> = changed_files(&files);
    append_steps(&mut steps, files);
    append_steps(&mut steps, purge_steps(config, ops));
    append_steps(&mut steps, open_steps(config, ops));
    push_step(&mut steps, Step::RebuildRegistry);
    let result: BatchResult = BatchResult {
        committed: true,
        ops_executed: ops.len(),
        yaml_writes,
        backups_written,
        registry_rebuilt: true,
    };
    Plan { steps, outcome: Ok(Report::Batch(result)) }
}

/// The outcome of reporting on an op, as a model.
pub open spec fn affects_outcome(r: Result<JsonValue, MiniAppError>) -> Result<
    JsonModel,
    ErrorModel,
> {
    match r {
        Ok(v) => Ok(v@),
        Err(e) => Err(e@),
    }
}

/// What an op would affect, from what was read for it.
pub fn compute_op_affects(config: &Config, op: &BatchOp, fact: &OpFacts) -> (r: Result<
    JsonValue,
    MiniAppError,
>)
    ensures
        affects_outcome(r) == affects_of(config@, op@, fact@),
{
    let mut o: JsonObject = JsonObject::new();
    match op {
        BatchOp::Query { sql, .. } => {
            o.insert("op".to_owned(), JsonValue::Text("query".to_owned()));
            o.insert("sql".to_owned(), JsonValue::Text(sql.clone()));
            o.insert("rows_affected".to_owned(), JsonValue::Null);
            o.insert("note".to_owned(), JsonValue::Text("dry_run: SQL not executed".to_owned()));
        },
        BatchOp::SchemaCreate { table, scope, fields } => {
            match schema_tools::resolve_scope_paths(scope, table, config) {
                Err(e) => {
                    return Err(e);
                },
                Ok((_, yaml)) => {
                    o.insert("op".to_owned(), JsonValue::Text("schema_create".to_owned()));
                    o.insert("table".to_owned(), JsonValue::Text(table.clone()));
                    o.insert("would_create".to_owned(), JsonValue::Text(yaml.display()));
                    o.insert("already_exists".to_owned(), JsonValue::Bool(fact.exists));
                    o.insert(
                        "fields_count".to_owned(),
                        JsonValue::Number(JsonNumber::Unsigned(fields.len() as u64)),
                    );
                },
            }
        },
        BatchOp::SchemaUpdate { table, scope, fields } => {
            match schema_tools::resolve_scope_paths(scope, table, config) {
                Err(e) => {
                    return Err(e);
                },
                Ok(_) => {},
            }
            let new: Vec<FieldDef> = match schema_tools::parse_fields(fields) {
                Err(e) => {
                    return Err(e);
                },
                Ok(f) => f,
            };
            let (added, removed) = match &fact.old {
                Some(s) => {
                    let diff = schema_tools::field_diff(&s.fields, &new);
                    (error::text_array(&diff.added), error::text_array(&diff.removed))
                },
                None => {
                    let none: Vec<String> = Vec::new();
                    assert(text::texts(none@) =~= Seq::<Seq<char>>::empty());
                    (error::text_array(&none), error::text_array(&none))
                },
            };
            o.insert("op".to_owned(), JsonValue::Text("schema_update".to_owned()));
            o.insert("table".to_owned(), JsonValue::Text(table.clone()));
            o.insert("fields_added".to_owned(), added);
            o.insert("fields_removed".to_owned(), removed);
            o.insert(
                "rows_unchanged".to_owned(),
                JsonValue::Number(JsonNumber::Unsigned(fact.rows)),
            );
        },
        BatchOp::SchemaDelete { table, scope } => {
            match schema_tools::resolve_scope_paths(scope, table, config) {
                Err(e) => {
                    return Err(e);
                },
                Ok((_, yaml)) => {
                    o.insert("op".to_owned(), JsonValue::Text("schema_delete".to_owned()));
                    o.insert("table".to_owned(), JsonValue::Text(table.clone()));
                    o.insert("would_remove_yaml".to_owned(), JsonValue::Text(yaml.display()));
                    o.insert(
                        "rows_orphaned".to_owned(),
                        JsonValue::Number(JsonNumber::Unsigned(fact.rows)),
                    );
                },
            }
        },
    }
    Ok(JsonValue::Object(o))
}

fn no_items() -> (r: JsonValue)
    ensures
        r@ == JsonModel::Array(Seq::empty()),
{
    let r = JsonValue::Array(Vec::new());
    assert(r@->Array_0 =~= Seq::<JsonModel>::empty());
    r
}

fn plan_dry_run(config: &Config, ops: &Vec<BatchOp>, facts: &Vec<OpFacts>) -> (r: Result<
    Plan,
    MiniAppError,
>)
    requires
        facts@.len() == ops@.len(),
    ensures
        plan::plan_outcome(r) == (match all_affects(
            config@,
            op_models(ops@),
            fact_models(facts@),
        ) {
            Err(e) => Err(e),
            Ok(affects) => Ok(
                plan::PlanModel {
                    steps: Seq::empty(),
                    outcome: Ok(
                        plan::ReportModel::Json(dry_run_outcome(affects, ops@.len())),
                    ),
                },
            ),
        }),
{
    let ghost models = op_models(ops@);
    let ghost known = fact_models(facts@);
    let mut affects: Vec<JsonValue> = Vec::new();
    let mut i: usize = 0;
    assert(models.take(0) =~= Seq::<OpModel>::empty());
    assert(json::value_models(affects@) =~= Seq::<JsonModel>::empty());
    while i < ops.len()
        invariant
            i <= ops@.len(),
            facts@.len() == ops@.len(),
            models == op_models(ops@),
            known == fact_models(facts@),
            all_affects(config@, models.take(i as int), known) == Ok::<Seq<JsonModel>, ErrorModel>(
                json::value_models(affects@),
            ),
        decreases ops@.len() - i,
    {
        let ghost upto = models.take(i + 1);
        assert(upto.drop_last() =~= models.take(i as int));
        assert(upto.last() == ops@[i as int]@);
        assert(known[i as int] == facts@[i as int]@);
        match compute_op_affects(config, &ops[i], &facts[i]) {
            Err(e) => {
                proof {
                    all_affects_fails_early(config@, models, known, i + 1);
                }
                return Err(MiniAppError::BatchAborted { op_index: i, reason: e.message() });
            },
            Ok(v) => {
                let ghost before = json::value_models(affects@);
                affects.push(v);
                assert(json::value_models(affects@) =~= before.push(v@));
            },
        }
        i += 1;
    }
    assert(models.take(models.len() as int) =~= models);
    let ghost listed = json::value_models(affects@);
    let list = JsonValue::Array(affects);
    assert(list@->Array_0 =~= listed);
    let mut o: JsonObject = JsonObject::new();
    o.insert("committed".to_owned(), JsonValue::Bool(false));
    o.insert("dry_run".to_owned(), JsonValue::Bool(true));
    o.insert(
        "ops_executed".to_owned(),
        JsonValue::Number(JsonNumber::Unsigned(ops.len() as u64)),
    );
    o.insert("affects".to_owned(), list);
    o.insert("yaml_writes".to_owned(), no_items());
    o.insert("backups_written".to_owned(), no_items());
    o.insert("registry_rebuilt".to_owned(), JsonValue::Bool(false));
    Ok(Plan::report(JsonValue::Object(o)))
}

/// Plans `schema_batch`. All ops must be about one table. Backups come first.
/// Statements then run in one savepoint, in order, and everything that can be
/// wrong with another op shows at its turn; a failure rolls the savepoint back
/// and ends the batch. Only when the savepoint is committed are schema files
/// written or removed, and the tables are read anew. `facts` holds what was read
/// for each op, and `mounted` says whether the table is mounted. A dry run plans
/// nothing and reports what each op would affect.
pub fn execute_batch(
    config: &Config,
    params: &SchemaBatchParams,
    facts: &Vec<OpFacts>,
    mounted: bool,
) -> (r: Result<Plan, MiniAppError>)
    requires
        facts@.len() == params.ops@.len(),
    ensures
        plan::plan_outcome(r) == batch_plan(
            config@,
            op_models(params.ops@),
            params.dry_run,
            fact_models(facts@),
            mounted,
        ),
{
    if params.ops.len() == 0 {
        let result: BatchResult = BatchResult {
            committed: !params.dry_run,
            ops_executed: 0,
            yaml_writes: Vec::new(),
            backups_written: Vec::new(),
            registry_rebuilt: false,
        };
        let p = Plan { steps: Vec::new(), outcome: Ok(Report::Batch(result)) };
        assert(p@.steps =~= Seq::<plan::PlannedModel>::empty());
        assert(result@.yaml_writes =~= Seq::<Seq<path::PartModel>>::empty());
        assert(result@.backups_written =~= Seq::<Seq<path::PartModel>>::empty());
        return Ok(p);
    }
    if !on_one_table(&params.ops) {
        return Err(
            MiniAppError::Validation {
                field: "ops".to_owned(),
                reason: "all ops in a batch must target the same table".to_owned(),
            },
        );
    }
    if params.dry_run {
        return plan_dry_run(config, &params.ops, facts);
    }
    Ok(plan_carried_out(config, &params.ops, facts, mounted))
}

proof fn backup_phase_kind(config: ConfigModel, ops: Seq<OpModel>)
    ensures
        forall|i: int|
            0 <= i < backup_phase(config, ops).0.len() ==> (#[trigger] backup_phase(
                config,
                ops,
            ).0[i]).step is Backup && backup_phase(config, ops).0[i].on_failure is Abort,
    decreases ops.len(),
{
    if ops.len() > 0 {
        backup_phase_kind(config, ops.drop_last());
    }
}

proof fn body_phase_kind(config: ConfigModel, ops: Seq<OpModel>, facts: Seq<FactsModel>)
    ensures
        forall|i: int|
            0 <= i < body_phase(config, ops, facts).0.len() ==> {
                let s = #[trigger] body_phase(config, ops, facts).0[i];
                (s.step is CreateDir || (s.step is RunSql && has_query(ops))) && s.on_failure is Abort
            },
    decreases ops.len(),
{
    if ops.len() > 0 {
        body_phase_kind(config, ops.drop_last(), facts);
        if has_query(ops.drop_last()) {
            let k = choose|k: int| 0 <= k < ops.drop_last().len() && (#[trigger] ops.drop_last()[k]) is Query;
            assert(ops[k] is Query);
        }
        if ops.last() is Query {
            assert(ops[ops.len() - 1] is Query);
        }
        assert(has_query(ops.drop_last()) ==> has_query(ops));
    }
}

proof fn file_phase_kind(config: ConfigModel, ops: Seq<OpModel>)
    ensures
        forall|i: int|
            0 <= i < file_phase(config, ops).len() ==> {
                let s = #[trigger] file_phase(config, ops)[i];
                (s.step is WriteSchema || s.step is RemoveSchema) && s.on_failure is ReportBackup
            },
    decreases ops.len(),
{
    if ops.len() > 0 {
        file_phase_kind(config, ops.drop_last());
    }
}

proof fn purge_phase_kind(config: ConfigModel, ops: Seq<OpModel>)
    ensures
        forall|i: int|
            0 <= i < purge_phase(config, ops).len() ==> (#[trigger] purge_phase(
                config,
                ops,
            )[i]).step is PurgeBackups && purge_phase(config, ops)[i].on_failure is Continue,
    decreases ops.len(),
{
    if ops.len() > 0 {
        purge_phase_kind(config, ops.drop_last());
    }
}

proof fn open_phase_kind(config: ConfigModel, ops: Seq<OpModel>)
    ensures
        forall|i: int|
            0 <= i < open_phase(config, ops).len() ==> (#[trigger] open_phase(
                config,
                ops,
            )[i]).step is OpenStore && open_phase(config, ops)[i].on_failure is Report,
    decreases ops.len(),
{
    if ops.len() > 0 {
        open_phase_kind(config, ops.drop_last());
    }
}

/// Where steps neither open nor commit a savepoint, none opens or closes.
proof fn savepoint_stays(steps: Seq<plan::PlannedModel>, from: int, to: int)
    requires
        0 <= from <= to <= steps.len(),
        forall|i: int|
            from <= i < to ==> !((#[trigger] steps[i]).step is OpenSavepoint) && !(
            steps[i].step is CommitSavepoint),
    ensures
        plan::savepoint_open(steps, to) == plan::savepoint_open(steps, from),
    decreases to - from,
{
    if from < to {
        savepoint_stays(steps, from, to - 1);
        assert(!(steps[to - 1].step is OpenSavepoint) && !(steps[to - 1].step is CommitSavepoint));
    }
}

/// The number of steps that come before anything is made final: the backups,
/// the opening of the savepoint, and the ops.
pub open spec fn begun(
    config: ConfigModel,
    ops: Seq<OpModel>,
    facts: Seq<FactsModel>,
    mounted: bool,
) -> int {
    let p = carried_out(config, ops, facts, mounted);
    if p.outcome is Err {
        p.steps.len() as int
    } else {
        (backup_phase(config, ops).0.len() + opening(has_query(ops), table_of(ops[0])).len()
            + body_phase(config, ops, facts).0.len()) as int
    }
}

/// What the steps of a batch are, by their numbers.
#[verifier::spinoff_prover]
proof fn batch_layout(
    config: ConfigModel,
    ops: Seq<OpModel>,
    facts: Seq<FactsModel>,
    mounted: bool,
)
    requires
        ops.len() > 0,
    ensures
        ({
            let p = carried_out(config, ops, facts, mounted);
            let n = begun(config, ops, facts, mounted);
            &&& 0 <= n <= p.steps.len()
            &&& forall|i: int|
                0 <= i < n ==> plan::leaves_tables_alone((#[trigger] p.steps[i]).step)
            &&& forall|i: int|
                0 <= i < n && (#[trigger] p.steps[i]).step is RunSql ==> plan::savepoint_open(
                    p.steps,
                    i,
                )
            &&& (exists|i: int| 0 <= i < n && (#[trigger] p.steps[i]).step is RunSql)
                ==> plan::savepoint_open(p.steps, n)
            &&& forall|i: int|
                n <= i < p.steps.len() ==> {
                    let s = #[trigger] p.steps[i];
                    &&& !(s.step is Backup) && !(s.step is RunSql) && !(s.step is OpenSavepoint)
                    &&& !(s.on_failure is Abort)
                    &&& s.step is CommitSavepoint ==> i == n
                    &&& s.step is RebuildRegistry ==> i == p.steps.len() - 1
                }
        }),
{
    let p = carried_out(config, ops, facts, mounted);
    let n = begun(config, ops, facts, mounted);
    let table = table_of(ops[0]);
    let query = has_query(ops);
    let b = backup_phase(config, ops).0;
    let o = opening(query, table);
    let d = body_phase(config, ops, facts).0;
    backup_phase_kind(config, ops);
    body_phase_kind(config, ops, facts);
    file_phase_kind(config, ops);
    purge_phase_kind(config, ops);
    open_phase_kind(config, ops);
    if backup_phase(config, ops).1 is Some || (query && !mounted) {
        assert(p.steps == b);
    } else {
        let c = committing(query);
        let f = file_phase(config, ops);
        let g = purge_phase(config, ops);
        let h = open_phase(config, ops);
        let last = seq![plan::reported(plan::StepModel::RebuildRegistry)];
        assert(n == b.len() + o.len() + d.len());
        assert forall|i: int| 0 <= i < n implies (#[trigger] p.steps[i]) == (if i < b.len() {
            b[i]
        } else if i < b.len() + o.len() {
            o[i - b.len()]
        } else {
            d[i - b.len() - o.len()]
        }) by {}
        savepoint_stays(p.steps, 0, b.len() as int);
        assert(!plan::savepoint_open(p.steps, b.len() as int));
        let m = (b.len() + o.len()) as int;
        if query {
            assert(p.steps[m - 1] == o[0]);
            assert(plan::savepoint_open(p.steps, m));
        }
        assert forall|k: int| m <= k <= n && query implies plan::savepoint_open(p.steps, k) by {
            savepoint_stays(p.steps, m, k);
        }
        if body_phase(config, ops, facts).1 is None {
            let begun_steps = b + o + d;
            assert(p.steps == begun_steps + c + f + g + h + last);
            assert forall|i: int| n <= i < p.steps.len() implies (#[trigger] p.steps[i]) == (if i
                < n + c.len() {
                c[i - n]
            } else if i < n + c.len() + f.len() {
                f[i - n - c.len()]
            } else if i < n + c.len() + f.len() + g.len() {
                g[i - n - c.len() - f.len()]
            } else if i < n + c.len() + f.len() + g.len() + h.len() {
                h[i - n - c.len() - f.len() - g.len()]
            } else {
                last[i - n - c.len() - f.len() - g.len() - h.len()]
            }) by {}
        }
    }
}

/// A dry run of a batch plans nothing.
pub proof fn dry_batch_plans_nothing(
    config: ConfigModel,
    ops: Seq<OpModel>,
    facts: Seq<FactsModel>,
    mounted: bool,
)
    ensures
        batch_plan(config, ops, true, facts, mounted) matches Ok(p) ==> p.steps.len() == 0,
{
}

/// A batch in which something is wrong with an op leaves every table as it was:
/// none of its steps writes or removes a schema file, none commits a savepoint,
/// and where statements ran, the plan ends with a rollback.
pub proof fn failing_batch_changes_nothing(
    config: ConfigModel,
    ops: Seq<OpModel>,
    facts: Seq<FactsModel>,
    mounted: bool,
)
    requires
        ops.len() > 0,
        carried_out(config, ops, facts, mounted).outcome is Err,
    ensures
        ({
            let steps = carried_out(config, ops, facts, mounted).steps;
            &&& forall|i: int|
                0 <= i < steps.len() ==> plan::leaves_tables_alone((#[trigger] steps[i]).step)
            &&& (exists|i: int| 0 <= i < steps.len() && (#[trigger] steps[i]).step is RunSql)
                ==> plan::next_after(steps, steps.len() as int) == (plan::NextModel::Finish {
                rollback: true,
            })
        }),
{
    batch_layout(config, ops, facts, mounted);
}

/// The failure of a phase, where it has one, is that of an op of the batch.
proof fn phase_failures_name_an_op(config: ConfigModel, ops: Seq<OpModel>, facts: Seq<FactsModel>)
    ensures
        backup_phase(config, ops).1 matches Some(e) ==> names_op(e, ops.len()),
        body_phase(config, ops, facts).1 matches Some(e) ==> names_op(e, ops.len()),
    decreases ops.len(),
{
    if ops.len() > 0 {
        phase_failures_name_an_op(config, ops.drop_last(), facts);
    }
}

/// The error says that a batch was given up because of one of its `n` ops.
pub open spec fn names_op(e: ErrorModel, n: nat) -> bool {
    e matches ErrorModel::BatchAborted { op_index, reason } && 0 <= op_index < n
}

/// A batch in which something is wrong with an op reports that it was given up,
/// and because of which op; the one other failure that shows before anything is
/// done is that statements are to run on a table that is not mounted.
pub proof fn failing_op_is_named(
    config: ConfigModel,
    ops: Seq<OpModel>,
    facts: Seq<FactsModel>,
    mounted: bool,
)
    requires
        ops.len() > 0,
    ensures
        carried_out(config, ops, facts, mounted).outcome matches Err(e) ==> names_op(e, ops.len())
            || (has_query(ops) && !mounted && e == ErrorModel::TableNotFound {
            table: table_of(ops[0]),
        }),
        all_affects(config, ops, facts) matches Err(e) ==> names_op(e, ops.len()),
{
    phase_failures_name_an_op(config, ops, facts);
    affects_failure_names_an_op(config, ops, facts);
}

proof fn affects_failure_names_an_op(
    config: ConfigModel,
    ops: Seq<OpModel>,
    facts: Seq<FactsModel>,
)
    ensures
        all_affects(config, ops, facts) matches Err(e) ==> names_op(e, ops.len()),
    decreases ops.len(),
{
    if ops.len() > 0 {
        affects_failure_names_an_op(config, ops.drop_last(), facts);
    }
}

/// When a step of an op fails, nothing has been made final: no schema file was
/// written or removed and no savepoint committed by then, and where a statement
/// ran before or fails now, the savepoint is rolled back. The error names the op.
pub proof fn failing_op_rolls_back(
    config: ConfigModel,
    ops: Seq<OpModel>,
    facts: Seq<FactsModel>,
    mounted: bool,
    at: int,
    e: plan::StepError,
)
    requires
        ops.len() > 0,
        0 <= at < carried_out(config, ops, facts, mounted).steps.len(),
        carried_out(config, ops, facts, mounted).steps[at].on_failure is Abort,
    ensures
        ({
            let steps = carried_out(config, ops, facts, mounted).steps;
            &&& forall|i: int|
                0 <= i < at ==> plan::leaves_tables_alone((#[trigger] steps[i]).step)
            &&& plan::next_after_failure(steps, at, e) is Stop
            &&& plan::next_after_failure(steps, at, e)->error is BatchAborted
            &&& (exists|i: int| 0 <= i <= at && (#[trigger] steps[i]).step is RunSql)
                ==> plan::next_after_failure(steps, at, e)->Stop_rollback
        }),
{
    batch_layout(config, ops, facts, mounted);
    let steps = carried_out(config, ops, facts, mounted).steps;
    let n = begun(config, ops, facts, mounted);
    assert(at < n);
    if exists|i: int| 0 <= i <= at && (#[trigger] steps[i]).step is RunSql {
        let i = choose|i: int| 0 <= i <= at && (#[trigger] steps[i]).step is RunSql;
        assert(plan::savepoint_open(steps, i));
        assert forall|k: int| i <= k < at implies !((#[trigger] steps[k]).step is CommitSavepoint) by {
            assert(plan::leaves_tables_alone(steps[k].step));
        }
        savepoint_stays_open(steps, i, at);
    }
}

/// A savepoint that is open stays open as long as none is committed.
proof fn savepoint_stays_open(steps: Seq<plan::PlannedModel>, from: int, to: int)
    requires
        0 <= from <= to <= steps.len(),
        plan::savepoint_open(steps, from),
        forall|i: int| from <= i < to ==> !((#[trigger] steps[i]).step is CommitSavepoint),
    ensures
        plan::savepoint_open(steps, to),
    decreases to - from,
{
    if from < to {
        savepoint_stays_open(steps, from, to - 1);
        assert(!(steps[to - 1].step is CommitSavepoint));
    }
}

/// Schema files are written and removed only after every statement has run and
/// the savepoint is committed: no later step runs a statement, opens or commits
/// a savepoint, or writes a backup.
pub proof fn files_change_after_commit(
    config: ConfigModel,
    ops: Seq<OpModel>,
    facts: Seq<FactsModel>,
    mounted: bool,
    i: int,
    j: int,
)
    requires
        ops.len() > 0,
        0 <= i < j < carried_out(config, ops, facts, mounted).steps.len(),
        plan::changes_schema(carried_out(config, ops, facts, mounted).steps[i].step),
    ensures
        ({
            let step = carried_out(config, ops, facts, mounted).steps[j].step;
            !(step is RunSql) && !(step is OpenSavepoint) && !(step is CommitSavepoint) && !(
            step is Backup)
        }),
{
    batch_layout(config, ops, facts, mounted);
    let steps = carried_out(config, ops, facts, mounted).steps;
    let n = begun(config, ops, facts, mounted);
    if i < n {
        assert(plan::leaves_tables_alone(steps[i].step));
    }
    assert(n <= i);
    assert(!(steps[j].step is Backup));
}

/// Every statement of a batch runs inside the savepoint.
pub proof fn statements_run_in_savepoint(
    config: ConfigModel,
    ops: Seq<OpModel>,
    facts: Seq<FactsModel>,
    mounted: bool,
    i: int,
)
    requires
        ops.len() > 0,
        0 <= i < carried_out(config, ops, facts, mounted).steps.len(),
        carried_out(config, ops, facts, mounted).steps[i].step is RunSql,
    ensures
        plan::savepoint_open(carried_out(config, ops, facts, mounted).steps, i),
{
    batch_layout(config, ops, facts, mounted);
}

/// The tables are read anew once at most, as the last step.
pub proof fn tables_are_read_anew_last(
    config: ConfigModel,
    ops: Seq<OpModel>,
    facts: Seq<FactsModel>,
    mounted: bool,
    i: int,
)
    requires
        ops.len() > 0,
        0 <= i < carried_out(config, ops, facts, mounted).steps.len(),
        carried_out(config, ops, facts, mounted).steps[i].step is RebuildRegistry,
    ensures
        i == carried_out(config, ops, facts, mounted).steps.len() - 1,
{
    batch_layout(config, ops, facts, mounted);
    let steps = carried_out(config, ops, facts, mounted).steps;
    let n = begun(config, ops, facts, mounted);
    if i < n {
        assert(plan::leaves_tables_alone(steps[i].step));
    }
}

/// Every op that replaces or removes a schema is backed up before.
pub proof fn changes_of_batch_are_backed_up(
    config: ConfigModel,
    ops: Seq<OpModel>,
    k: int,
)
    requires
        backup_phase(config, ops).1 is None,
        0 <= k < ops.len(),
        changed_by(ops[k]) is Some,
    ensures
        ({
            let (table, scope) = changed_by(ops[k])->0;
            exists|j: int|
                0 <= j < backup_phase(config, ops).0.len() && schema_tools::backs_up(
                    (#[trigger] backup_phase(config, ops).0[j]).step,
                    yaml_of(config, scope, table),
                )
        }),
    decreases ops.len(),
{
    let front = backup_phase(config, ops.drop_last()).0;
    let all = backup_phase(config, ops).0;
    let (table, scope) = changed_by(ops[k])->0;
    if k < ops.len() - 1 {
        assert(ops.drop_last()[k] == ops[k]);
        changes_of_batch_are_backed_up(config, ops.drop_last(), k);
        let j = choose|j: int|
            0 <= j < front.len() && schema_tools::backs_up(
                (#[trigger] front[j]).step,
                yaml_of(config, scope, table),
            );
        assert(all[j] == front[j]);
    } else {
        assert(schema_tools::backs_up(all[all.len() - 1].step, yaml_of(config, scope, table)));
    }
}

/// A batch removes no file but schema files.
pub proof fn batch_spares_databases(
    config: ConfigModel,
    ops: Seq<OpModel>,
    facts: Seq<FactsModel>,
)
    requires
        body_phase(config, ops, facts).1 is None,
    ensures
        forall|i: int|
            0 <= i < file_phase(config, ops).len() ==> ((#[trigger] file_phase(
                config,
                ops,
            )[i]).step matches plan::StepModel::RemoveSchema { path } ==> path.len() > 0
                && path.last() == path::PartModel::Name("schema.yaml"@)),
    decreases ops.len(),
{
    if ops.len() > 0 {
        batch_spares_databases(config, ops.drop_last(), facts);
    }
}

/// The ops of a batch with their numbers.
pub open spec fn numbered(ops: Seq<OpModel>) -> Seq<(int, OpModel)> {
    Seq::new(ops.len(), |i: int| (i, ops[i]))
}

/// Whether a text is how a parameter is bound: a text is bound as it is, and
/// anything else as its JSON text.
pub open spec fn bound_as(text: Seq<char>, value: JsonModel) -> bool {
    match value {
        JsonModel::Text(s) => text == s,
        _ => text == json::json_text(value),
    }
}

/// Whether a schema has the table and the fields that an op gives, and nothing
/// else.
pub open spec fn gives(
    schema: SchemaModel,
    table: Seq<char>,
    fields: Seq<schema_tools::InputModel>,
) -> bool {
    &&& schema.table == table
    &&& schema.title is None
    &&& schema.description is None
    &&& schema.dump is None
    &&& schema_tools::fields_as_given(schema.fields, fields)
}

/// Whether a step whose failure comes after the savepoint is committed is reported as
/// a failure of the backup, with `prefix` before the cause.
pub open spec fn told_after_commit(planned: plan::PlannedModel, prefix: Seq<char>) -> bool {
    planned.on_failure == (plan::OnFailureModel::ReportBackup { prefix })
}

/// Whether a step is one that the op of number `i` calls for, on the files of its
/// table in its scope.
pub open spec fn called_for(
    config: ConfigModel,
    planned: plan::PlannedModel,
    i: int,
    op: OpModel,
) -> bool {
    match op {
        OpModel::Query { sql, params, table } => {
            &&& planned.step matches plan::StepModel::RunSql { sql: run, params: bound }
            &&& run == sql
            &&& bound.len() == params.len()
            &&& forall|k: int| 0 <= k < params.len() ==> bound_as(#[trigger] bound[k], params[k])
            &&& planned.on_failure == (plan::OnFailureModel::Abort {
                op_index: i,
                prefix: Seq::empty(),
            })
        },
        OpModel::SchemaCreate { table, scope, fields } => exists|root: Seq<path::PartModel>|
            {
                &&& #[trigger] schema_tools::scope_root(config, scope, root)
                &&& match planned.step {
                    plan::StepModel::CreateDir { path } => path == root.push(
                        path::PartModel::Name(table),
                    ) && planned.on_failure == (plan::OnFailureModel::Abort {
                        op_index: i,
                        prefix: "create_dir_all failed: "@,
                    }),
                    plan::StepModel::WriteSchema { path, schema } => path == schema_tools::yaml_in(
                        root,
                        table,
                    ) && gives(schema, table, fields) && told_after_commit(
                        planned,
                        "deferred YAML rename failed after SAVEPOINT commit: "@,
                    ),
                    plan::StepModel::OpenStore { db_path, schema } => db_path
                        == schema_tools::db_in(root, table) && gives(schema, table, fields)
                        && planned.on_failure is Report,
                    _ => false,
                }
            },
        OpModel::SchemaUpdate { table, scope, fields } => exists|root: Seq<path::PartModel>|
            {
                &&& #[trigger] schema_tools::scope_root(config, scope, root)
                &&& match planned.step {
                    plan::StepModel::WriteSchema { path, schema } => path == schema_tools::yaml_in(
                        root,
                        table,
                    ) && gives(schema, table, fields) && told_after_commit(
                        planned,
                        "deferred YAML rename failed after SAVEPOINT commit: "@,
                    ),
                    _ => guards(config, planned, i, root, table),
                }
            },
        OpModel::SchemaDelete { table, scope } => exists|root: Seq<path::PartModel>|
            {
                &&& #[trigger] schema_tools::scope_root(config, scope, root)
                &&& match planned.step {
                    plan::StepModel::RemoveSchema { path } => path == schema_tools::yaml_in(
                        root,
                        table,
                    ) && told_after_commit(
                        planned,
                        "deferred YAML remove failed after SAVEPOINT commit: "@,
                    ),
                    _ => guards(config, planned, i, root, table),
                }
            },
    }
}

/// Whether a step backs up a table for the op of number `i`, or deletes old backups
/// of it.
pub open spec fn guards(
    config: ConfigModel,
    planned: plan::PlannedModel,
    i: int,
    root: Seq<path::PartModel>,
    table: Seq<char>,
) -> bool {
    match planned.step {
        plan::StepModel::Backup { scope_root, table: t, yaml_path, db_path } => scope_root == root
            && t == table && yaml_path == schema_tools::yaml_in(root, table) && db_path
            == schema_tools::db_in(root, table) && planned.on_failure == (
        plan::OnFailureModel::Abort { op_index: i, prefix: "backup failed: "@ }),
        plan::StepModel::PurgeBackups { scope_root, table: t, retention } => scope_root == root && t
            == table && retention == schema_tools::set_or_ten(config.backup_retention)
            && planned.on_failure is Continue,
        _ => false,
    }
}

/// Whether the steps are those that the ops call for, one for each, in order.
pub open spec fn matched(
    config: ConfigModel,
    steps: Seq<plan::PlannedModel>,
    ops: Seq<(int, OpModel)>,
) -> bool {
    &&& steps.len() == ops.len()
    &&& forall|k: int|
        0 <= k < ops.len() ==> called_for(config, #[trigger] steps[k], ops[k].0, ops[k].1)
}

/// The steps that write or remove schema files.
pub open spec fn changes_in(steps: Seq<plan::PlannedModel>) -> Seq<plan::PlannedModel> {
    steps.filter(|s: plan::PlannedModel| s.step is WriteSchema || s.step is RemoveSchema)
}

/// The steps that run statements.
pub open spec fn statements_in(steps: Seq<plan::PlannedModel>) -> Seq<plan::PlannedModel> {
    steps.filter(|s: plan::PlannedModel| s.step is RunSql)
}

/// The steps that write backups.
pub open spec fn backups_in(steps: Seq<plan::PlannedModel>) -> Seq<plan::PlannedModel> {
    steps.filter(|s: plan::PlannedModel| s.step is Backup)
}

/// The steps that make directories.
pub open spec fn directories_in(steps: Seq<plan::PlannedModel>) -> Seq<plan::PlannedModel> {
    steps.filter(|s: plan::PlannedModel| s.step is CreateDir)
}

/// The steps that delete old backups.
pub open spec fn purges_in(steps: Seq<plan::PlannedModel>) -> Seq<plan::PlannedModel> {
    steps.filter(|s: plan::PlannedModel| s.step is PurgeBackups)
}

/// The steps that open databases.
pub open spec fn openings_in(steps: Seq<plan::PlannedModel>) -> Seq<plan::PlannedModel> {
    steps.filter(|s: plan::PlannedModel| s.step is OpenStore)
}

/// The ops that run statements.
pub open spec fn queries(ops: Seq<OpModel>) -> Seq<(int, OpModel)> {
    numbered(ops).filter(|n: (int, OpModel)| n.1 is Query)
}

/// The ops that change schema files.
pub open spec fn file_ops(ops: Seq<OpModel>) -> Seq<(int, OpModel)> {
    numbered(ops).filter(|n: (int, OpModel)| !(n.1 is Query))
}

/// The ops that replace or remove schemas.
pub open spec fn replacing_ops(ops: Seq<OpModel>) -> Seq<(int, OpModel)> {
    numbered(ops).filter(|n: (int, OpModel)| n.1 is SchemaUpdate || n.1 is SchemaDelete)
}

/// The ops that create schemas.
pub open spec fn creating_ops(ops: Seq<OpModel>) -> Seq<(int, OpModel)> {
    numbered(ops).filter(|n: (int, OpModel)| n.1 is SchemaCreate)
}

/// Whether there is nothing wrong with an op: its name is plain and its scope has a
/// directory, its fields name types, and the schema that it creates is not there.
pub open spec fn op_fine(config: ConfigModel, op: OpModel, exists_already: bool) -> bool {
    match op {
        OpModel::Query { .. } => true,
        OpModel::SchemaCreate { table, scope, fields } => {
            &&& placed(config, table, scope)
            &&& !exists_already
            &&& forall|i: int|
                0 <= i < fields.len() ==> schema_tools::names_a_type((#[trigger] fields[i]).ty)
        },
        OpModel::SchemaUpdate { table, scope, fields } => {
            &&& placed(config, table, scope)
            &&& forall|i: int|
                0 <= i < fields.len() ==> schema_tools::names_a_type((#[trigger] fields[i]).ty)
        },
        OpModel::SchemaDelete { table, scope } => placed(config, table, scope),
    }
}

/// Whether a table has a place in a scope.
pub open spec fn placed(config: ConfigModel, table: Seq<char>, scope: Seq<char>) -> bool {
    &&& schema_tools::plain_name(table)
    &&& exists|root: Seq<path::PartModel>| #[trigger]
        schema_tools::scope_root(config, scope, root)
}

proof fn places_are_resolved(config: ConfigModel, table: Seq<char>, scope: Seq<char>)
    ensures
        placed(config, table, scope) <==> schema_tools::scope_paths(scope, table, config) is Ok,
        schema_tools::scope_paths(scope, table, config) matches Ok(p) ==> schema_tools::scope_root(
            config,
            scope,
            p.0,
        ) && p.1 == schema_tools::yaml_in(p.0, table),
{
    schema_tools::scopes_resolve_to_their_directories(config, scope, table, Seq::empty());
    if placed(config, table, scope) {
        let root = choose|root: Seq<path::PartModel>| #[trigger]
            schema_tools::scope_root(config, scope, root);
        schema_tools::scopes_resolve_to_their_directories(config, scope, table, root);
    }
}

proof fn numbers_go_on(ops: Seq<OpModel>)
    requires
        ops.len() > 0,
    ensures
        numbered(ops).drop_last() == numbered(ops.drop_last()),
        numbered(ops).last() == (ops.len() - 1, ops.last()),
{
    assert(numbered(ops).drop_last() =~= numbered(ops.drop_last()));
}

/// An op is fine as far as the phases of a batch go.
proof fn fine_ops_pass(config: ConfigModel, ops: Seq<OpModel>, facts: Seq<FactsModel>)
    ensures
        (backup_phase(config, ops).1 is None && body_phase(config, ops, facts).1 is None) <==> (
        forall|i: int|
            0 <= i < ops.len() ==> op_fine(config, #[trigger] ops[i], facts[i].exists)),
        body_phase(config, ops, facts).1 is None <==> (forall|i: int|
            0 <= i < ops.len() ==> op_fine(config, #[trigger] ops[i], facts[i].exists)),
    decreases ops.len(),
{
    if ops.len() > 0 {
        let front = ops.drop_last();
        let n = ops.len() - 1;
        fine_ops_pass(config, front, facts);
        assert(ops[n] == ops.last());
        match ops[n] {
            OpModel::Query { .. } => {},
            OpModel::SchemaCreate { table, scope, fields } => {
                places_are_resolved(config, table, scope);
                schema_tools::fields_are_read_as_given(fields);
            },
            OpModel::SchemaUpdate { table, scope, fields } => {
                places_are_resolved(config, table, scope);
                schema_tools::fields_are_read_as_given(fields);
            },
            OpModel::SchemaDelete { table, scope } => {
                places_are_resolved(config, table, scope);
            },
        }
        assert(op_phase(config, ops[n], n, facts[n].exists).1 is None <==> op_fine(
            config,
            ops[n],
            facts[n].exists,
        ));
        if forall|i: int|
            0 <= i < front.len() ==> op_fine(config, #[trigger] front[i], facts[i].exists) {
            assert forall|i: int| 0 <= i < n implies op_fine(
                config,
                #[trigger] ops[i],
                facts[i].exists,
            ) by {
                assert(front[i] == ops[i]);
            }
        } else {
            let i = choose|i: int|
                0 <= i < front.len() && !op_fine(config, #[trigger] front[i], facts[i].exists);
            assert(ops[i] == front[i]);
        }
    }
}

proof fn fine_in_front(config: ConfigModel, ops: Seq<OpModel>, facts: Seq<FactsModel>)
    requires
        ops.len() > 0,
        forall|i: int|
            0 <= i < ops.len() ==> op_fine(config, #[trigger] ops[i], facts[i].exists),
    ensures
        forall|i: int|
            0 <= i < ops.drop_last().len() ==> op_fine(
                config,
                #[trigger] ops.drop_last()[i],
                facts[i].exists,
            ),
        op_fine(config, ops.last(), facts[ops.len() - 1].exists),
{
    assert forall|i: int| 0 <= i < ops.drop_last().len() implies op_fine(
        config,
        #[trigger] ops.drop_last()[i],
        facts[i].exists,
    ) by {
        assert(ops.drop_last()[i] == ops[i]);
    }
    assert(ops[ops.len() - 1] == ops.last());
}

proof fn one_more_matches(
    config: ConfigModel,
    steps: Seq<plan::PlannedModel>,
    ops: Seq<(int, OpModel)>,
    step: plan::PlannedModel,
    op: (int, OpModel),
)
    requires
        matched(config, steps, ops),
        called_for(config, step, op.0, op.1),
    ensures
        matched(config, steps.push(step), ops.push(op)),
{
    let more = steps.push(step);
    assert forall|k: int| 0 <= k < ops.push(op).len() implies called_for(
        config,
        #[trigger] more[k],
        ops.push(op)[k].0,
        ops.push(op)[k].1,
    ) by {
        if k < ops.len() {
            assert(more[k] == steps[k]);
            assert(ops.push(op)[k] == ops[k]);
        }
    }
}

/// Whether the table of an op that replaces or removes a schema has a place in the
/// scope of the op.
pub open spec fn replaceable(config: ConfigModel, op: OpModel) -> bool {
    match op {
        OpModel::SchemaUpdate { table, scope, .. } => placed(config, table, scope),
        OpModel::SchemaDelete { table, scope } => placed(config, table, scope),
        _ => true,
    }
}

#[verifier::spinoff_prover]
proof fn backup_phase_matches(config: ConfigModel, ops: Seq<OpModel>)
    requires
        forall|i: int| 0 <= i < ops.len() ==> replaceable(config, #[trigger] ops[i]),
    ensures
        matched(config, backup_phase(config, ops).0, replacing_ops(ops)),
        backup_phase(config, ops).1 is None,
    decreases ops.len(),
{
    reveal(Seq::filter);
    if ops.len() > 0 {
        let front = ops.drop_last();
        assert forall|i: int| 0 <= i < front.len() implies replaceable(config, #[trigger] front[i]) by {
            assert(front[i] == ops[i]);
        }
        backup_phase_matches(config, front);
        numbers_go_on(ops);
        let last = ops.last();
        let n = ops.len() - 1;
        assert(ops[n] == last);
        match changed_by(last) {
            Some((table, scope)) => {
                places_are_resolved(config, table, scope);
                let root = schema_tools::scope_paths(scope, table, config)->Ok_0.0;
                let step = backup_phase(config, ops).0.last();
                assert(schema_tools::scope_root(config, scope, root));
                assert(guards(config, step, n, root, table));
                assert(called_for(config, step, n, last));
                one_more_matches(
                    config,
                    backup_phase(config, front).0,
                    replacing_ops(front),
                    step,
                    (n, last),
                );
                assert(replacing_ops(ops) =~= replacing_ops(front).push((n, last)));
            },
            None => {
                assert(replacing_ops(ops) =~= replacing_ops(front));
            },
        }
    } else {
        assert(replacing_ops(ops) =~= Seq::<(int, OpModel)>::empty());
    }
}

#[verifier::spinoff_prover]
proof fn purge_phase_matches(config: ConfigModel, ops: Seq<OpModel>, facts: Seq<FactsModel>)
    requires
        forall|i: int|
            0 <= i < ops.len() ==> op_fine(config, #[trigger] ops[i], facts[i].exists),
    ensures
        matched(config, purge_phase(config, ops), replacing_ops(ops)),
    decreases ops.len(),
{
    reveal(Seq::filter);
    if ops.len() > 0 {
        let front = ops.drop_last();
        fine_in_front(config, ops, facts);
        purge_phase_matches(config, front, facts);
        numbers_go_on(ops);
        let last = ops.last();
        let n = ops.len() - 1;
        match changed_by(last) {
            Some((table, scope)) => {
                places_are_resolved(config, table, scope);
                let root = schema_tools::scope_paths(scope, table, config)->Ok_0.0;
                let step = purge_phase(config, ops).last();
                assert(schema_tools::scope_root(config, scope, root));
                assert(guards(config, step, n, root, table));
                assert(called_for(config, step, n, last));
                one_more_matches(
                    config,
                    purge_phase(config, front),
                    replacing_ops(front),
                    step,
                    (n, last),
                );
                assert(replacing_ops(ops) =~= replacing_ops(front).push((n, last)));
            },
            None => {
                assert(replacing_ops(ops) =~= replacing_ops(front));
            },
        }
    } else {
        assert(replacing_ops(ops) =~= Seq::<(int, OpModel)>::empty());
    }
}

proof fn given_schemas_are_given(table: Seq<char>, fields: Seq<schema_tools::InputModel>)
    requires
        forall|i: int|
            0 <= i < fields.len() ==> schema_tools::names_a_type((#[trigger] fields[i]).ty),
    ensures
        gives(schema_given(table, fields), table, fields),
{
    schema_tools::fields_are_read_as_given(fields);
}

#[verifier::spinoff_prover]
proof fn file_phase_matches(config: ConfigModel, ops: Seq<OpModel>, facts: Seq<FactsModel>)
    requires
        forall|i: int|
            0 <= i < ops.len() ==> op_fine(config, #[trigger] ops[i], facts[i].exists),
    ensures
        matched(config, file_phase(config, ops), file_ops(ops)),
    decreases ops.len(),
{
    reveal(Seq::filter);
    if ops.len() > 0 {
        let front = ops.drop_last();
        fine_in_front(config, ops, facts);
        file_phase_matches(config, front, facts);
        numbers_go_on(ops);
        let last = ops.last();
        let n = ops.len() - 1;
        if last is Query {
            assert(file_ops(ops) =~= file_ops(front));
        } else {
            let step = file_phase(config, ops).last();
            match last {
                OpModel::SchemaCreate { table, scope, fields } => {
                    places_are_resolved(config, table, scope);
                    given_schemas_are_given(table, fields);
                    assert(schema_tools::scope_root(
                        config,
                        scope,
                        schema_tools::scope_paths(scope, table, config)->Ok_0.0,
                    ));
                },
                OpModel::SchemaUpdate { table, scope, fields } => {
                    places_are_resolved(config, table, scope);
                    given_schemas_are_given(table, fields);
                    assert(schema_tools::scope_root(
                        config,
                        scope,
                        schema_tools::scope_paths(scope, table, config)->Ok_0.0,
                    ));
                },
                OpModel::SchemaDelete { table, scope } => {
                    places_are_resolved(config, table, scope);
                    assert(schema_tools::scope_root(
                        config,
                        scope,
                        schema_tools::scope_paths(scope, table, config)->Ok_0.0,
                    ));
                },
                OpModel::Query { .. } => {},
            }
            assert(called_for(config, step, n, last));
            one_more_matches(config, file_phase(config, front), file_ops(front), step, (n, last));
            assert(file_ops(ops) =~= file_ops(front).push((n, last)));
        }
    } else {
        assert(file_ops(ops) =~= Seq::<(int, OpModel)>::empty());
    }
}

#[verifier::spinoff_prover]
proof fn open_phase_matches(config: ConfigModel, ops: Seq<OpModel>, facts: Seq<FactsModel>)
    requires
        forall|i: int|
            0 <= i < ops.len() ==> op_fine(config, #[trigger] ops[i], facts[i].exists),
    ensures
        matched(config, open_phase(config, ops), creating_ops(ops)),
    decreases ops.len(),
{
    reveal(Seq::filter);
    if ops.len() > 0 {
        let front = ops.drop_last();
        fine_in_front(config, ops, facts);
        open_phase_matches(config, front, facts);
        numbers_go_on(ops);
        let last = ops.last();
        let n = ops.len() - 1;
        match last {
            OpModel::SchemaCreate { table, scope, fields } => {
                places_are_resolved(config, table, scope);
                given_schemas_are_given(table, fields);
                let step = open_phase(config, ops).last();
                assert(schema_tools::scope_root(
                    config,
                    scope,
                    schema_tools::scope_paths(scope, table, config)->Ok_0.0,
                ));
                assert(called_for(config, step, n, last));
                one_more_matches(
                    config,
                    open_phase(config, front),
                    creating_ops(front),
                    step,
                    (n, last),
                );
                assert(creating_ops(ops) =~= creating_ops(front).push((n, last)));
            },
            _ => {
                assert(creating_ops(ops) =~= creating_ops(front));
            },
        }
    } else {
        assert(creating_ops(ops) =~= Seq::<(int, OpModel)>::empty());
    }
}

proof fn filter_of_one<A>(a: A, pred: spec_fn(A) -> bool)
    ensures
        seq![a].filter(pred) == (if pred(a) {
            seq![a]
        } else {
            Seq::empty()
        }),
{
    reveal(Seq::filter);
    assert(seq![a].drop_last() =~= Seq::<A>::empty());
    assert(Seq::<A>::empty().filter(pred) =~= Seq::<A>::empty());
    assert(seq![a].filter(pred) =~= (if pred(a) {
        seq![a]
    } else {
        Seq::empty()
    }));
}

#[verifier::spinoff_prover]
proof fn body_phase_matches(config: ConfigModel, ops: Seq<OpModel>, facts: Seq<FactsModel>)
    requires
        forall|i: int|
            0 <= i < ops.len() ==> op_fine(config, #[trigger] ops[i], facts[i].exists),
    ensures
        matched(config, statements_in(body_phase(config, ops, facts).0), queries(ops)),
        matched(config, directories_in(body_phase(config, ops, facts).0), creating_ops(ops)),
    decreases ops.len(),
{
    reveal(Seq::filter);
    fine_ops_pass(config, ops, facts);
    if ops.len() > 0 {
        let front = ops.drop_last();
        fine_in_front(config, ops, facts);
        fine_ops_pass(config, front, facts);
        body_phase_matches(config, front, facts);
        numbers_go_on(ops);
        let last = ops.last();
        let n = ops.len() - 1;
        let before = body_phase(config, front, facts).0;
        let more = op_phase(config, last, n, facts[n].exists).0;
        let is_sql = |s: plan::PlannedModel| s.step is RunSql;
        let is_dir = |s: plan::PlannedModel| s.step is CreateDir;
        assert(body_phase(config, ops, facts).0 == before + more);
        Seq::filter_distributes_over_add(before, more, is_sql);
        Seq::filter_distributes_over_add(before, more, is_dir);
        assert(statements_in(before + more) == statements_in(before) + statements_in(more));
        assert(directories_in(before + more) == directories_in(before) + directories_in(more));
        match last {
            OpModel::Query { sql, params, table } => {
                let step = more[0];
                assert(more =~= seq![step]);
                filter_of_one(step, is_sql);
                filter_of_one(step, is_dir);
                assert(called_for(config, step, n, last));
                one_more_matches(config, statements_in(before), queries(front), step, (n, last));
                assert(statements_in(before + more) =~= statements_in(before).push(step));
                assert(directories_in(before + more) =~= directories_in(before));
                assert(queries(ops) =~= queries(front).push((n, last)));
                assert(creating_ops(ops) =~= creating_ops(front));
            },
            OpModel::SchemaCreate { table, scope, fields } => {
                places_are_resolved(config, table, scope);
                schema_tools::fields_are_read_as_given(fields);
                let step = more[0];
                assert(more =~= seq![step]);
                filter_of_one(step, is_sql);
                filter_of_one(step, is_dir);
                assert(schema_tools::scope_root(
                    config,
                    scope,
                    schema_tools::scope_paths(scope, table, config)->Ok_0.0,
                ));
                assert(called_for(config, step, n, last));
                one_more_matches(config, directories_in(before), creating_ops(front), step, (n, last));
                assert(statements_in(before + more) =~= statements_in(before));
                assert(directories_in(before + more) =~= directories_in(before).push(step));
                assert(queries(ops) =~= queries(front));
                assert(creating_ops(ops) =~= creating_ops(front).push((n, last)));
            },
            _ => {
                assert(more =~= Seq::<plan::PlannedModel>::empty());
                assert(before + more =~= before);
                assert(queries(ops) =~= queries(front));
                assert(creating_ops(ops) =~= creating_ops(front));
            },
        }
    } else {
        assert(queries(ops) =~= Seq::<(int, OpModel)>::empty());
        assert(creating_ops(ops) =~= Seq::<(int, OpModel)>::empty());
    }
}

proof fn nothing_passes<A>(s: Seq<A>, pred: spec_fn(A) -> bool)
    requires
        forall|i: int| 0 <= i < s.len() ==> !pred(#[trigger] s[i]),
    ensures
        s.filter(pred) == Seq::<A>::empty(),
    decreases s.len(),
{
    reveal(Seq::filter);
    if s.len() > 0 {
        assert forall|i: int| 0 <= i < s.drop_last().len() implies !pred(
            #[trigger] s.drop_last()[i],
        ) by {
            assert(s.drop_last()[i] == s[i]);
        }
        assert(s[s.len() - 1] == s.last());
        nothing_passes(s.drop_last(), pred);
    } else {
        assert(s =~= Seq::<A>::empty());
    }
}

proof fn everything_passes<A>(s: Seq<A>, pred: spec_fn(A) -> bool)
    requires
        forall|i: int| 0 <= i < s.len() ==> pred(#[trigger] s[i]),
    ensures
        s.filter(pred) == s,
    decreases s.len(),
{
    reveal(Seq::filter);
    if s.len() > 0 {
        assert forall|i: int| 0 <= i < s.drop_last().len() implies pred(
            #[trigger] s.drop_last()[i],
        ) by {
            assert(s.drop_last()[i] == s[i]);
        }
        assert(s[s.len() - 1] == s.last());
        everything_passes(s.drop_last(), pred);
        assert(s.drop_last().push(s.last()) =~= s);
    }
}

proof fn phases_pass_one_by_one(
    b: Seq<plan::PlannedModel>,
    o: Seq<plan::PlannedModel>,
    d: Seq<plan::PlannedModel>,
    c: Seq<plan::PlannedModel>,
    f: Seq<plan::PlannedModel>,
    g: Seq<plan::PlannedModel>,
    h: Seq<plan::PlannedModel>,
    last: Seq<plan::PlannedModel>,
    pred: spec_fn(plan::PlannedModel) -> bool,
)
    ensures
        (b + o + d + c + f + g + h + last).filter(pred) == b.filter(pred) + o.filter(pred)
            + d.filter(pred) + c.filter(pred) + f.filter(pred) + g.filter(pred) + h.filter(pred)
            + last.filter(pred),
{
    Seq::filter_distributes_over_add(b, o, pred);
    Seq::filter_distributes_over_add(b + o, d, pred);
    Seq::filter_distributes_over_add(b + o + d, c, pred);
    Seq::filter_distributes_over_add(b + o + d + c, f, pred);
    Seq::filter_distributes_over_add(b + o + d + c + f, g, pred);
    Seq::filter_distributes_over_add(b + o + d + c + f + g, h, pred);
    Seq::filter_distributes_over_add(b + o + d + c + f + g + h, last, pred);
}

/// The phases of a batch consist of steps of their kinds.
#[verifier::opaque]
pub open spec fn phases_are_pure(
    b: Seq<plan::PlannedModel>,
    o: Seq<plan::PlannedModel>,
    d: Seq<plan::PlannedModel>,
    c: Seq<plan::PlannedModel>,
    f: Seq<plan::PlannedModel>,
    g: Seq<plan::PlannedModel>,
    h: Seq<plan::PlannedModel>,
    last: Seq<plan::PlannedModel>,
) -> bool {
    &&& forall|i: int| 0 <= i < b.len() ==> (#[trigger] b[i]).step is Backup
    &&& forall|i: int| 0 <= i < o.len() ==> (#[trigger] o[i]).step is OpenSavepoint
    &&& forall|i: int|
        0 <= i < d.len() ==> (#[trigger] d[i]).step is CreateDir || d[i].step is RunSql
    &&& forall|i: int| 0 <= i < c.len() ==> (#[trigger] c[i]).step is CommitSavepoint
    &&& forall|i: int|
        0 <= i < f.len() ==> (#[trigger] f[i]).step is WriteSchema || f[i].step is RemoveSchema
    &&& forall|i: int| 0 <= i < g.len() ==> (#[trigger] g[i]).step is PurgeBackups
    &&& forall|i: int| 0 <= i < h.len() ==> (#[trigger] h[i]).step is OpenStore
    &&& forall|i: int| 0 <= i < last.len() ==> (#[trigger] last[i]).step is RebuildRegistry
}

proof fn changes_in_one_phase(
    b: Seq<plan::PlannedModel>,
    o: Seq<plan::PlannedModel>,
    d: Seq<plan::PlannedModel>,
    c: Seq<plan::PlannedModel>,
    f: Seq<plan::PlannedModel>,
    g: Seq<plan::PlannedModel>,
    h: Seq<plan::PlannedModel>,
    last: Seq<plan::PlannedModel>,
)
    requires
        phases_are_pure(b, o, d, c, f, g, h, last),
    ensures
        changes_in(b + o + d + c + f + g + h + last) == f,
{
    let pred = |s: plan::PlannedModel| s.step is WriteSchema || s.step is RemoveSchema;
    reveal(phases_are_pure);
    phases_pass_one_by_one(b, o, d, c, f, g, h, last, pred);
    nothing_passes(b, pred);
    nothing_passes(o, pred);
    nothing_passes(d, pred);
    nothing_passes(c, pred);
    everything_passes(f, pred);
    nothing_passes(g, pred);
    nothing_passes(h, pred);
    nothing_passes(last, pred);
    let none = Seq::<plan::PlannedModel>::empty();
    assert(none + none + none + none + f + none + none + none =~= f);
}

proof fn statements_in_one_phase(
    b: Seq<plan::PlannedModel>,
    o: Seq<plan::PlannedModel>,
    d: Seq<plan::PlannedModel>,
    c: Seq<plan::PlannedModel>,
    f: Seq<plan::PlannedModel>,
    g: Seq<plan::PlannedModel>,
    h: Seq<plan::PlannedModel>,
    last: Seq<plan::PlannedModel>,
)
    requires
        phases_are_pure(b, o, d, c, f, g, h, last),
    ensures
        statements_in(b + o + d + c + f + g + h + last) == statements_in(d),
{
    let pred = |s: plan::PlannedModel| s.step is RunSql;
    reveal(phases_are_pure);
    phases_pass_one_by_one(b, o, d, c, f, g, h, last, pred);
    nothing_passes(b, pred);
    nothing_passes(o, pred);
    nothing_passes(c, pred);
    nothing_passes(f, pred);
    nothing_passes(g, pred);
    nothing_passes(h, pred);
    nothing_passes(last, pred);
    let none = Seq::<plan::PlannedModel>::empty();
    assert(none + none + d.filter(pred) + none + none + none + none + none =~= d.filter(pred));
}

proof fn directories_in_one_phase(
    b: Seq<plan::PlannedModel>,
    o: Seq<plan::PlannedModel>,
    d: Seq<plan::PlannedModel>,
    c: Seq<plan::PlannedModel>,
    f: Seq<plan::PlannedModel>,
    g: Seq<plan::PlannedModel>,
    h: Seq<plan::PlannedModel>,
    last: Seq<plan::PlannedModel>,
)
    requires
        phases_are_pure(b, o, d, c, f, g, h, last),
    ensures
        directories_in(b + o + d + c + f + g + h + last) == directories_in(d),
{
    let pred = |s: plan::PlannedModel| s.step is CreateDir;
    reveal(phases_are_pure);
    phases_pass_one_by_one(b, o, d, c, f, g, h, last, pred);
    nothing_passes(b, pred);
    nothing_passes(o, pred);
    nothing_passes(c, pred);
    nothing_passes(f, pred);
    nothing_passes(g, pred);
    nothing_passes(h, pred);
    nothing_passes(last, pred);
    let none = Seq::<plan::PlannedModel>::empty();
    assert(none + none + d.filter(pred) + none + none + none + none + none =~= d.filter(pred));
}

proof fn backups_in_one_phase(
    b: Seq<plan::PlannedModel>,
    o: Seq<plan::PlannedModel>,
    d: Seq<plan::PlannedModel>,
    c: Seq<plan::PlannedModel>,
    f: Seq<plan::PlannedModel>,
    g: Seq<plan::PlannedModel>,
    h: Seq<plan::PlannedModel>,
    last: Seq<plan::PlannedModel>,
)
    requires
        phases_are_pure(b, o, d, c, f, g, h, last),
    ensures
        backups_in(b + o + d + c + f + g + h + last) == b,
{
    let pred = |s: plan::PlannedModel| s.step is Backup;
    reveal(phases_are_pure);
    phases_pass_one_by_one(b, o, d, c, f, g, h, last, pred);
    everything_passes(b, pred);
    nothing_passes(o, pred);
    nothing_passes(d, pred);
    nothing_passes(c, pred);
    nothing_passes(f, pred);
    nothing_passes(g, pred);
    nothing_passes(h, pred);
    nothing_passes(last, pred);
    let none = Seq::<plan::PlannedModel>::empty();
    assert(b + none + none + none + none + none + none + none =~= b);
}

proof fn purges_in_one_phase(
    b: Seq<plan::PlannedModel>,
    o: Seq<plan::PlannedModel>,
    d: Seq<plan::PlannedModel>,
    c: Seq<plan::PlannedModel>,
    f: Seq<plan::PlannedModel>,
    g: Seq<plan::PlannedModel>,
    h: Seq<plan::PlannedModel>,
    last: Seq<plan::PlannedModel>,
)
    requires
        phases_are_pure(b, o, d, c, f, g, h, last),
    ensures
        purges_in(b + o + d + c + f + g + h + last) == g,
{
    let pred = |s: plan::PlannedModel| s.step is PurgeBackups;
    reveal(phases_are_pure);
    phases_pass_one_by_one(b, o, d, c, f, g, h, last, pred);
    nothing_passes(b, pred);
    nothing_passes(o, pred);
    nothing_passes(d, pred);
    nothing_passes(c, pred);
    nothing_passes(f, pred);
    everything_passes(g, pred);
    nothing_passes(h, pred);
    nothing_passes(last, pred);
    let none = Seq::<plan::PlannedModel>::empty();
    assert(none + none + none + none + none + g + none + none =~= g);
}

proof fn openings_in_one_phase(
    b: Seq<plan::PlannedModel>,
    o: Seq<plan::PlannedModel>,
    d: Seq<plan::PlannedModel>,
    c: Seq<plan::PlannedModel>,
    f: Seq<plan::PlannedModel>,
    g: Seq<plan::PlannedModel>,
    h: Seq<plan::PlannedModel>,
    last: Seq<plan::PlannedModel>,
)
    requires
        phases_are_pure(b, o, d, c, f, g, h, last),
    ensures
        openings_in(b + o + d + c + f + g + h + last) == h,
{
    let pred = |s: plan::PlannedModel| s.step is OpenStore;
    reveal(phases_are_pure);
    phases_pass_one_by_one(b, o, d, c, f, g, h, last, pred);
    nothing_passes(b, pred);
    nothing_passes(o, pred);
    nothing_passes(d, pred);
    nothing_passes(c, pred);
    nothing_passes(f, pred);
    nothing_passes(g, pred);
    everything_passes(h, pred);
    nothing_passes(last, pred);
    let none = Seq::<plan::PlannedModel>::empty();
    assert(none + none + none + none + none + none + h + none =~= h);
}

#[verifier::spinoff_prover]
proof fn batch_phases(
    config: ConfigModel,
    ops: Seq<OpModel>,
    facts: Seq<FactsModel>,
    mounted: bool,
)
    requires
        ops.len() > 0,
        batch_plan(config, ops, false, facts, mounted) is Ok,
        batch_plan(config, ops, false, facts, mounted)->Ok_0.outcome is Ok,
    ensures
        batch_plan(config, ops, false, facts, mounted)->Ok_0.steps == backup_phase(config, ops).0
            + opening(has_query(ops), table_of(ops[0])) + body_phase(config, ops, facts).0
            + committing(has_query(ops)) + file_phase(config, ops) + purge_phase(config, ops)
            + open_phase(config, ops) + seq![plan::reported(plan::StepModel::RebuildRegistry)],
        backup_phase(config, ops).1 is None,
        body_phase(config, ops, facts).1 is None,
        phases_are_pure(
            backup_phase(config, ops).0,
            opening(has_query(ops), table_of(ops[0])),
            body_phase(config, ops, facts).0,
            committing(has_query(ops)),
            file_phase(config, ops),
            purge_phase(config, ops),
            open_phase(config, ops),
            seq![plan::reported(plan::StepModel::RebuildRegistry)],
        ),
{
    reveal(phases_are_pure);
    backup_phase_kind(config, ops);
    body_phase_kind(config, ops, facts);
    file_phase_kind(config, ops);
    purge_phase_kind(config, ops);
    open_phase_kind(config, ops);
}

/// The phases of a batch without a failure are those that its ops call for.
proof fn phases_match(config: ConfigModel, ops: Seq<OpModel>, facts: Seq<FactsModel>)
    requires
        backup_phase(config, ops).1 is None,
        body_phase(config, ops, facts).1 is None,
    ensures
        matched(config, backup_phase(config, ops).0, replacing_ops(ops)),
        matched(config, statements_in(body_phase(config, ops, facts).0), queries(ops)),
        matched(config, directories_in(body_phase(config, ops, facts).0), creating_ops(ops)),
        matched(config, file_phase(config, ops), file_ops(ops)),
        matched(config, purge_phase(config, ops), replacing_ops(ops)),
        matched(config, open_phase(config, ops), creating_ops(ops)),
{
    fine_ops_pass(config, ops, facts);
    assert forall|i: int| 0 <= i < ops.len() implies replaceable(config, #[trigger] ops[i]) by {
        assert(op_fine(config, ops[i], facts[i].exists));
    }
    backup_phase_matches(config, ops);
    body_phase_matches(config, ops, facts);
    file_phase_matches(config, ops, facts);
    purge_phase_matches(config, ops, facts);
    open_phase_matches(config, ops, facts);
}

/// Steps that are phases one after the other match what the phases match.
proof fn phases_together(
    steps: Seq<plan::PlannedModel>,
    b: Seq<plan::PlannedModel>,
    o: Seq<plan::PlannedModel>,
    d: Seq<plan::PlannedModel>,
    c: Seq<plan::PlannedModel>,
    f: Seq<plan::PlannedModel>,
    g: Seq<plan::PlannedModel>,
    h: Seq<plan::PlannedModel>,
    last: Seq<plan::PlannedModel>,
)
    requires
        steps == b + o + d + c + f + g + h + last,
        phases_are_pure(b, o, d, c, f, g, h, last),
    ensures
        changes_in(steps) == f,
        statements_in(steps) == statements_in(d),
        directories_in(steps) == directories_in(d),
        backups_in(steps) == b,
        purges_in(steps) == g,
        openings_in(steps) == h,
{
    changes_in_one_phase(b, o, d, c, f, g, h, last);
    statements_in_one_phase(b, o, d, c, f, g, h, last);
    directories_in_one_phase(b, o, d, c, f, g, h, last);
    backups_in_one_phase(b, o, d, c, f, g, h, last);
    purges_in_one_phase(b, o, d, c, f, g, h, last);
    openings_in_one_phase(b, o, d, c, f, g, h, last);
}

#[verifier::spinoff_prover]
proof fn phases_by_kind(
    config: ConfigModel,
    ops: Seq<OpModel>,
    facts: Seq<FactsModel>,
    mounted: bool,
    steps: Seq<plan::PlannedModel>,
)
    requires
        ops.len() > 0,
        batch_plan(config, ops, false, facts, mounted) is Ok,
        batch_plan(config, ops, false, facts, mounted)->Ok_0.outcome is Ok,
        steps == batch_plan(config, ops, false, facts, mounted)->Ok_0.steps,
    ensures
        backup_phase(config, ops).1 is None,
        body_phase(config, ops, facts).1 is None,
        changes_in(steps) == file_phase(config, ops),
        statements_in(steps) == statements_in(body_phase(config, ops, facts).0),
        directories_in(steps) == directories_in(body_phase(config, ops, facts).0),
        backups_in(steps) == backup_phase(config, ops).0,
        purges_in(steps) == purge_phase(config, ops),
        openings_in(steps) == open_phase(config, ops),
        steps.len() > 0,
        steps.last() == plan::reported(plan::StepModel::RebuildRegistry),
{
    let last = seq![plan::reported(plan::StepModel::RebuildRegistry)];
    batch_phases(config, ops, facts, mounted);
    phases_together(
        steps,
        backup_phase(config, ops).0,
        opening(has_query(ops), table_of(ops[0])),
        body_phase(config, ops, facts).0,
        committing(has_query(ops)),
        file_phase(config, ops),
        purge_phase(config, ops),
        open_phase(config, ops),
        last,
    );
    assert(steps[steps.len() - 1] == last[0]);
}

proof fn matches_by_kind(
    config: ConfigModel,
    ops: Seq<OpModel>,
    facts: Seq<FactsModel>,
    steps: Seq<plan::PlannedModel>,
)
    requires
        backup_phase(config, ops).1 is None,
        body_phase(config, ops, facts).1 is None,
        changes_in(steps) == file_phase(config, ops),
        statements_in(steps) == statements_in(body_phase(config, ops, facts).0),
        directories_in(steps) == directories_in(body_phase(config, ops, facts).0),
        backups_in(steps) == backup_phase(config, ops).0,
        purges_in(steps) == purge_phase(config, ops),
        openings_in(steps) == open_phase(config, ops),
    ensures
        matched(config, changes_in(steps), file_ops(ops)),
        matched(config, statements_in(steps), queries(ops)),
        matched(config, backups_in(steps), replacing_ops(ops)),
        matched(config, purges_in(steps), replacing_ops(ops)),
        matched(config, directories_in(steps), creating_ops(ops)),
        matched(config, openings_in(steps), creating_ops(ops)),
{
    phases_match(config, ops, facts);
}

/// What a batch that goes through does, kind by kind: it writes and removes schema
/// files as the ops say that are no statements, one for each, in their order, to
/// the place of the table in the scope of the op, with the fields that the op gives;
/// it runs the statements of the others, in their order, with their parameters; it
/// backs up, and deletes old backups, for every op that replaces or removes a
/// schema; and it makes a directory and opens a database for every op that creates
/// one. Where something fails, the op of the step is named by its number.
#[verifier::spinoff_prover]
pub proof fn batches_do_what_the_ops_say(
    config: ConfigModel,
    ops: Seq<OpModel>,
    facts: Seq<FactsModel>,
    mounted: bool,
)
    requires
        ops.len() > 0,
        batch_plan(config, ops, false, facts, mounted) is Ok,
        batch_plan(config, ops, false, facts, mounted)->Ok_0.outcome is Ok,
    ensures
        ({
            let steps = batch_plan(config, ops, false, facts, mounted)->Ok_0.steps;
            &&& matched(config, changes_in(steps), file_ops(ops))
            &&& matched(config, statements_in(steps), queries(ops))
            &&& matched(config, backups_in(steps), replacing_ops(ops))
            &&& matched(config, purges_in(steps), replacing_ops(ops))
            &&& matched(config, directories_in(steps), creating_ops(ops))
            &&& matched(config, openings_in(steps), creating_ops(ops))
            &&& steps.len() > 0 && steps.last() == schema_tools::simply(
                plan::StepModel::RebuildRegistry,
            )
        }),
{
    let steps = batch_plan(config, ops, false, facts, mounted)->Ok_0.steps;
    phases_by_kind(config, ops, facts, mounted, steps);
    matches_by_kind(config, ops, facts, steps);
}

proof fn filtered_is_there<A>(s: Seq<A>, pred: spec_fn(A) -> bool, k: int) -> (i: int)
    requires
        0 <= k < s.filter(pred).len(),
    ensures
        0 <= i < s.len(),
        s[i] == s.filter(pred)[k],
        pred(s[i]),
    decreases s.len(),
{
    reveal(Seq::filter);
    let front = s.drop_last();
    if k < front.filter(pred).len() {
        let i = filtered_is_there(front, pred, k);
        assert(s[i] == front[i]);
        i
    } else {
        s.len() - 1
    }
}

/// For every op that creates or replaces a schema, a batch that goes through has a
/// step that writes, to the schema file of the table in the scope of the op, a
/// schema of that table whose fields are those that the op gives, one by one and in
/// order. For every op that removes one, it has a step that removes that file.
#[verifier::spinoff_prover]
pub proof fn every_op_reaches_its_file(
    config: ConfigModel,
    ops: Seq<OpModel>,
    facts: Seq<FactsModel>,
    mounted: bool,
    i: int,
)
    requires
        0 <= i < ops.len(),
        !(ops[i] is Query),
        batch_plan(config, ops, false, facts, mounted) is Ok,
        batch_plan(config, ops, false, facts, mounted)->Ok_0.outcome is Ok,
    ensures
        ({
            let steps = batch_plan(config, ops, false, facts, mounted)->Ok_0.steps;
            exists|k: int|
                0 <= k < steps.len() && ((#[trigger] steps[k]).step is WriteSchema
                    || steps[k].step is RemoveSchema) && called_for(config, steps[k], i, ops[i])
        }),
{
    batches_do_what_the_ops_say(config, ops, facts, mounted);
    let steps = batch_plan(config, ops, false, facts, mounted)->Ok_0.steps;
    let is_change = |n: (int, OpModel)| !(n.1 is Query);
    let all = numbered(ops);
    assert(all[i] == (i, ops[i]));
    all.lemma_filter_contains(is_change, i);
    assert(file_ops(ops).contains((i, ops[i])));
    let j = choose|j: int| 0 <= j < file_ops(ops).len() && file_ops(ops)[j] == (i, ops[i]);
    assert(called_for(config, changes_in(steps)[j], file_ops(ops)[j].0, file_ops(ops)[j].1));
    let pred = |s: plan::PlannedModel| s.step is WriteSchema || s.step is RemoveSchema;
    let k = filtered_is_there(steps, pred, j);
    assert(steps[k] == changes_in(steps)[j]);
}

/// A batch goes through exactly where there is nothing wrong with any of its ops,
/// and the table is mounted if statements are to run on it.
pub proof fn batches_go_through_when_all_ops_are_fine(
    config: ConfigModel,
    ops: Seq<OpModel>,
    facts: Seq<FactsModel>,
    mounted: bool,
)
    requires
        ops.len() > 0,
        forall|i: int| 0 <= i < ops.len() ==> table_of(#[trigger] ops[i]) == table_of(ops[0]),
    ensures
        batch_plan(config, ops, false, facts, mounted) is Ok,
        batch_plan(config, ops, false, facts, mounted)->Ok_0.outcome is Ok <==> (forall|i: int|
            0 <= i < ops.len() ==> op_fine(config, #[trigger] ops[i], facts[i].exists)) && (mounted
            || forall|i: int| 0 <= i < ops.len() ==> !((#[trigger] ops[i]) is Query)),
{
    fine_ops_pass(config, ops, facts);
}

/// Why an op is not fine, as the batch says it.
pub open spec fn said_of(
    config: ConfigModel,
    op: OpModel,
    exists_already: bool,
    reason: Seq<char>,
) -> bool {
    match op {
        OpModel::Query { .. } => false,
        OpModel::SchemaCreate { table, scope, fields } => match schema_tools::scope_paths(
            scope,
            table,
            config,
        ) {
            Err(e) => reason == error::message_of(e),
            Ok(_) => if exists_already {
                reason == error::message_of(ErrorModel::SchemaExists { table })
            } else {
                schema_tools::fields_given(fields) matches Err(e) && reason == error::message_of(e)
            },
        },
        OpModel::SchemaUpdate { table, scope, fields } => match schema_tools::scope_paths(
            scope,
            table,
            config,
        ) {
            Err(e) => reason == error::message_of(e),
            Ok(_) => schema_tools::fields_given(fields) matches Err(e) && reason
                == error::message_of(e),
        },
        OpModel::SchemaDelete { table, scope } => schema_tools::scope_paths(
            scope,
            table,
            config,
        ) matches Err(e) && reason == error::message_of(e),
    }
}

proof fn failures_are_those_of_ops(
    config: ConfigModel,
    ops: Seq<OpModel>,
    facts: Seq<FactsModel>,
)
    ensures
        backup_phase(config, ops).1 matches Some(e) ==> (e matches ErrorModel::BatchAborted {
            op_index,
            reason,
        } && 0 <= op_index < ops.len() && said_of(
            config,
            ops[op_index],
            facts[op_index].exists,
            reason,
        )),
        body_phase(config, ops, facts).1 matches Some(e) ==> (e matches ErrorModel::BatchAborted {
            op_index,
            reason,
        } && 0 <= op_index < ops.len() && said_of(
            config,
            ops[op_index],
            facts[op_index].exists,
            reason,
        ) && forall|j: int|
            0 <= j < op_index ==> op_fine(config, #[trigger] ops[j], facts[j].exists)),
    decreases ops.len(),
{
    if ops.len() > 0 {
        let front = ops.drop_last();
        failures_are_those_of_ops(config, front, facts);
        fine_ops_pass(config, front, facts);
        match body_phase(config, front, facts).1 {
            Some(ErrorModel::BatchAborted { op_index, reason }) => {
                assert(ops[op_index] == front[op_index]);
                assert forall|j: int| 0 <= j < op_index implies op_fine(
                    config,
                    #[trigger] ops[j],
                    facts[j].exists,
                ) by {
                    assert(front[j] == ops[j]);
                }
            },
            _ => {
                assert forall|j: int| 0 <= j < front.len() implies op_fine(
                    config,
                    #[trigger] ops[j],
                    facts[j].exists,
                ) by {
                    assert(front[j] == ops[j]);
                }
            },
        }
        match backup_phase(config, front).1 {
            Some(ErrorModel::BatchAborted { op_index, reason }) => {
                assert(ops[op_index] == front[op_index]);
            },
            _ => {},
        }
    }
}

/// A batch that is given up before its time names an op with which something is
/// wrong, and says what.
pub proof fn batches_say_which_op_is_wrong_and_why(
    config: ConfigModel,
    ops: Seq<OpModel>,
    facts: Seq<FactsModel>,
    mounted: bool,
)
    requires
        ops.len() > 0,
        batch_plan(config, ops, false, facts, mounted) is Ok,
    ensures
        batch_plan(config, ops, false, facts, mounted)->Ok_0.outcome matches Err(e) ==> (match e {
            ErrorModel::BatchAborted { op_index, reason } => 0 <= op_index < ops.len() && said_of(
                config,
                ops[op_index],
                facts[op_index].exists,
                reason,
            ),
            ErrorModel::TableNotFound { table } => !mounted && table == table_of(ops[0])
                && exists|i: int| 0 <= i < ops.len() && (#[trigger] ops[i]) is Query,
            _ => false,
        }),
{
    failures_are_those_of_ops(config, ops, facts);
}

/// A batch without ops does nothing, and says so. Ops on several tables are refused.
pub proof fn batches_are_about_one_table(
    config: ConfigModel,
    ops: Seq<OpModel>,
    dry_run: bool,
    facts: Seq<FactsModel>,
    mounted: bool,
    i: int,
    j: int,
)
    ensures
        ops.len() == 0 ==> (batch_plan(config, ops, dry_run, facts, mounted) matches Ok(p)
            && p.steps.len() == 0 && p.outcome == Ok::<plan::ReportModel, ErrorModel>(
            plan::ReportModel::Batch(
                plan::BatchModel {
                    committed: !dry_run,
                    ops_executed: 0,
                    yaml_writes: Seq::empty(),
                    backups_written: Seq::empty(),
                    registry_rebuilt: false,
                },
            ),
        )),
        0 <= i < ops.len() && 0 <= j < ops.len() && table_of(ops[i]) != table_of(ops[j])
            ==> batch_plan(config, ops, dry_run, facts, mounted) == Err::<
            plan::PlanModel,
            ErrorModel,
        >(
            ErrorModel::Validation {
                field: "ops"@,
                reason: "all ops in a batch must target the same table"@,
            },
        ),
        forall|op: OpModel|
            #![trigger table_of(op)]
            match op {
                OpModel::Query { sql, params, table } => table_of(op) == table,
                OpModel::SchemaCreate { table, scope, fields } => table_of(op) == table,
                OpModel::SchemaUpdate { table, scope, fields } => table_of(op) == table,
                OpModel::SchemaDelete { table, scope } => table_of(op) == table,
            },
{
}

proof fn batch_outcome(
    config: ConfigModel,
    ops: Seq<OpModel>,
    facts: Seq<FactsModel>,
    mounted: bool,
    b: plan::BatchModel,
)
    requires
        ops.len() > 0,
        batch_plan(config, ops, false, facts, mounted) is Ok,
        batch_plan(config, ops, false, facts, mounted)->Ok_0.outcome is Ok,
        b == batch_plan(config, ops, false, facts, mounted)->Ok_0.outcome->Ok_0->Batch_0,
    ensures
        batch_plan(config, ops, false, facts, mounted)->Ok_0.outcome->Ok_0 is Batch,
        b.committed && b.registry_rebuilt && b.ops_executed == ops.len(),
        b.yaml_writes == files_changed(file_phase(config, ops)),
        b.backups_written == backup_dirs(backup_phase(config, ops).0),
{
}

/// Whether a report of a batch lists the files of these steps, and the directories
/// of these backups.
pub open spec fn tells_files(
    b: plan::BatchModel,
    changes: Seq<plan::PlannedModel>,
    backups: Seq<plan::PlannedModel>,
) -> bool {
    &&& b.yaml_writes.len() == changes.len()
    &&& forall|k: int|
        #![trigger b.yaml_writes[k]]
        0 <= k < changes.len() ==> match changes[k].step {
            plan::StepModel::WriteSchema { path, schema } => b.yaml_writes[k] == path,
            plan::StepModel::RemoveSchema { path } => b.yaml_writes[k] == path,
            _ => false,
        }
    &&& b.backups_written.len() == backups.len()
    &&& forall|k: int|
        #![trigger b.backups_written[k]]
        0 <= k < backups.len() ==> match backups[k].step {
            plan::StepModel::Backup { scope_root, table, yaml_path, db_path } =>
            b.backups_written[k] == scope_root.push(path::PartModel::Name("_backup"@)),
            _ => false,
        }
}

proof fn phases_tell_files(config: ConfigModel, ops: Seq<OpModel>, b: plan::BatchModel)
    requires
        b.yaml_writes == files_changed(file_phase(config, ops)),
        b.backups_written == backup_dirs(backup_phase(config, ops).0),
    ensures
        tells_files(b, file_phase(config, ops), backup_phase(config, ops).0),
{
    backup_phase_kind(config, ops);
    file_phase_kind(config, ops);
}

/// What a batch that goes through reports: that it was committed, how many ops it
/// had, the files that its steps write and remove, in order, a directory of backups
/// for each backup, and that the tables were read anew.
#[verifier::spinoff_prover]
pub proof fn batches_report_what_was_done(
    config: ConfigModel,
    ops: Seq<OpModel>,
    facts: Seq<FactsModel>,
    mounted: bool,
)
    requires
        ops.len() > 0,
        batch_plan(config, ops, false, facts, mounted) is Ok,
        batch_plan(config, ops, false, facts, mounted)->Ok_0.outcome is Ok,
    ensures
        ({
            let p = batch_plan(config, ops, false, facts, mounted)->Ok_0;
            &&& p.outcome matches Ok(plan::ReportModel::Batch(b))
            &&& b.committed && b.registry_rebuilt && b.ops_executed == ops.len()
            &&& tells_files(b, changes_in(p.steps), backups_in(p.steps))
        }),
{
    let p = batch_plan(config, ops, false, facts, mounted)->Ok_0;
    let b = p.outcome->Ok_0->Batch_0;
    phases_by_kind(config, ops, facts, mounted, p.steps);
    batch_outcome(config, ops, facts, mounted, b);
    phases_tell_files(config, ops, b);
}

/// A batch that goes through leaves no savepoint open. It opens one, of its table,
/// exactly where it runs statements.
#[verifier::spinoff_prover]
#[verifier::rlimit(40)]
pub proof fn batches_end_committed(
    config: ConfigModel,
    ops: Seq<OpModel>,
    facts: Seq<FactsModel>,
    mounted: bool,
)
    requires
        ops.len() > 0,
        batch_plan(config, ops, false, facts, mounted) is Ok,
        batch_plan(config, ops, false, facts, mounted)->Ok_0.outcome is Ok,
    ensures
        ({
            let steps = batch_plan(config, ops, false, facts, mounted)->Ok_0.steps;
            let query = exists|i: int| 0 <= i < ops.len() && (#[trigger] ops[i]) is Query;
            &&& !plan::left_open(steps, steps.len() as int)
            &&& query ==> exists|k: int|
                0 <= k < steps.len() && #[trigger] steps[k] == schema_tools::simply(
                    plan::StepModel::OpenSavepoint { table: table_of(ops[0]) },
                )
            &&& query ==> exists|k: int|
                0 <= k < steps.len() && #[trigger] steps[k] == schema_tools::simply(
                    plan::StepModel::CommitSavepoint,
                )
            &&& forall|k: int|
                0 <= k < steps.len() && (#[trigger] steps[k]).step is OpenSavepoint ==> query
                    && steps[k].step == (plan::StepModel::OpenSavepoint {
                    table: table_of(ops[0]),
                })
        }),
{
    let steps = batch_plan(config, ops, false, facts, mounted)->Ok_0.steps;
    let query = has_query(ops);
    batch_phases(config, ops, facts, mounted);
    let b = backup_phase(config, ops).0;
    let o = opening(query, table_of(ops[0]));
    let d = body_phase(config, ops, facts).0;
    let c = committing(query);
    let f = file_phase(config, ops);
    let g = purge_phase(config, ops);
    let h = open_phase(config, ops);
    let last = seq![plan::reported(plan::StepModel::RebuildRegistry)];
    savepoint_of_phases(steps, b, o, d, c, f, g, h, last, query, table_of(ops[0]));
}

#[verifier::spinoff_prover]
#[verifier::rlimit(40)]
proof fn savepoint_of_phases(
    steps: Seq<plan::PlannedModel>,
    b: Seq<plan::PlannedModel>,
    o: Seq<plan::PlannedModel>,
    d: Seq<plan::PlannedModel>,
    c: Seq<plan::PlannedModel>,
    f: Seq<plan::PlannedModel>,
    g: Seq<plan::PlannedModel>,
    h: Seq<plan::PlannedModel>,
    last: Seq<plan::PlannedModel>,
    query: bool,
    table: Seq<char>,
)
    requires
        steps == b + o + d + c + f + g + h + last,
        phases_are_pure(b, o, d, c, f, g, h, last),
        o == opening(query, table),
        c == committing(query),
    ensures
        !plan::left_open(steps, steps.len() as int),
        query ==> exists|k: int|
            0 <= k < steps.len() && #[trigger] steps[k] == schema_tools::simply(
                plan::StepModel::OpenSavepoint { table },
            ),
        query ==> exists|k: int|
            0 <= k < steps.len() && #[trigger] steps[k] == schema_tools::simply(
                plan::StepModel::CommitSavepoint,
            ),
        forall|k: int|
            0 <= k < steps.len() && (#[trigger] steps[k]).step is OpenSavepoint ==> query
                && steps[k].step == (plan::StepModel::OpenSavepoint { table }),
{
    reveal(phases_are_pure);
    let front = b + o + d;
    let back = f + g + h + last;
    assert(steps =~= front + c + back);
    assert forall|k: int| 0 <= k < back.len() implies !((#[trigger] back[k]).step is OpenSavepoint) by {
        if k < f.len() {
            assert(back[k] == f[k]);
        } else if k < f.len() + g.len() {
            assert(back[k] == g[k - f.len()]);
        } else if k < f.len() + g.len() + h.len() {
            assert(back[k] == h[k - f.len() - g.len()]);
        } else {
            assert(back[k] == last[k - f.len() - g.len() - h.len()]);
        }
    }
    assert forall|k: int|
        0 <= k < front.len() && (#[trigger] front[k]).step is OpenSavepoint implies query && k
        == b.len() && front[k] == o[0] by {
        if k < b.len() {
            assert(front[k] == b[k]);
        } else if k < b.len() + o.len() {
            assert(front[k] == o[k - b.len()]);
        } else {
            assert(front[k] == d[k - b.len() - o.len()]);
        }
    }
    assert forall|k: int|
        0 <= k < steps.len() && (#[trigger] steps[k]).step is OpenSavepoint implies query && k
        == b.len() && steps[k] == o[0] by {
        if k < front.len() {
            assert(steps[k] == front[k]);
        } else if k < front.len() + c.len() {
            assert(steps[k] == c[k - front.len()]);
        } else {
            assert(steps[k] == back[k - front.len() - c.len()]);
        }
    }
    if query {
        assert(steps[b.len() as int] == front[b.len() as int]);
        assert(front[b.len() as int] == o[0]);
        assert(steps[front.len() as int] == c[0]);
    }
}

proof fn dry_keys_differ()
    ensures
        "op"@ != "sql"@ && "op"@ != "rows_affected"@ && "op"@ != "note"@,
        "sql"@ != "rows_affected"@ && "sql"@ != "note"@ && "rows_affected"@ != "note"@,
        "op"@ != "table"@ && "op"@ != "would_create"@ && "op"@ != "already_exists"@,
        "op"@ != "fields_count"@ && "table"@ != "would_create"@ && "table"@ != "already_exists"@,
        "table"@ != "fields_count"@ && "would_create"@ != "already_exists"@,
        "would_create"@ != "fields_count"@ && "already_exists"@ != "fields_count"@,
        "op"@ != "fields_added"@ && "op"@ != "fields_removed"@ && "op"@ != "rows_unchanged"@,
        "table"@ != "fields_added"@ && "table"@ != "fields_removed"@,
        "table"@ != "rows_unchanged"@ && "fields_added"@ != "fields_removed"@,
        "fields_added"@ != "rows_unchanged"@ && "fields_removed"@ != "rows_unchanged"@,
        "op"@ != "would_remove_yaml"@ && "op"@ != "rows_orphaned"@,
        "table"@ != "would_remove_yaml"@ && "table"@ != "rows_orphaned"@,
        "would_remove_yaml"@ != "rows_orphaned"@,
{
    reveal_strlit("op");
    reveal_strlit("sql");
    reveal_strlit("rows_affected");
    reveal_strlit("note");
    reveal_strlit("table");
    reveal_strlit("would_create");
    reveal_strlit("already_exists");
    reveal_strlit("fields_count");
    reveal_strlit("fields_added");
    reveal_strlit("fields_removed");
    reveal_strlit("rows_unchanged");
    reveal_strlit("would_remove_yaml");
    reveal_strlit("rows_orphaned");
    assert("op"@.len() == 2 && "sql"@.len() == 3 && "note"@.len() == 4 && "table"@.len() == 5);
    assert("rows_affected"@.len() == 13 && "rows_orphaned"@.len() == 13);
    assert("would_create"@.len() == 12 && "would_create"@[0] == 'w');
    assert("fields_count"@.len() == 12 && "fields_count"@[0] == 'f');
    assert("fields_added"@.len() == 12);
    assert("already_exists"@.len() == 14);
    assert("fields_removed"@.len() == 14 && "fields_removed"@[0] == 'f');
    assert("rows_unchanged"@.len() == 14 && "rows_unchanged"@[0] == 'r');
    assert("would_remove_yaml"@.len() == 17);
}

/// An integer as JSON.
pub open spec fn integer(n: int) -> JsonModel {
    JsonModel::Number(json::NumberModel::Integer(n))
}

/// What a dry run says of an op: its kind; of a statement, the statement, and that it
/// does not run; of a schema, the table, and which file would be created, or
/// removed, how many fields it would have, how many rows would stay or be left
/// behind.
pub proof fn dry_batches_say_what_ops_would_do(
    config: ConfigModel,
    op: OpModel,
    fact: FactsModel,
    root: Seq<path::PartModel>,
)
    ensures
        match op {
            OpModel::Query { sql, params, table } => {
                &&& affects_of(config, op, fact) matches Ok(v)
                &&& json::says(v, "op"@, JsonModel::Text("query"@))
                &&& json::says(v, "sql"@, JsonModel::Text(sql))
                &&& json::says(v, "rows_affected"@, JsonModel::Null)
                &&& json::says(v, "note"@, JsonModel::Text("dry_run: SQL not executed"@))
            },
            OpModel::SchemaCreate { table, scope, fields } => schema_tools::plain_name(table)
                && schema_tools::scope_root(config, scope, root) ==> {
                &&& affects_of(config, op, fact) matches Ok(v)
                &&& json::says(v, "op"@, JsonModel::Text("schema_create"@))
                &&& json::says(v, "table"@, JsonModel::Text(table))
                &&& json::says(
                    v,
                    "would_create"@,
                    JsonModel::Text(path::written(schema_tools::yaml_in(root, table))),
                )
                &&& json::says(v, "already_exists"@, JsonModel::Bool(fact.exists))
                &&& json::says(v, "fields_count"@, integer(fields.len() as int))
            },
            OpModel::SchemaUpdate { table, scope, fields } => schema_tools::plain_name(table)
                && schema_tools::scope_root(config, scope, root) ==> (
            match affects_of(config, op, fact) {
                Ok(v) => {
                    &&& forall|i: int|
                        0 <= i < fields.len() ==> schema_tools::names_a_type(
                            (#[trigger] fields[i]).ty,
                        )
                    &&& json::says(v, "op"@, JsonModel::Text("schema_update"@))
                    &&& json::says(v, "table"@, JsonModel::Text(table))
                    &&& json::says(v, "rows_unchanged"@, integer(fact.rows as int))
                },
                Err(e) => schema_tools::fields_given(fields) == Err::<
                    Seq<schema::FieldModel>,
                    ErrorModel,
                >(e),
            }),
            OpModel::SchemaDelete { table, scope } => schema_tools::plain_name(table)
                && schema_tools::scope_root(config, scope, root) ==> {
                &&& affects_of(config, op, fact) matches Ok(v)
                &&& json::says(v, "op"@, JsonModel::Text("schema_delete"@))
                &&& json::says(v, "table"@, JsonModel::Text(table))
                &&& json::says(
                    v,
                    "would_remove_yaml"@,
                    JsonModel::Text(path::written(schema_tools::yaml_in(root, table))),
                )
                &&& json::says(v, "rows_orphaned"@, integer(fact.rows as int))
            },
        },
{
    dry_keys_differ();
    match op {
        OpModel::Query { .. } => {},
        OpModel::SchemaCreate { table, scope, fields } => {
            schema_tools::scopes_resolve_to_their_directories(config, scope, table, root);
        },
        OpModel::SchemaUpdate { table, scope, fields } => {
            schema_tools::scopes_resolve_to_their_directories(config, scope, table, root);
            schema_tools::fields_are_read_as_given(fields);
        },
        OpModel::SchemaDelete { table, scope } => {
            schema_tools::scopes_resolve_to_their_directories(config, scope, table, root);
        },
    }
}

/// What a dry run says of the fields that an op would change: which are new, and
/// which are gone, each list in ascending order; nothing where the old schema cannot
/// be read.
pub proof fn dry_batches_say_how_fields_change(
    config: ConfigModel,
    table: Seq<char>,
    scope: Seq<char>,
    inputs: Seq<schema_tools::InputModel>,
    fact: FactsModel,
    fields: Seq<schema::FieldModel>,
    added: Seq<Seq<char>>,
    removed: Seq<Seq<char>>,
)
    requires
        schema_tools::scope_paths(scope, table, config) is Ok,
        schema_tools::fields_as_given(fields, inputs),
        text::ascending(added) && text::ascending(removed),
        forall|n: Seq<char>| #[trigger]
            added.contains(n) <==> (fact.old matches Some(s) && schema_tools::has_field(fields, n)
                && !schema_tools::has_field(s.fields, n)),
        forall|n: Seq<char>| #[trigger]
            removed.contains(n) <==> (fact.old matches Some(s) && schema_tools::has_field(
                s.fields,
                n,
            ) && !schema_tools::has_field(fields, n)),
    ensures
        ({
            &&& affects_of(
                config,
                OpModel::SchemaUpdate { table, scope, fields: inputs },
                fact,
            ) matches Ok(v)
            &&& exists|l: JsonModel| #[trigger]
                json::says(v, "fields_added"@, l) && json::lists(l, added)
            &&& exists|l: JsonModel| #[trigger]
                json::says(v, "fields_removed"@, l) && json::lists(l, removed)
        }),
{
    dry_keys_differ();
    let op = OpModel::SchemaUpdate { table, scope, fields: inputs };
    schema_tools::given_fields_are_read(fields, inputs);
    match fact.old {
        Some(s) => {
            schema_tools::changed_fields_are_listed(s.fields, fields, added, removed);
        },
        None => {
            assert(added =~= Seq::<Seq<char>>::empty()) by {
                if added.len() > 0 {
                    assert(added.contains(added[0]));
                }
            }
            assert(removed =~= Seq::<Seq<char>>::empty()) by {
                if removed.len() > 0 {
                    assert(removed.contains(removed[0]));
                }
            }
        },
    }
    let v = affects_of(config, op, fact)->Ok_0;
    assert(json::says(v, "fields_added"@, error::text_list(added)));
    assert(json::says(v, "fields_removed"@, error::text_list(removed)));
    assert(json::lists(error::text_list(added), added));
    assert(json::lists(error::text_list(removed), removed));
}

proof fn outcome_keys_differ()
    ensures
        "committed"@ != "dry_run"@ && "committed"@ != "ops_executed"@ && "committed"@ != "affects"@,
        "committed"@ != "yaml_writes"@ && "committed"@ != "backups_written"@,
        "committed"@ != "registry_rebuilt"@ && "dry_run"@ != "ops_executed"@,
        "dry_run"@ != "affects"@ && "dry_run"@ != "yaml_writes"@,
        "dry_run"@ != "backups_written"@ && "dry_run"@ != "registry_rebuilt"@,
        "ops_executed"@ != "affects"@ && "ops_executed"@ != "yaml_writes"@,
        "ops_executed"@ != "backups_written"@ && "ops_executed"@ != "registry_rebuilt"@,
        "affects"@ != "yaml_writes"@ && "affects"@ != "backups_written"@,
        "affects"@ != "registry_rebuilt"@ && "yaml_writes"@ != "backups_written"@,
        "yaml_writes"@ != "registry_rebuilt"@ && "backups_written"@ != "registry_rebuilt"@,
{
    reveal_strlit("committed");
    reveal_strlit("dry_run");
    reveal_strlit("ops_executed");
    reveal_strlit("affects");
    reveal_strlit("yaml_writes");
    reveal_strlit("backups_written");
    reveal_strlit("registry_rebuilt");
    assert("committed"@.len() == 9 && "ops_executed"@.len() == 12 && "yaml_writes"@.len() == 11);
    assert("backups_written"@.len() == 15 && "registry_rebuilt"@.len() == 16);
    assert("dry_run"@.len() == 7 && "dry_run"@[0] == 'd');
    assert("affects"@.len() == 7 && "affects"@[0] == 'a');
}

proof fn affects_come_in_order(config: ConfigModel, ops: Seq<OpModel>, facts: Seq<FactsModel>)
    ensures
        all_affects(config, ops, facts) matches Ok(v) ==> v.len() == ops.len() && forall|i: int|
            0 <= i < ops.len() ==> affects_of(config, #[trigger] ops[i], facts[i]) == Ok::<
                JsonModel,
                ErrorModel,
            >(v[i]),
        all_affects(config, ops, facts) matches Err(e) ==> exists|k: int|
            #![trigger ops[k]]
            0 <= k < ops.len() && (affects_of(config, ops[k], facts[k]) matches Err(cause) && e == (
            ErrorModel::BatchAborted { op_index: k, reason: error::message_of(cause) }))
                && forall|j: int| 0 <= j < k ==> affects_of(config, #[trigger] ops[j], facts[j]) is Ok,
    decreases ops.len(),
{
    if ops.len() > 0 {
        let front = ops.drop_last();
        let n = ops.len() - 1;
        affects_come_in_order(config, front, facts);
        assert(ops[n] == ops.last());
        match all_affects(config, front, facts) {
            Ok(v) => {
                assert forall|i: int| 0 <= i < n implies affects_of(
                    config,
                    #[trigger] ops[i],
                    facts[i],
                ) == Ok::<JsonModel, ErrorModel>(v[i]) by {
                    assert(front[i] == ops[i]);
                }
            },
            Err(e) => {
                let k = choose|k: int|
                    #![trigger front[k]]
                    0 <= k < front.len() && (affects_of(config, front[k], facts[k]) matches Err(
                        cause,
                    ) && e == (ErrorModel::BatchAborted {
                        op_index: k,
                        reason: error::message_of(cause),
                    })) && forall|j: int|
                        0 <= j < k ==> affects_of(config, #[trigger] front[j], facts[j]) is Ok;
                assert(ops[k] == front[k]);
                assert forall|j: int| 0 <= j < k implies affects_of(
                    config,
                    #[trigger] ops[j],
                    facts[j],
                ) is Ok by {
                    assert(front[j] == ops[j]);
                }
            },
        }
    }
}

/// What a dry run of a batch reports: that nothing is committed, how many ops there
/// are, and what each of them would affect, in order; or, where that cannot be said
/// of an op, the first such op and why. It plans nothing.
pub proof fn dry_batches_report_every_op(
    config: ConfigModel,
    ops: Seq<OpModel>,
    facts: Seq<FactsModel>,
    mounted: bool,
)
    requires
        ops.len() > 0,
        forall|i: int| 0 <= i < ops.len() ==> table_of(#[trigger] ops[i]) == table_of(ops[0]),
    ensures
        match batch_plan(config, ops, true, facts, mounted) {
            Ok(p) => {
                &&& p.steps.len() == 0
                &&& p.outcome matches Ok(plan::ReportModel::Json(report))
                &&& json::says(report, "committed"@, JsonModel::Bool(false))
                &&& json::says(report, "dry_run"@, JsonModel::Bool(true))
                &&& json::says(report, "registry_rebuilt"@, JsonModel::Bool(false))
                &&& json::says(report, "ops_executed"@, integer(ops.len() as int))
                &&& json::says(report, "yaml_writes"@, JsonModel::Array(Seq::empty()))
                &&& json::says(report, "backups_written"@, JsonModel::Array(Seq::empty()))
                &&& exists|l: Seq<JsonModel>| #[trigger]
                    json::says(report, "affects"@, JsonModel::Array(l)) && l.len() == ops.len()
                        && forall|i: int|
                        0 <= i < ops.len() ==> affects_of(config, #[trigger] ops[i], facts[i])
                            == Ok::<JsonModel, ErrorModel>(l[i])
            },
            Err(e) => exists|k: int|
                #![trigger ops[k]]
                0 <= k < ops.len() && (affects_of(config, ops[k], facts[k]) matches Err(cause) && e
                    == (ErrorModel::BatchAborted {
                    op_index: k,
                    reason: error::message_of(cause),
                })) && forall|j: int|
                    0 <= j < k ==> affects_of(config, #[trigger] ops[j], facts[j]) is Ok,
        },
{
    outcome_keys_differ();
    affects_come_in_order(config, ops, facts);
    match all_affects(config, ops, facts) {
        Ok(l) => {
            let report = dry_run_outcome(l, ops.len());
            assert(json::says(report, "affects"@, JsonModel::Array(l)));
        },
        Err(_) => {},
    }
}

/// Ops and what was read for them say what they hold.
pub proof fn ops_say_what_they_hold(op: BatchOp, fact: OpFacts)
    ensures
        match op {
            BatchOp::Query { sql, params, table } => op@ == (OpModel::Query {
                sql: sql@,
                params: if params is Some {
                    params->0@.map_values(|v: JsonValue| v@)
                } else {
                    Seq::empty()
                },
                table: table@,
            }),
            BatchOp::SchemaCreate { table, scope, fields } => op@ == (OpModel::SchemaCreate {
                table: table@,
                scope: scope@,
                fields: fields@.map_values(|f: FieldDefInput| f@),
            }),
            BatchOp::SchemaUpdate { table, scope, fields } => op@ == (OpModel::SchemaUpdate {
                table: table@,
                scope: scope@,
                fields: fields@.map_values(|f: FieldDefInput| f@),
            }),
            BatchOp::SchemaDelete { table, scope } => op@ == (OpModel::SchemaDelete {
                table: table@,
                scope: scope@,
            }),
        },
        fact@.exists == fact.exists && fact@.rows == fact.rows,
        fact.old matches Some(s) ==> fact@.old == Some(s@),
        fact.old is None ==> fact@.old is None,
{
}

/// Ops and what was read for them stand for themselves, in their order, and outcomes
/// are what was returned.
pub proof fn batches_hold_their_ops_in_order(
    ops: Seq<BatchOp>,
    facts: Seq<OpFacts>,
    v: JsonValue,
    e: MiniAppError,
    i: int,
)
    ensures
        op_models(ops).len() == ops.len(),
        0 <= i < ops.len() ==> op_models(ops)[i] == ops[i]@,
        fact_models(facts).len() == facts.len(),
        0 <= i < facts.len() ==> fact_models(facts)[i] == facts[i]@,
        affects_outcome(Ok(v)) == Ok::<JsonModel, ErrorModel>(v@),
        affects_outcome(Err(e)) == Err::<JsonModel, ErrorModel>(e@),
{
}

/// The stages of a batch: backups, the savepoint, statements and directories, the end
/// of the savepoint, schema files, old backups, databases, and the tables anew.
pub open spec fn stage_of(step: plan::StepModel) -> int {
    match step {
        plan::StepModel::Backup { .. } => 0,
        plan::StepModel::OpenSavepoint { .. } => 1,
        plan::StepModel::RunSql { .. } => 2,
        plan::StepModel::CreateDir { .. } => 2,
        plan::StepModel::CommitSavepoint => 3,
        plan::StepModel::WriteSchema { .. } => 4,
        plan::StepModel::RemoveSchema { .. } => 4,
        plan::StepModel::PurgeBackups { .. } => 5,
        plan::StepModel::OpenStore { .. } => 6,
        plan::StepModel::RebuildRegistry => 7,
    }
}

proof fn phases_are_stages(
    b: Seq<plan::PlannedModel>,
    o: Seq<plan::PlannedModel>,
    d: Seq<plan::PlannedModel>,
    c: Seq<plan::PlannedModel>,
    f: Seq<plan::PlannedModel>,
    g: Seq<plan::PlannedModel>,
    h: Seq<plan::PlannedModel>,
    last: Seq<plan::PlannedModel>,
)
    requires
        phases_are_pure(b, o, d, c, f, g, h, last),
    ensures
        ({
            let all = b + o + d + c + f + g + h + last;
            forall|i: int, j: int|
                0 <= i <= j < all.len() ==> stage_of((#[trigger] all[i]).step) <= stage_of(
                    (#[trigger] all[j]).step,
                )
        }),
{
    reveal(phases_are_pure);
    let all = b + o + d + c + f + g + h + last;
    let n1 = b.len() as int;
    let n2 = n1 + o.len();
    let n3 = n2 + d.len();
    let n4 = n3 + c.len();
    let n5 = n4 + f.len();
    let n6 = n5 + g.len();
    let n7 = n6 + h.len();
    assert forall|i: int| 0 <= i < all.len() implies stage_of((#[trigger] all[i]).step) == (if i
        < n1 {
        0int
    } else if i < n2 {
        1
    } else if i < n3 {
        2
    } else if i < n4 {
        3
    } else if i < n5 {
        4
    } else if i < n6 {
        5
    } else if i < n7 {
        6
    } else {
        7
    }) by {
        if i < n1 {
            assert(all[i] == b[i]);
        } else if i < n2 {
            assert(all[i] == o[i - n1]);
        } else if i < n3 {
            assert(all[i] == d[i - n2]);
        } else if i < n4 {
            assert(all[i] == c[i - n3]);
        } else if i < n5 {
            assert(all[i] == f[i - n4]);
        } else if i < n6 {
            assert(all[i] == g[i - n5]);
        } else if i < n7 {
            assert(all[i] == h[i - n6]);
        } else {
            assert(all[i] == last[i - n7]);
        }
    }
}

/// A batch goes stage by stage: backups come first, then the savepoint is opened,
/// statements run and directories are made, the savepoint is committed, schema files
/// change, old backups are deleted, databases are opened, and the tables are read
/// anew. A batch that does not go through gets no further than its statements.
#[verifier::spinoff_prover]
pub proof fn batches_go_stage_by_stage(
    config: ConfigModel,
    ops: Seq<OpModel>,
    facts: Seq<FactsModel>,
    mounted: bool,
    i: int,
    j: int,
)
    requires
        ops.len() > 0,
        batch_plan(config, ops, false, facts, mounted) is Ok,
    ensures
        ({
            let p = batch_plan(config, ops, false, facts, mounted)->Ok_0;
            &&& 0 <= i <= j < p.steps.len() ==> stage_of(p.steps[i].step) <= stage_of(
                p.steps[j].step,
            )
            &&& 0 <= i < p.steps.len() && p.outcome is Err ==> stage_of(p.steps[i].step) <= 2
        }),
{
    let p = batch_plan(config, ops, false, facts, mounted)->Ok_0;
    let b = backup_phase(config, ops).0;
    let o = opening(has_query(ops), table_of(ops[0]));
    let d = body_phase(config, ops, facts).0;
    let none = Seq::<plan::PlannedModel>::empty();
    backup_phase_kind(config, ops);
    body_phase_kind(config, ops, facts);
    if p.outcome is Ok {
        batch_phases(config, ops, facts, mounted);
        phases_are_stages(
            b,
            o,
            d,
            committing(has_query(ops)),
            file_phase(config, ops),
            purge_phase(config, ops),
            open_phase(config, ops),
            seq![plan::reported(plan::StepModel::RebuildRegistry)],
        );
    } else if backup_phase(config, ops).1 is Some || (has_query(ops) && !mounted) {
        assert(p.steps == b);
    } else {
        assert(p.steps == b + o + d);
        assert(phases_are_pure(b, o, d, none, none, none, none, none)) by {
            reveal(phases_are_pure);
        }
        phases_are_stages(b, o, d, none, none, none, none, none);
        assert(b + o + d + none + none + none + none + none =~= b + o + d);
        if 0 <= i < p.steps.len() {
            if i < b.len() {
                assert(p.steps[i] == b[i]);
            } else if i < b.len() + o.len() {
                assert(p.steps[i] == o[i - b.len()]);
            } else {
                assert(p.steps[i] == d[i - b.len() - o.len()]);
            }
        }
    }
}

/// Whether the op of number `k` is the first for which `good` does not hold.
pub open spec fn first_bad(ops: Seq<OpModel>, good: spec_fn(int, OpModel) -> bool, k: int) -> bool {
    &&& 0 <= k < ops.len()
    &&& !good(k, ops[k])
    &&& forall|j: int| 0 <= j < k ==> good(j, #[trigger] ops[j])
}

proof fn backups_stop_at(config: ConfigModel, ops: Seq<OpModel>, k: int)
    requires
        first_bad(ops, |i: int, op: OpModel| replaceable(config, op), k),
    ensures
        matched(config, backup_phase(config, ops).0, replacing_ops(ops.take(k))),
        backup_phase(config, ops).1 matches Some(e) && e is BatchAborted && e->op_index == k,
{
    let good = |i: int, op: OpModel| replaceable(config, op);
    let before = ops.take(k);
    assert forall|i: int| 0 <= i < before.len() implies replaceable(config, #[trigger] before[i]) by {
        assert(before[i] == ops[i]);
        assert(good(i, ops[i]));
    }
    assert(!good(k, ops[k]));
    backup_phase_matches(config, before);
    assert(ops.take(k + 1).drop_last() =~= before);
    assert(ops.take(k + 1).last() == ops[k]);
    match ops[k] {
        OpModel::SchemaUpdate { table, scope, .. } => {
            places_are_resolved(config, table, scope);
        },
        OpModel::SchemaDelete { table, scope } => {
            places_are_resolved(config, table, scope);
        },
        _ => {},
    }
    backup_phase_fails_early(config, ops, k + 1);
}

#[verifier::spinoff_prover]
proof fn body_stops_at(config: ConfigModel, ops: Seq<OpModel>, facts: Seq<FactsModel>, k: int)
    requires
        first_bad(ops, |i: int, op: OpModel| op_fine(config, op, facts[i].exists), k),
    ensures
        body_phase(config, ops, facts).0 == body_phase(config, ops.take(k), facts).0,
        body_phase(config, ops, facts).1 matches Some(e) && e is BatchAborted && e->op_index == k,
        forall|i: int|
            0 <= i < ops.take(k).len() ==> op_fine(
                config,
                #[trigger] ops.take(k)[i],
                facts[i].exists,
            ),
{
    let good = |i: int, op: OpModel| op_fine(config, op, facts[i].exists);
    let before = ops.take(k);
    assert forall|i: int| 0 <= i < before.len() implies op_fine(
        config,
        #[trigger] before[i],
        facts[i].exists,
    ) by {
        assert(before[i] == ops[i]);
        assert(good(i, ops[i]));
    }
    assert(!good(k, ops[k]));
    fine_ops_pass(config, before, facts);
    let upto = ops.take(k + 1);
    assert(upto.drop_last() =~= before);
    assert(upto.last() == ops[k]);
    fine_ops_pass(config, upto, facts);
    assert(upto[k] == ops[k]);
    assert(body_phase(config, upto, facts).1 is Some);
    let more = op_phase(config, ops[k], k, facts[k].exists);
    assert(body_phase(config, upto, facts) == (body_phase(config, before, facts).0 + more.0, more.1));
    assert(more.0 =~= Seq::<plan::PlannedModel>::empty());
    assert(body_phase(config, before, facts).0 + more.0 =~= body_phase(config, before, facts).0);
    body_phase_fails_early(config, ops, facts, k + 1);
}

/// How far a batch gets in which something is wrong. Where an op that replaces or
/// removes a schema has no place for it, the first such op is named, and only the
/// backups of the ops before it are written. Otherwise all backups are written; then,
/// where statements are to run on a table that is not mounted, that is reported; and
/// otherwise the first op with which something is wrong is named, after the statements
/// and the directories of the ops before it.
#[verifier::spinoff_prover]
pub proof fn batches_stop_at_the_first_wrong_op(
    config: ConfigModel,
    ops: Seq<OpModel>,
    facts: Seq<FactsModel>,
    mounted: bool,
    k: int,
)
    requires
        batch_plan(config, ops, false, facts, mounted) is Ok,
    ensures
        ({
            let p = batch_plan(config, ops, false, facts, mounted)->Ok_0;
            let homeless = first_bad(ops, |i: int, op: OpModel| replaceable(config, op), k);
            let wrong = first_bad(
                ops,
                |i: int, op: OpModel| op_fine(config, op, facts[i].exists),
                k,
            );
            let all_placed = forall|i: int|
                0 <= i < ops.len() ==> replaceable(config, #[trigger] ops[i]);
            let runs = exists|i: int| 0 <= i < ops.len() && (#[trigger] ops[i]) is Query;
            &&& homeless ==> {
                &&& p.outcome matches Err(e) && e is BatchAborted && e->op_index == k
                &&& matched(config, p.steps, replacing_ops(ops.take(k)))
            }
            &&& ops.len() > 0 && all_placed && runs && !mounted ==> {
                &&& p.outcome == Err::<plan::ReportModel, ErrorModel>(
                    ErrorModel::TableNotFound { table: table_of(ops[0]) },
                )
                &&& matched(config, p.steps, replacing_ops(ops))
            }
            &&& all_placed && (mounted || !runs) && wrong ==> {
                &&& p.outcome matches Err(e) && e is BatchAborted && e->op_index == k
                &&& matched(config, backups_in(p.steps), replacing_ops(ops))
                &&& matched(config, statements_in(p.steps), queries(ops.take(k)))
                &&& matched(config, directories_in(p.steps), creating_ops(ops.take(k)))
            }
        }),
{
    let p = batch_plan(config, ops, false, facts, mounted)->Ok_0;
    let all_placed = forall|i: int| 0 <= i < ops.len() ==> replaceable(config, #[trigger] ops[i]);
    if first_bad(ops, |i: int, op: OpModel| replaceable(config, op), k) {
        backups_stop_at(config, ops, k);
    }
    if ops.len() > 0 && all_placed {
        backup_phase_matches(config, ops);
        if (mounted || !has_query(ops)) && first_bad(
            ops,
            |i: int, op: OpModel| op_fine(config, op, facts[i].exists),
            k,
        ) {
            let b = backup_phase(config, ops).0;
            let o = opening(has_query(ops), table_of(ops[0]));
            let d = body_phase(config, ops, facts).0;
            let none = Seq::<plan::PlannedModel>::empty();
            body_stops_at(config, ops, facts, k);
            body_phase_matches(config, ops.take(k), facts);
            backup_phase_kind(config, ops);
            body_phase_kind(config, ops, facts);
            assert(phases_are_pure(b, o, d, none, none, none, none, none)) by {
                reveal(phases_are_pure);
            }
            assert(p.steps == b + o + d);
            assert(b + o + d + none + none + none + none + none =~= p.steps);
            backups_in_one_phase(b, o, d, none, none, none, none, none);
            statements_in_one_phase(b, o, d, none, none, none, none, none);
            directories_in_one_phase(b, o, d, none, none, none, none, none);
        }
    }
}

} // verus!
