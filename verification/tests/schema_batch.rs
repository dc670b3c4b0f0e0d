use mini_app_mcp::config::Config;
use mini_app_mcp::error::MiniAppError;
use mini_app_mcp::json;
use mini_app_mcp::mcp::plan::{Next, Plan, Report, Step, StepError};
use mini_app_mcp::mcp::schema_batch::{
    compute_op_affects, execute_batch, BatchOp, OpFacts, SchemaBatchParams,
};
use mini_app_mcp::mcp::schema_tools::FieldDefInput;
use mini_app_mcp::mcp::server::report_text;
use mini_app_mcp::path::{FilePath, PathPart};

fn config() -> Config {
    Config {
        schema_path: None,
        db_path: None,
        user_dir: None,
        project_dir: Some(FilePath::new(vec![
            PathPart::Root("/".to_string()),
            PathPart::Name("p".to_string()),
        ])),
        backup_retention: Some(2),
        snapshot_retention: None,
    }
}

fn input(ty: &str) -> Vec<FieldDefInput> {
    vec![FieldDefInput {
        name: "title".to_string(),
        ty: ty.to_string(),
        required: true,
        description: None,
    }]
}

fn query(sql: &str, table: &str) -> BatchOp {
    BatchOp::Query {
        sql: sql.to_string(),
        params: None,
        table: table.to_string(),
    }
}

fn create(ty: &str) -> BatchOp {
    BatchOp::SchemaCreate {
        table: "items".to_string(),
        scope: "project".to_string(),
        fields: input(ty),
    }
}

fn update(ty: &str) -> BatchOp {
    BatchOp::SchemaUpdate {
        table: "items".to_string(),
        scope: "project".to_string(),
        fields: input(ty),
    }
}

fn delete(scope: &str) -> BatchOp {
    BatchOp::SchemaDelete {
        table: "items".to_string(),
        scope: scope.to_string(),
    }
}

fn facts(n: usize, exists: bool) -> Vec<OpFacts> {
    (0..n).map(|_| OpFacts { exists, old: None, rows: 5 }).collect()
}

fn plan_of(ops: Vec<BatchOp>, exists: bool, mounted: bool) -> Result<Plan, MiniAppError> {
    let known = facts(ops.len(), exists);
    execute_batch(&config(), &SchemaBatchParams { ops, dry_run: false }, &known, mounted)
}

fn kinds(plan: &Plan) -> Vec<&'static str> {
    plan.steps
        .iter()
        .map(|s| match &s.step {
            Step::Backup { .. } => "backup",
            Step::CreateDir { .. } => "dir",
            Step::WriteSchema { .. } => "write",
            Step::RemoveSchema { .. } => "remove",
            Step::PurgeBackups { .. } => "purge",
            Step::OpenStore { .. } => "open",
            Step::RebuildRegistry => "rebuild",
            Step::OpenSavepoint { .. } => "savepoint",
            Step::RunSql { .. } => "sql",
            Step::CommitSavepoint => "commit",
        })
        .collect()
}

#[test]
fn ops_on_two_tables_are_refused() {
    assert_eq!(
        plan_of(vec![query("SELECT 1", "table_a"), query("SELECT 1", "table_b")], false, true),
        Err(MiniAppError::Validation {
            field: "ops".to_string(),
            reason: "all ops in a batch must target the same table".to_string(),
        })
    );
    assert_eq!(query("SELECT 1", "table_a").table_name(), "table_a");
    assert_eq!(delete("project").table_name(), "items");
}

#[test]
fn an_empty_batch_does_nothing() {
    let plan = plan_of(vec![], false, false).expect("plan");
    assert!(plan.steps.is_empty());
    let Ok(Report::Batch(r)) = plan.outcome else { panic!("a batch") };
    assert!(r.committed);
    assert_eq!(
        report_text(Report::Batch(r)),
        r#"{"committed":true,"ops_executed":0,"yaml_writes":[],"backups_written":[],"registry_rebuilt":false}"#
    );
}

#[test]
fn a_whole_batch_in_order() {
    let plan = plan_of(
        vec![update("string"), query("A", "items"), query("B", "items"), delete("project")],
        true,
        true,
    )
    .expect("plan");
    assert_eq!(
        kinds(&plan),
        vec![
            "backup", "backup", "savepoint", "sql", "sql", "commit", "write", "remove", "purge",
            "purge", "rebuild"
        ]
    );
    let Ok(report) = plan.outcome else { panic!("success") };
    assert_eq!(
        report_text(report),
        r#"{"committed":true,"ops_executed":4,"yaml_writes":["/p/items/schema.yaml","/p/items/schema.yaml"],"backups_written":["/p/_backup","/p/_backup"],"registry_rebuilt":true}"#
    );
}

#[test]
fn creating_in_a_batch() {
    let plan = plan_of(vec![create("string")], false, false).expect("plan");
    assert_eq!(kinds(&plan), vec!["dir", "write", "open", "rebuild"]);
    let plan = plan_of(vec![create("string")], true, false).expect("plan");
    assert!(plan.steps.is_empty());
    assert_eq!(
        plan.outcome,
        Err(MiniAppError::BatchAborted {
            op_index: 0,
            reason: "schema already exists: items".to_string(),
        })
    );
}

#[test]
fn statements_need_a_mounted_table() {
    let plan = plan_of(vec![query("A", "items"), delete("project")], true, false).expect("plan");
    assert_eq!(kinds(&plan), vec!["backup"]);
    assert_eq!(
        plan.outcome,
        Err(MiniAppError::TableNotFound { table: "items".to_string() })
    );
}

#[test]
fn an_unsound_op_leaves_the_savepoint_to_be_rolled_back() {
    let plan = plan_of(vec![query("A", "items"), update("text"), query("B", "items")], true, true)
        .expect("plan");
    assert_eq!(kinds(&plan), vec!["backup", "savepoint", "sql"]);
    assert_eq!(plan.next(3), Next::Finish { rollback: true });
    match &plan.outcome {
        Err(MiniAppError::BatchAborted { op_index, reason }) => {
            assert_eq!(*op_index, 1);
            assert_eq!(
                reason,
                "validation error on field 'fields[title].type': unknown type 'text'; must be one of: string, number, boolean, array, object"
            );
        }
        other => panic!("unexpected {other:?}"),
    }
    let plan = plan_of(vec![delete("user")], true, true).expect("plan");
    assert_eq!(
        plan.outcome,
        Err(MiniAppError::BatchAborted {
            op_index: 0,
            reason: "config error: user scope requires MINI_APP_USER_DIR".to_string(),
        })
    );
}

#[test]
fn a_bad_scope_or_name_is_reported_with_its_op() {
    let plan = plan_of(
        vec![BatchOp::SchemaUpdate {
            table: "t".to_string(),
            scope: "bogus".to_string(),
            fields: vec![],
        }],
        false,
        false,
    )
    .expect("plan");
    assert!(plan.steps.is_empty());
    assert_eq!(
        plan.outcome,
        Err(MiniAppError::BatchAborted {
            op_index: 0,
            reason: "validation error on field 'scope': invalid scope 'bogus'; must be 'project' or 'user'"
                .to_string(),
        })
    );
    let plan = plan_of(
        vec![
            query("A", "../x"),
            BatchOp::SchemaCreate {
                table: "../x".to_string(),
                scope: "project".to_string(),
                fields: vec![],
            },
        ],
        false,
        true,
    )
    .expect("plan");
    assert_eq!(kinds(&plan), vec!["savepoint", "sql"]);
    assert_eq!(plan.next(2), Next::Finish { rollback: true });
    assert!(matches!(
        plan.outcome,
        Err(MiniAppError::BatchAborted { op_index: 1, .. })
    ));
}

#[test]
fn a_failing_statement_rolls_back() {
    let plan = plan_of(
        vec![query("INSERT", "items"), query("THIS IS NOT VALID SQL", "items")],
        true,
        true,
    )
    .expect("plan");
    assert_eq!(kinds(&plan), vec!["savepoint", "sql", "sql", "commit", "rebuild"]);
    assert_eq!(
        plan.next_on_failure(2, StepError::Sql("near \"THIS\"".to_string())),
        Next::Stop {
            rollback: true,
            error: MiniAppError::BatchAborted {
                op_index: 1,
                reason: "near \"THIS\"".to_string(),
            },
        }
    );
    assert_eq!(
        plan.next_on_failure(3, StepError::Sql("busy".to_string())),
        Next::Stop {
            rollback: true,
            error: MiniAppError::Storage("busy".to_string())
        }
    );
}

#[test]
fn failures_around_the_savepoint() {
    let plan = plan_of(vec![query("A", "items"), update("string"), delete("project")], true, true)
        .expect("plan");
    assert_eq!(
        kinds(&plan),
        vec![
            "backup", "backup", "savepoint", "sql", "commit", "write", "remove", "purge", "purge",
            "rebuild"
        ]
    );
    assert_eq!(
        plan.next_on_failure(1, StepError::Known(MiniAppError::Backup("x".to_string()))),
        Next::Stop {
            rollback: false,
            error: MiniAppError::BatchAborted {
                op_index: 2,
                reason: "backup failed: backup error: x".to_string(),
            },
        }
    );
    assert_eq!(
        plan.next_on_failure(5, StepError::Known(MiniAppError::Io("x".to_string()))),
        Next::Stop {
            rollback: false,
            error: MiniAppError::Backup(
                "deferred YAML rename failed after SAVEPOINT commit: io error: x".to_string()
            ),
        }
    );
    assert_eq!(
        plan.next_on_failure(6, StepError::Io("x".to_string())),
        Next::Stop {
            rollback: false,
            error: MiniAppError::Backup(
                "deferred YAML remove failed after SAVEPOINT commit: x".to_string()
            ),
        }
    );
    assert_eq!(
        plan.next_on_failure(8, StepError::Io("x".to_string())),
        Next::Perform(9)
    );
}

#[test]
fn parameters_are_bound_as_texts() {
    let plan = plan_of(
        vec![BatchOp::Query {
            sql: "INSERT".to_string(),
            params: Some(vec![
                json::parse("\"a \\\"b\\\"\"").unwrap(),
                json::parse("7").unwrap(),
                json::parse("null").unwrap(),
                json::parse("[1,{\"x\":true}]").unwrap(),
            ]),
            table: "items".to_string(),
        }],
        true,
        true,
    )
    .expect("plan");
    match &plan.steps[1].step {
        Step::RunSql { sql, params } => {
            assert_eq!(sql, "INSERT");
            assert_eq!(params, &vec!["a \"b\"", "7", "null", "[1,{\"x\":true}]"]);
        }
        other => panic!("unexpected {other:?}"),
    }
}

#[test]
fn dry_runs_of_batches() {
    let ops = || vec![query("A", "items"), create("string"), update("string"), delete("project")];
    let plan = execute_batch(
        &config(),
        &SchemaBatchParams { ops: ops(), dry_run: true },
        &facts(4, true),
        false,
    )
    .expect("plan");
    assert!(plan.steps.is_empty());
    let Ok(report) = plan.outcome else { panic!("success") };
    let v: serde_json::Value = serde_json::from_str(&report_text(report)).unwrap();
    assert_eq!(v["committed"], false);
    assert_eq!(v["dry_run"], true);
    assert_eq!(v["registry_rebuilt"], false);
    assert_eq!(v["ops_executed"], 4);
    assert_eq!(v["affects"][0]["note"], "dry_run: SQL not executed");
    assert_eq!(v["affects"][0]["rows_affected"], serde_json::Value::Null);
    assert_eq!(v["affects"][1]["already_exists"], true);
    assert_eq!(v["affects"][1]["fields_count"], 1);
    assert_eq!(v["affects"][2]["rows_unchanged"], 5);
    assert_eq!(v["affects"][3]["would_remove_yaml"], "/p/items/schema.yaml");
    assert_eq!(v["affects"][3]["rows_orphaned"], 5);
    let failing = vec![query("A", "items"), update("text")];
    match execute_batch(
        &config(),
        &SchemaBatchParams { ops: failing, dry_run: true },
        &facts(2, true),
        false,
    ) {
        Err(MiniAppError::BatchAborted { op_index, .. }) => assert_eq!(op_index, 1),
        other => panic!("unexpected {other:?}"),
    }
}

#[test]
fn what_an_update_would_affect() {
    let old = mini_app_mcp::schema::SchemaConfig {
        table: "items".to_string(),
        title: None,
        description: None,
        fields: vec![mini_app_mcp::schema::FieldDef {
            name: "gone".to_string(),
            ty: mini_app_mcp::schema::FieldType::String,
            required: false,
            description: None,
        }],
        dump: None,
    };
    let fact = OpFacts { exists: true, old: Some(old), rows: 1 };
    assert_eq!(
        compute_op_affects(&config(), &update("string"), &fact)
            .expect("affects")
            .to_text(),
        r#"{"fields_added":["title"],"fields_removed":["gone"],"op":"schema_update","rows_unchanged":1,"table":"items"}"#
    );
}
