use mini_app_mcp::config::Config;
use mini_app_mcp::error::MiniAppError;
use mini_app_mcp::json::JsonValue;
use mini_app_mcp::mcp::plan::{Next, OnFailure, Plan, Report, Step, StepError};
use mini_app_mcp::mcp::registry::{inspect, scan_step, Scan, ScanStep, TableEntry};
use mini_app_mcp::mcp::schema_tools::{
    do_schema_create, do_schema_delete, do_schema_update, field_diff, parse_field_type,
    parse_fields, rebuild_registry, resolve_scope_paths, validate_table_name, FieldDefInput, SchemaCreateParams,
    SchemaDeleteParams, SchemaUpdateParams,
};
use mini_app_mcp::path::{FilePath, PathPart};
use mini_app_mcp::schema::{FieldDef, FieldType, SchemaConfig};

fn dir(name: &str) -> FilePath {
    FilePath::new(vec![PathPart::Root("/".to_string()), PathPart::Name(name.to_string())])
}

fn config() -> Config {
    Config {
        schema_path: None,
        db_path: None,
        user_dir: None,
        project_dir: Some(dir("p")),
        backup_retention: Some(4),
        snapshot_retention: None,
    }
}

fn input(name: &str, ty: &str) -> FieldDefInput {
    FieldDefInput {
        name: name.to_string(),
        ty: ty.to_string(),
        required: true,
        description: None,
    }
}

fn create(table: &str, scope: &str, dry_run: bool) -> SchemaCreateParams {
    SchemaCreateParams {
        table: table.to_string(),
        scope: scope.to_string(),
        title: Some("T".to_string()),
        description: None,
        fields: vec![input("title", "string")],
        dry_run,
    }
}

fn update(table: &str, fields: Vec<FieldDefInput>, dry_run: bool) -> SchemaUpdateParams {
    SchemaUpdateParams {
        table: table.to_string(),
        scope: "project".to_string(),
        title: None,
        description: None,
        fields,
        dry_run,
    }
}

fn delete(table: &str, dry_run: bool) -> SchemaDeleteParams {
    SchemaDeleteParams {
        table: table.to_string(),
        scope: "project".to_string(),
        dry_run,
    }
}

fn earlier() -> SchemaConfig {
    SchemaConfig {
        table: "items".to_string(),
        title: None,
        description: None,
        fields: vec![
            FieldDef {
                name: "title".to_string(),
                ty: FieldType::String,
                required: true,
                description: None,
            },
            FieldDef {
                name: "gone".to_string(),
                ty: FieldType::Number,
                required: false,
                description: None,
            },
        ],
        dump: None,
    }
}

fn reported(plan: &Plan) -> String {
    match &plan.outcome {
        Ok(Report::Json(v)) => v.to_text(),
        other => panic!("unexpected {other:?}"),
    }
}

fn reason(r: Result<(), MiniAppError>) -> String {
    match r {
        Err(MiniAppError::Validation { field, reason }) => {
            assert_eq!(field, "table");
            reason
        }
        other => panic!("unexpected {other:?}"),
    }
}

#[test]
fn names_that_leave_the_scope_are_refused() {
    for bad in [
        "../escape",
        "../../etc/passwd",
        "/abs/path",
        ".",
        "..",
        ".hidden",
        "a/b",
        "a\\b",
        "",
    ] {
        for dry_run in [false, true] {
            assert!(
                matches!(
                    do_schema_create(&config(), &create(bad, "project", dry_run), false),
                    Err(MiniAppError::Validation { .. })
                ),
                "{bad}"
            );
        }
        assert!(matches!(
            do_schema_update(&config(), &update(bad, vec![], false), true, Some(earlier()), Ok(0)),
            Err(MiniAppError::Validation { .. })
        ));
        assert!(matches!(
            do_schema_delete(&config(), &delete(bad, false), true, Ok(0)),
            Err(MiniAppError::Validation { .. })
        ));
    }
    assert_eq!(reason(validate_table_name("")), "table name must not be empty");
    assert_eq!(reason(validate_table_name("..")), "table name '..' is reserved");
    assert_eq!(reason(validate_table_name(".h")), "table name must not start with '.'");
    assert_eq!(
        reason(validate_table_name("a/b?")),
        "table name contains invalid character '/'; allowed: [A-Za-z0-9_-]"
    );
    assert_eq!(validate_table_name("Az09_-"), Ok(()));
    assert_eq!(
        reason(validate_table_name("naïve")),
        "table name contains invalid character 'ï'; allowed: [A-Za-z0-9_-]"
    );
}

#[test]
fn scopes_resolve_to_paths() {
    let (root, yaml) = resolve_scope_paths("project", "items", &config()).expect("paths");
    assert_eq!(root, dir("p"));
    assert_eq!(yaml.display(), "/p/items/schema.yaml");
    assert_eq!(
        resolve_scope_paths("user", "items", &config()),
        Err(MiniAppError::Config("user scope requires MINI_APP_USER_DIR".to_string()))
    );
    let mut none = config();
    none.project_dir = None;
    assert_eq!(
        resolve_scope_paths("project", "items", &none),
        Err(MiniAppError::Config("project scope requires MINI_APP_PROJECT_DIR".to_string()))
    );
    assert_eq!(
        resolve_scope_paths("global", "items", &config()),
        Err(MiniAppError::Validation {
            field: "scope".to_string(),
            reason: "invalid scope 'global'; must be 'project' or 'user'".to_string(),
        })
    );
}

#[test]
fn types_by_name() {
    for ty in [
        FieldType::String,
        FieldType::Number,
        FieldType::Boolean,
        FieldType::Array,
        FieldType::Object,
    ] {
        assert_eq!(parse_field_type(ty.as_str(), "f"), Ok(ty));
    }
    let failure = MiniAppError::Validation {
        field: "fields[f].type".to_string(),
        reason: "unknown type 'text'; must be one of: string, number, boolean, array, object"
            .to_string(),
    };
    assert_eq!(parse_field_type("text", "f").unwrap_err(), failure);
    assert_eq!(
        parse_fields(&vec![input("ok", "number"), input("f", "text"), input("g", "bad")]),
        Err(failure)
    );
    let fields = parse_fields(&vec![input("a", "array"), input("b", "object")]).unwrap();
    assert_eq!(fields[1].name, "b");
    assert_eq!(fields[1].ty, FieldType::Object);
    assert!(fields[1].required);
}

#[test]
fn creating_a_schema() {
    let plan = do_schema_create(&config(), &create("items", "project", false), false).expect("plan");
    let steps: Vec<&Step> = plan.steps.iter().map(|s| &s.step).collect();
    assert!(plan.steps.iter().all(|s| s.on_failure == OnFailure::Report));
    assert_eq!(steps.len(), 4);
    assert!(matches!(steps[0], Step::CreateDir { path } if path.display() == "/p/items"));
    assert!(matches!(
        steps[1],
        Step::WriteSchema { path, schema }
            if path.display() == "/p/items/schema.yaml"
                && schema.title == Some("T".to_string())
                && schema.dump.is_none()
    ));
    assert!(matches!(
        steps[2],
        Step::OpenStore { db_path, .. } if db_path.display() == "/p/items/items.db"
    ));
    assert_eq!(steps[3], &Step::RebuildRegistry);
    assert_eq!(
        reported(&plan),
        r#"{"created":"items","schema_path":"/p/items/schema.yaml","scope":"project"}"#
    );
    assert_eq!(
        do_schema_create(&config(), &create("items", "project", false), true),
        Err(MiniAppError::SchemaExists { table: "items".to_string() })
    );
    let dry = do_schema_create(&config(), &create("items", "project", true), true).expect("dry");
    assert!(dry.steps.is_empty());
    assert_eq!(
        reported(&dry),
        r#"{"affects":{"already_exists":true,"would_create":"/p/items/schema.yaml"},"dry_run":true}"#
    );
}

#[test]
fn updating_a_schema() {
    let fields = || vec![input("new", "array"), input("title", "number")];
    let plan = do_schema_update(
        &config(),
        &update("items", fields(), false),
        true,
        Some(earlier()),
        Ok(2),
    )
    .expect("plan");
    let steps: Vec<&Step> = plan.steps.iter().map(|s| &s.step).collect();
    assert_eq!(steps.len(), 4);
    assert!(matches!(
        steps[0],
        Step::Backup { scope_root, yaml_path, db_path, .. }
            if *scope_root == dir("p")
                && yaml_path.display() == "/p/items/schema.yaml"
                && db_path.display() == "/p/items/items.db"
    ));
    assert!(matches!(steps[1], Step::WriteSchema { .. }));
    assert!(matches!(steps[2], Step::PurgeBackups { retention: 4, .. }));
    assert_eq!(steps[3], &Step::RebuildRegistry);
    let text = reported(&plan);
    assert!(text.contains(r#""fields_added":["new"],"fields_removed":["gone"],"fields_type_changed":["title"]"#));
    assert!(text.contains(r#""updated":"items""#));
    let dry = do_schema_update(
        &config(),
        &update("items", fields(), true),
        true,
        Some(earlier()),
        Ok(2),
    )
    .expect("dry");
    assert!(dry.steps.is_empty());
    assert!(reported(&dry).contains(r#""rows_unchanged":2"#));
    let missing = Err(MiniAppError::TableNotFound { table: "items".to_string() });
    assert_eq!(
        do_schema_update(&config(), &update("items", fields(), false), false, Some(earlier()), Ok(2)),
        missing
    );
    assert_eq!(
        do_schema_update(&config(), &update("items", fields(), false), true, None, Ok(2)),
        missing
    );
    assert_eq!(
        do_schema_update(
            &config(),
            &update("items", fields(), true),
            true,
            Some(earlier()),
            Err(MiniAppError::Storage("locked".to_string())),
        ),
        Err(MiniAppError::Storage("locked".to_string()))
    );
}

#[test]
fn deleting_a_schema() {
    let plan = do_schema_delete(&config(), &delete("items", false), true, Ok(7)).expect("plan");
    let steps: Vec<&Step> = plan.steps.iter().map(|s| &s.step).collect();
    assert!(matches!(steps[0], Step::Backup { .. }));
    assert!(matches!(
        steps[1],
        Step::RemoveSchema { path } if path.display() == "/p/items/schema.yaml"
    ));
    assert!(matches!(steps[2], Step::PurgeBackups { .. }));
    assert_eq!(steps[3], &Step::RebuildRegistry);
    assert_eq!(
        reported(&plan),
        r#"{"db_file_retained":"/p/items/items.db","deleted":"items","schema_path_removed":"/p/items/schema.yaml","scope":"project"}"#
    );
    let dry = do_schema_delete(&config(), &delete("items", true), true, Ok(7)).expect("dry");
    assert!(dry.steps.is_empty());
    assert_eq!(
        reported(&dry),
        r#"{"affects":{"db_file_retained":"/p/items/items.db","rows_orphaned":7,"would_remove_yaml":"/p/items/schema.yaml"},"dry_run":true}"#
    );
    assert_eq!(
        do_schema_delete(&config(), &delete("items", false), false, Ok(7)),
        Err(MiniAppError::TableNotFound { table: "items".to_string() })
    );
}

#[test]
fn differences_between_field_lists() {
    let f = |name: &str, ty: FieldType| FieldDef {
        name: name.to_string(),
        ty,
        required: false,
        description: None,
    };
    let diff = field_diff(
        &vec![f("z", FieldType::String), f("b", FieldType::String), f("a", FieldType::Array)],
        &vec![f("y", FieldType::String), f("b", FieldType::Number), f("c", FieldType::Array)],
    );
    assert_eq!(diff.added, vec!["c", "y"]);
    assert_eq!(diff.removed, vec!["a", "z"]);
    assert_eq!(diff.type_changed, vec!["b"]);
    let twice = field_diff(
        &vec![f("b", FieldType::String)],
        &vec![f("b", FieldType::Number), f("b", FieldType::String)],
    );
    assert!(twice.added.is_empty() && twice.removed.is_empty() && twice.type_changed.is_empty());
}

#[test]
fn plans_are_carried_out_in_order() {
    let plan = do_schema_create(&config(), &create("items", "project", false), false).expect("plan");
    assert_eq!(plan.next(0), Next::Perform(0));
    assert_eq!(plan.next(3), Next::Perform(3));
    assert_eq!(plan.next(4), Next::Finish { rollback: false });
    assert_eq!(
        plan.next_on_failure(1, StepError::Io("no space".to_string())),
        Next::Stop {
            rollback: false,
            error: MiniAppError::Io("no space".to_string())
        }
    );
    assert_eq!(
        plan.next_on_failure(2, StepError::Sql("locked".to_string())),
        Next::Stop {
            rollback: false,
            error: MiniAppError::Storage("locked".to_string())
        }
    );
    let empty = Plan::report(JsonValue::Null);
    assert_eq!(empty.next(0), Next::Finish { rollback: false });
}

#[test]
fn a_created_table_resolves() {
    let plan = do_schema_create(&config(), &create("notes", "project", false), false).unwrap();
    let candidate = || inspect(&dir("p"), true, Some("notes".to_string())).expect("candidate");
    let written = plan
        .steps
        .iter()
        .find_map(|s| match &s.step {
            Step::WriteSchema { path, schema } if *path == candidate().schema_path => Some(schema),
            _ => None,
        })
        .expect("the schema file that a scan looks for");
    assert!(plan.steps.iter().any(|s| matches!(
        &s.step,
        Step::OpenStore { db_path, .. } if *db_path == candidate().db_path
    )));
    assert_eq!(plan.steps.last().unwrap().step, Step::RebuildRegistry);
    assert!(matches!(
        scan_step::<u8>(candidate(), Scan::SchemaFile(true)),
        ScanStep::LoadSchema
    ));
    let ScanStep::OpenStore(read) =
        scan_step::<u8>(candidate(), Scan::Schema(Some(written.duplicate())))
    else {
        panic!("no store")
    };
    let ScanStep::Mount(name, entry) = scan_step(candidate(), Scan::Opened(Some(7u8), read)) else {
        panic!("no table")
    };
    assert_eq!(name, "notes");
    let other = TableEntry {
        store: 1u8,
        schema: earlier(),
        schema_path: dir("u"),
    };
    let tables = rebuild_registry(
        Ok(vec![("notes".to_string(), other)]),
        Ok(vec![(name, entry)]),
        None,
    )
    .expect("tables");
    let found = tables.resolve(Some("notes")).expect("the created table");
    assert_eq!(found.store, 7);
    assert_eq!(&found.schema, written);
    assert_eq!(found.schema.fields[0].name, "title");
    assert_eq!(found.schema.fields[0].ty, FieldType::String);
}
