use mini_app_mcp::error::MiniAppError;
use mini_app_mcp::mcp::registry::{
    inspect, scan_step, Candidate, Scan, ScanStep, TableEntry, TableRegistry,
};
use mini_app_mcp::mcp::schema_tools::rebuild_registry;
use mini_app_mcp::mcp::server::reload_report;
use mini_app_mcp::path::{FilePath, PathPart};
use mini_app_mcp::schema::{FieldDef, FieldType, SchemaConfig};

fn path(names: &[&str]) -> FilePath {
    FilePath::new(names.iter().map(|n| PathPart::Name(n.to_string())).collect())
}

fn entry(scope: &str, table: &str, fields: &[&str]) -> TableEntry<u8> {
    TableEntry {
        store: 1,
        schema: SchemaConfig {
            table: table.to_string(),
            title: None,
            description: None,
            fields: fields
                .iter()
                .map(|f| FieldDef {
                    name: f.to_string(),
                    ty: FieldType::String,
                    required: false,
                    description: None,
                })
                .collect(),
            dump: None,
        },
        schema_path: path(&[scope, table, "schema.yaml"]),
    }
}

fn named(scope: &str, table: &str, fields: &[&str]) -> (String, TableEntry<u8>) {
    (table.to_string(), entry(scope, table, fields))
}

#[test]
fn project_tables_replace_user_tables_of_the_same_name() {
    let registry = TableRegistry::mount_from_dirs(
        vec![named("user", "alpha", &["a", "b"]), named("user", "beta", &[])],
        vec![named("project", "alpha", &["c"]), named("project", "gamma", &[])],
    );
    assert_eq!(registry.table_count(), 3);
    assert_eq!(registry.table_names(), vec!["alpha", "beta", "gamma"]);
    assert_eq!(registry.default_table(), None);
    let alpha = registry.resolve(Some("alpha")).expect("alpha");
    let names: Vec<&str> = alpha.schema.fields.iter().map(|f| f.name.as_str()).collect();
    assert_eq!(names, vec!["c"], "the file is swapped, fields are not merged");
    assert_eq!(
        alpha.schema_path.display(),
        "project/alpha/schema.yaml"
    );
}

#[test]
fn resolving_without_a_default_needs_a_name() {
    let registry = TableRegistry::mount_from_dirs(vec![named("user", "alpha", &[])], vec![]);
    assert_eq!(
        registry.resolve(None).map(|_| ()),
        Err(MiniAppError::TableRequired)
    );
    assert_eq!(
        registry.resolve(Some("nope")).map(|_| ()),
        Err(MiniAppError::TableNotFound { table: "nope".to_string() })
    );
    assert!(registry.is_mounted("alpha"));
    assert!(!registry.is_mounted("nope"));
}

#[test]
fn the_legacy_table_is_the_default() {
    let registry = TableRegistry::mount_legacy(entry("x", "solo", &[]));
    assert_eq!(registry.default_table(), Some("solo"));
    assert_eq!(registry.resolve(None).expect("default").schema.table, "solo");
    let registry = TableRegistry::mount_from_dirs(
        vec![named("user", "solo", &["old"]), named("user", "other", &[])],
        vec![],
    )
    .mount_legacy_into(entry("x", "solo", &["new"]));
    assert_eq!(registry.table_count(), 2);
    assert_eq!(
        registry.resolve(None).expect("default").schema.fields[0].name,
        "new"
    );
}

#[test]
fn empty_registries_resolve_nothing() {
    let registry: TableRegistry<u8> = TableRegistry::mount_from_dirs(vec![], vec![]);
    assert_eq!(registry.table_count(), 0);
    assert!(registry.resolve(None).is_err());
}

#[test]
fn what_lies_in_a_scope_directory() {
    let dir = path(&["scope"]);
    assert_eq!(inspect(&dir, false, Some("t".to_string())), None);
    assert_eq!(inspect(&dir, true, None), None);
    let candidate = inspect(&dir, true, Some("t".to_string())).expect("candidate");
    assert_eq!(
        candidate,
        Candidate {
            table: "t".to_string(),
            schema_path: path(&["scope", "t", "schema.yaml"]),
            db_path: path(&["scope", "t", "t.db"]),
        }
    );
}

#[test]
fn scanning_step_by_step() {
    let candidate = || inspect(&path(&["scope"]), true, Some("t".to_string())).expect("candidate");
    assert!(matches!(
        scan_step::<u8>(candidate(), Scan::SchemaFile(false)),
        ScanStep::Skip
    ));
    assert!(matches!(
        scan_step::<u8>(candidate(), Scan::SchemaFile(true)),
        ScanStep::LoadSchema
    ));
    assert!(matches!(
        scan_step::<u8>(candidate(), Scan::Schema(None)),
        ScanStep::Skip
    ));
    let schema = entry("scope", "t", &[]).schema;
    match scan_step::<u8>(candidate(), Scan::Schema(Some(schema))) {
        ScanStep::OpenStore(s) => assert_eq!(s.table, "t"),
        other => panic!("unexpected {other:?}"),
    }
    let schema = entry("scope", "inside", &[]).schema;
    match scan_step(candidate(), Scan::Opened(Some(9u8), schema)) {
        ScanStep::Mount(name, e) => {
            assert_eq!(name, "t");
            assert_eq!(e.store, 9);
            assert_eq!(e.schema.table, "inside");
            assert_eq!(e.schema_path.display(), "scope/t/schema.yaml");
        }
        other => panic!("unexpected {other:?}"),
    }
    let schema = entry("scope", "t", &[]).schema;
    assert!(matches!(
        scan_step::<u8>(candidate(), Scan::Opened(None, schema)),
        ScanStep::Skip
    ));
}

#[test]
fn reload_reports_what_came_and_went() {
    let old = TableRegistry::mount_from_dirs(
        vec![named("u", "a", &[]), named("u", "b", &[])],
        vec![],
    );
    let new = TableRegistry::mount_from_dirs(
        vec![named("u", "c", &[]), named("u", "b", &[]), named("u", "d", &[])],
        vec![],
    );
    assert_eq!(
        reload_report(&old, &new).to_text(),
        r#"{"added":["c","d"],"mounted":3,"removed":["a"]}"#
    );
}

#[test]
fn tables_are_read_anew() {
    let user = || Ok(vec![named("u", "solo", &["old"]), named("u", "a", &[])]);
    let project = || Ok(vec![named("p", "a", &["x"])]);
    let plain = rebuild_registry(user(), project(), None).expect("tables");
    assert_eq!(plain.table_names(), vec!["a", "solo"]);
    assert_eq!(plain.default_table(), None);
    assert_eq!(
        plain.resolve(None).map(|_| ()),
        Err(MiniAppError::TableRequired)
    );
    let legacy = rebuild_registry(user(), project(), Some(Ok(entry("x", "solo", &["new"]))))
        .expect("tables");
    assert_eq!(legacy.resolve(None).unwrap().schema.fields[0].name, "new");
    assert_eq!(legacy.resolve(Some("a")).unwrap().schema.fields[0].name, "x");
    let io = || MiniAppError::Io("denied".to_string());
    let bad = || MiniAppError::Schema("bad".to_string());
    assert_eq!(
        rebuild_registry::<u8>(Err(io()), Err(bad()), None).map(|_| ()),
        Err(io())
    );
    assert_eq!(
        rebuild_registry(user(), Err(bad()), Some(Err(io()))).map(|_| ()),
        Err(bad())
    );
    assert_eq!(
        rebuild_registry(user(), project(), Some(Err(io()))).map(|_| ()),
        Err(io())
    );
}
