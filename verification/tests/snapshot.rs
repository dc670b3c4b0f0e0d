use mini_app_mcp::config::Config;
use mini_app_mcp::error::MiniAppError;
use mini_app_mcp::mcp::registry::{TableEntry, TableRegistry};
use mini_app_mcp::path::{FilePath, PathPart};
use mini_app_mcp::schema::SchemaConfig;
use mini_app_mcp::snapshot::{
    backup_pair, copy_times, count_would_purge, derive_scope_root, do_data_snapshot,
    dry_run_snapshot, name_of_copy, newest_snapshot, parse_snapshot_timestamp, purge_old_snapshots,
    resolve_scope_dir, scope_label_for, snapshot_dir, snapshot_failure, snapshot_path,
    sort_newest_first, times_to_purge, DataSnapshotParams, SnapshotStage, SnapshotStart,
    SnapshotTarget, TargetFacts,
};

fn path(text: &str) -> FilePath {
    let mut parts = vec![];
    if text.starts_with('/') {
        parts.push(PathPart::Root("/".to_string()));
    }
    parts.extend(
        text.split('/')
            .filter(|n| !n.is_empty())
            .map(|n| PathPart::Name(n.to_string())),
    );
    FilePath::new(parts)
}

fn names(list: &[&str]) -> Vec<String> {
    list.iter().map(|n| n.to_string()).collect()
}

fn config(snapshot_retention: Option<usize>) -> Config {
    Config {
        schema_path: None,
        db_path: None,
        user_dir: Some(path("/u")),
        project_dir: Some(path("/p")),
        backup_retention: Some(1),
        snapshot_retention,
    }
}

fn entry(table: &str, schema_path: &str) -> (String, TableEntry<()>) {
    (
        table.to_string(),
        TableEntry {
            store: (),
            schema: SchemaConfig {
                table: table.to_string(),
                title: None,
                description: None,
                fields: vec![],
                dump: None,
            },
            schema_path: path(schema_path),
        },
    )
}

fn tables() -> TableRegistry<()> {
    TableRegistry::from_entries(
        vec![
            entry("zeta", "/p/zeta/schema.yaml"),
            entry("alpha", "/u/alpha/schema.yaml"),
            entry("mid", "/p/mid/schema.yaml"),
        ],
        None,
    )
}

fn ask(table: Option<&str>, scope: Option<&str>, dry_run: Option<bool>) -> DataSnapshotParams {
    DataSnapshotParams {
        table: table.map(|t| t.to_string()),
        scope: scope.map(|s| s.to_string()),
        dry_run,
    }
}

fn targets(table: Option<&str>, scope: Option<&str>) -> Result<Vec<SnapshotTarget>, MiniAppError> {
    match do_data_snapshot(&config(None), &tables(), &ask(table, scope, Some(true)))? {
        SnapshotStart::DryRun(t) => Ok(t),
        SnapshotStart::Run(_) => panic!("a dry run was asked for"),
    }
}

fn target_names(table: Option<&str>, scope: Option<&str>) -> Vec<String> {
    targets(table, scope)
        .expect("targets")
        .into_iter()
        .map(|t| t.table_name)
        .collect()
}

#[test]
fn names_of_copies_are_read_back() {
    assert_eq!(name_of_copy("notes", 1700000000, "db"), "notes.1700000000.db");
    assert_eq!(
        parse_snapshot_timestamp("notes.1700000000.db", "notes", "db"),
        Some(1700000000)
    );
    assert_eq!(
        parse_snapshot_timestamp(&name_of_copy("a.b", u64::MAX, "yaml"), "a.b", "yaml"),
        Some(u64::MAX)
    );
    for (name, table, ext) in [
        ("notes.17.yaml", "notes", "db"),
        ("note.17.db", "notes", "db"),
        ("notes..db", "notes", "db"),
        ("notes.db", "notes", "db"),
        ("notes.x1.db", "notes", "db"),
        ("notes.-1.db", "notes", "db"),
        ("notes.18446744073709551616.db", "notes", "db"),
        ("notes.1.2.db", "notes", "db"),
        ("", "notes", "db"),
    ] {
        assert_eq!(parse_snapshot_timestamp(name, table, ext), None, "{name}");
    }
    assert_eq!(parse_snapshot_timestamp("notes.+5.db", "notes", "db"), Some(5));
}

#[test]
fn old_copies_go_and_new_ones_stay() {
    let found = names(&[
        "t.100.db", "t.500.db", "other.9.db", "t.300.db", "t.300.yaml", "t.200.db", "t.400.db",
    ]);
    assert_eq!(copy_times(&found, "t", "db"), vec![100, 500, 300, 200, 400]);
    assert_eq!(
        sort_newest_first(&vec![100, 500, 300, 300]),
        vec![500, 300, 300, 100]
    );
    assert_eq!(times_to_purge(&found, "t", "db", 3), vec![200, 100]);
    assert_eq!(times_to_purge(&found, "t", "db", 5), Vec::<u64>::new());
    assert_eq!(count_would_purge(&found, "t", 3), 3);
    assert_eq!(count_would_purge(&found, "t", 5), 1);
    assert_eq!(count_would_purge(&found, "t", 6), 0);
    assert_eq!(count_would_purge(&names(&[]), "t", 0), 1);
    let gone: Vec<String> = purge_old_snapshots(&path("/p"), "t", &found, 3)
        .iter()
        .map(|p| p.display())
        .collect();
    assert_eq!(gone, vec!["/p/_snapshots/t.200.db", "/p/_snapshots/t.100.db"]);
    assert!(purge_old_snapshots(&path("/p"), "t", &names(&[]), 0).is_empty());
}

#[test]
fn snapshots_and_backups_lie_apart() {
    assert_eq!(snapshot_dir(&path("/p")).display(), "/p/_snapshots");
    assert_eq!(snapshot_path(&path("/p"), "t", 12).display(), "/p/_snapshots/t.12.db");
    let (yaml, db) = backup_pair(&path("/p"), "t", 12);
    assert_eq!(yaml.display(), "/p/_backup/t.12.yaml");
    assert_eq!(db.display(), "/p/_backup/t.12.db");
}

#[test]
fn snapshot_failures_say_where() {
    for (stage, text) in [
        (SnapshotStage::Clock, "system clock error: x"),
        (SnapshotStage::Directory, "cannot create snapshot dir: x"),
        (SnapshotStage::Source, "cannot open source db: x"),
        (SnapshotStage::Copy, "rusqlite backup failed: x"),
        (SnapshotStage::Listing, "cannot read snapshot dir: x"),
    ] {
        assert_eq!(
            snapshot_failure(stage, "x"),
            MiniAppError::Snapshot(text.to_string())
        );
    }
}

#[test]
fn scopes_of_schema_files() {
    let file = path("/p/t/schema.yaml");
    assert_eq!(derive_scope_root(&file, false), Ok(path("/p")));
    assert_eq!(derive_scope_root(&file, true), Ok(path("/p/t")));
    assert_eq!(
        derive_scope_root(&path("/"), true),
        Err(MiniAppError::Snapshot("schema_path has no parent dir".to_string()))
    );
    assert_eq!(
        derive_scope_root(&path("schema.yaml"), false),
        Err(MiniAppError::Snapshot("schema_path has no grandparent dir".to_string()))
    );
    assert_eq!(resolve_scope_dir(&config(None), "user"), Ok(Some(path("/u"))));
    assert_eq!(
        resolve_scope_dir(&config(None), "moon"),
        Err(MiniAppError::Snapshot(
            "unrecognised scope 'moon': expected 'project' or 'user'".to_string()
        ))
    );
    assert_eq!(scope_label_for(&path("/p"), &config(None)), "project");
    assert_eq!(scope_label_for(&path("/u/deep"), &config(None)), "user");
    assert_eq!(scope_label_for(&path("/elsewhere"), &config(None)), "unknown");
}

#[test]
fn targets_by_table_and_scope() {
    assert_eq!(target_names(None, None), vec!["alpha", "mid", "zeta"]);
    assert_eq!(target_names(None, Some("project")), vec!["mid", "zeta"]);
    assert_eq!(target_names(None, Some("user")), vec!["alpha"]);
    assert_eq!(target_names(Some("mid"), None), vec!["mid"]);
    assert_eq!(target_names(Some("mid"), Some("project")), vec!["mid"]);
    assert!(target_names(Some("mid"), Some("user")).is_empty());
    assert_eq!(
        targets(Some("none"), None),
        Err(MiniAppError::TableNotFound { table: "none".to_string() })
    );
    assert!(matches!(
        targets(None, Some("moon")),
        Err(MiniAppError::Snapshot(_))
    ));
    let t = targets(Some("zeta"), None).unwrap().remove(0);
    assert_eq!(t.scope_root, path("/p"));
    assert_eq!(t.db_path, path("/p/zeta/zeta.db"));
}

#[test]
fn newest_copy_among_files() {
    let found = names(&["t.5.db", "t.9.db", "u.99.db", "t.7.db", "t.09.db"]);
    assert_eq!(newest_snapshot(&found, "t"), Some((9, "t.9.db".to_string())));
    assert_eq!(newest_snapshot(&found, "none"), None);
}

#[test]
fn dry_runs_report() {
    let found = targets(None, Some("project")).unwrap();
    let facts = vec![
        TargetFacts { rows: Ok(3), names: names(&["mid.1.db", "mid.2.db", "mid.3.db"]) },
        TargetFacts { rows: Ok(0), names: vec![] },
    ];
    let report = dry_run_snapshot(&config(Some(1)), &found, &facts).expect("report");
    assert_eq!(
        report.to_text(),
        concat_lines(&[
            r#"{"affects":{"row_counts":{"mid":3,"zeta":0},"target_tables":["mid","zeta"],"#,
            r#""would_purge_generations":{"mid":3,"zeta":0}},"dry_run":true}"#,
        ])
    );
    let facts = vec![
        TargetFacts { rows: Err(MiniAppError::Storage("locked".to_string())), names: vec![] },
        TargetFacts { rows: Ok(0), names: vec![] },
    ];
    assert_eq!(
        dry_run_snapshot(&config(None), &found, &facts),
        Err(MiniAppError::Snapshot(
            "row_count failed for table 'mid': storage error: locked".to_string()
        ))
    );
}

fn concat_lines(lines: &[&str]) -> String {
    lines.concat()
}

#[test]
fn runs_go_table_by_table() {
    let start = do_data_snapshot(&config(None), &tables(), &ask(None, Some("project"), None));
    let Ok(SnapshotStart::Run(run)) = start else { panic!("a run") };
    assert_eq!(run.current().map(|t| t.table_name.as_str()), Some("mid"));
    let run = run.record(
        &config(None),
        &names(&["mid.1.db", "mid.2.db", "mid.3.db"]),
        &names(&["mid.3.db"]),
    );
    assert_eq!(run.current().map(|t| t.table_name.as_str()), Some("zeta"));
    let run = run.record(&config(None), &names(&[]), &names(&[]));
    assert!(run.current().is_none());
    assert_eq!(
        run.finish().to_text(),
        concat_lines(&[
            r#"{"purged":[{"generations_removed":2,"table":"mid"}],"snapshotted":["#,
            r#"{"scope":"project","snapshot_path":"/p/_snapshots/mid.3.db","table":"mid","unix_secs":3},"#,
            r#"{"scope":"project","snapshot_path":"","table":"zeta","unix_secs":null}]}"#,
        ])
    );
}

#[test]
fn a_dry_run_previews_the_run() {
    let kept = 3;
    let before = names(&["mid.1.db", "zeta.8.db", "mid.2.db", "mid.3.db"]);
    let previewed = count_would_purge(&before, "mid", kept);
    assert_eq!(previewed, 1);
    let mut written = before;
    written.insert(0, name_of_copy("mid", 9, "db"));
    let gone = times_to_purge(&written, "mid", "db", kept);
    let purged: Vec<String> = written
        .iter()
        .filter(|n| !gone.iter().any(|t| **n == name_of_copy("mid", *t, "db")))
        .cloned()
        .collect();
    let start = do_data_snapshot(&config(Some(kept)), &tables(), &ask(Some("mid"), None, None));
    let Ok(SnapshotStart::Run(run)) = start else { panic!("a run") };
    let report = run.record(&config(Some(kept)), &written, &purged).finish();
    let v: serde_json::Value = serde_json::from_str(&report.to_text()).unwrap();
    assert_eq!(v["purged"][0]["generations_removed"], previewed);
    assert_eq!(
        count_would_purge(&purged, "zeta", kept),
        count_would_purge(&names(&["zeta.8.db"]), "zeta", kept)
    );
    assert_eq!(parse_snapshot_timestamp("mid.9.db", "zeta", "db"), None);
}
