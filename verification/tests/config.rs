use mini_app_mcp::config::{Config, Environment};
use mini_app_mcp::error::MiniAppError;
use mini_app_mcp::path::{FilePath, PathPart};
use std::path::{Component, Path};

fn path(text: &str) -> FilePath {
    FilePath::new(
        Path::new(text)
            .components()
            .map(|c| match c {
                Component::Prefix(_) | Component::RootDir => {
                    PathPart::Root(c.as_os_str().to_string_lossy().into_owned())
                }
                _ => PathPart::Name(c.as_os_str().to_string_lossy().into_owned()),
            })
            .collect(),
    )
}

fn env(vars: &[(&str, Option<&str>)]) -> Environment {
    let get = |name: &str| {
        vars.iter()
            .find(|(k, _)| *k == name)
            .and_then(|(_, v)| v.map(|v| v.to_string()))
    };
    Environment {
        schema: Ok(get("MINI_APP_SCHEMA").map(|v| path(&v))),
        db: Ok(get("MINI_APP_DB").map(|v| path(&v))),
        user_dir: Ok(get("MINI_APP_USER_DIR").map(|v| path(&v))),
        project_dir: Ok(get("MINI_APP_PROJECT_DIR").map(|v| path(&v))),
        backup_retention: Ok(get("MINI_APP_BACKUP_RETENTION")),
        snapshot_retention: Ok(get("MINI_APP_SNAPSHOT_RETENTION")),
        home_dir: Some(path("/home/someone")),
    }
}

#[test]
fn load_success_legacy_vars() {
    let cfg = Config::load(env(&[
        ("MINI_APP_SCHEMA", Some("./schema.yaml")),
        ("MINI_APP_DB", Some("./mini-app.db")),
        ("MINI_APP_USER_DIR", None),
        ("MINI_APP_PROJECT_DIR", None),
    ]))
    .expect("should succeed with legacy vars set");
    assert_eq!(cfg.schema_path, Some(path("./schema.yaml")));
    assert_eq!(cfg.db_path, Some(path("./mini-app.db")));
    assert!(cfg.has_legacy_env());
}

#[test]
fn load_success_dir_env_vars() {
    let cfg = Config::load(env(&[
        ("MINI_APP_SCHEMA", None),
        ("MINI_APP_DB", None),
        ("MINI_APP_USER_DIR", Some("/tmp/user-tables")),
        ("MINI_APP_PROJECT_DIR", Some("/tmp/project-tables")),
    ]))
    .expect("should succeed with dir vars set");
    assert_eq!(cfg.schema_path, None);
    assert_eq!(cfg.db_path, None);
    assert_eq!(cfg.user_dir, Some(path("/tmp/user-tables")));
    assert_eq!(cfg.project_dir, Some(path("/tmp/project-tables")));
    assert!(!cfg.has_legacy_env());
}

#[test]
fn load_success_both_legacy_and_dir_vars() {
    let cfg = Config::load(env(&[
        ("MINI_APP_SCHEMA", Some("./schema.yaml")),
        ("MINI_APP_DB", Some("./mini-app.db")),
        ("MINI_APP_USER_DIR", Some("/tmp/user-tables")),
        ("MINI_APP_PROJECT_DIR", Some("/tmp/project-tables")),
    ]))
    .expect("should succeed with all vars set");
    assert_eq!(cfg.schema_path, Some(path("./schema.yaml")));
    assert_eq!(cfg.db_path, Some(path("./mini-app.db")));
    assert_eq!(cfg.user_dir, Some(path("/tmp/user-tables")));
    assert_eq!(cfg.project_dir, Some(path("/tmp/project-tables")));
    assert!(cfg.has_legacy_env());
}

#[test]
fn load_no_env_vars_succeeds() {
    let cfg = Config::load(env(&[
        ("MINI_APP_SCHEMA", None),
        ("MINI_APP_DB", None),
        ("MINI_APP_USER_DIR", None),
        ("MINI_APP_PROJECT_DIR", None),
    ]))
    .expect("load must not fail with no env vars");
    assert_eq!(cfg.schema_path, None);
    assert_eq!(cfg.db_path, None);
    assert!(!cfg.has_legacy_env());
    assert_eq!(cfg.project_dir, Some(path(".mini-app")));
    assert_eq!(cfg.user_dir, Some(path("/home/someone/.mini-app")));
}

#[test]
fn load_only_schema_env_has_legacy_env_false() {
    let cfg = Config::load(env(&[
        ("MINI_APP_SCHEMA", Some("./schema.yaml")),
        ("MINI_APP_DB", None),
    ]))
    .expect("load must not fail");
    assert_eq!(cfg.schema_path, Some(path("./schema.yaml")));
    assert_eq!(cfg.db_path, None);
    assert!(!cfg.has_legacy_env());
}

#[test]
fn load_does_not_panic_with_no_env_file() {
    let result = Config::load(env(&[
        ("MINI_APP_SCHEMA", None),
        ("MINI_APP_DB", None),
        ("MINI_APP_USER_DIR", None),
        ("MINI_APP_PROJECT_DIR", None),
    ]));
    assert!(result.is_ok());
}

#[test]
fn load_success() {
    let cfg = Config::load(env(&[
        ("MINI_APP_SCHEMA", Some("./schema.yaml")),
        ("MINI_APP_DB", Some("./mini-app.db")),
    ]))
    .expect("should succeed with both vars set");
    assert_eq!(cfg.schema_path, Some(path("./schema.yaml")));
    assert_eq!(cfg.db_path, Some(path("./mini-app.db")));
}

#[test]
fn load_missing_schema_returns_none() {
    let cfg = Config::load(env(&[
        ("MINI_APP_SCHEMA", None),
        ("MINI_APP_DB", Some("./mini-app.db")),
    ]))
    .expect("load must succeed even with MINI_APP_SCHEMA absent");
    assert_eq!(cfg.schema_path, None);
    assert!(!cfg.has_legacy_env());
}

#[test]
fn load_missing_db_returns_none() {
    let cfg = Config::load(env(&[
        ("MINI_APP_SCHEMA", Some("./schema.yaml")),
        ("MINI_APP_DB", None),
    ]))
    .expect("load must succeed even with MINI_APP_DB absent");
    assert_eq!(cfg.db_path, None);
    assert!(!cfg.has_legacy_env());
}

#[test]
fn retentions_default_to_ten_and_are_apart() {
    let cfg = Config::load(env(&[])).unwrap();
    assert_eq!(cfg.backup_retention(), 10);
    assert_eq!(cfg.snapshot_retention(), 10);
    let cfg = Config::load(env(&[("MINI_APP_BACKUP_RETENTION", Some("3"))])).unwrap();
    assert_eq!(cfg.backup_retention(), 3);
    assert_eq!(cfg.snapshot_retention(), 10);
    let cfg = Config::load(env(&[("MINI_APP_SNAPSHOT_RETENTION", Some("0"))])).unwrap();
    assert_eq!(cfg.backup_retention(), 10);
    assert_eq!(cfg.snapshot_retention(), 0);
    let cfg = Config::load(env(&[("MINI_APP_SNAPSHOT_RETENTION", Some("many"))])).unwrap();
    assert_eq!(cfg.snapshot_retention(), 10);
}

#[test]
fn without_a_home_there_is_no_user_dir() {
    let mut e = env(&[]);
    e.home_dir = None;
    assert_eq!(Config::load(e).unwrap().user_dir, None);
}

fn complaint(e: Environment) -> String {
    match Config::load(e) {
        Err(MiniAppError::Config(reason)) => reason,
        _ => panic!("no complaint"),
    }
}

#[test]
fn a_setting_that_is_no_text_is_an_error() {
    let mut e = env(&[]);
    e.schema = Err("MINI_APP_SCHEMA: bad".to_string());
    assert_eq!(complaint(e), "MINI_APP_SCHEMA: bad");
    let mut e = env(&[("MINI_APP_SCHEMA", Some("s.yaml"))]);
    e.db = Err("MINI_APP_DB: bad".to_string());
    assert_eq!(complaint(e), "MINI_APP_DB: bad");
    let mut e = env(&[]);
    e.user_dir = Err("MINI_APP_USER_DIR: bad".to_string());
    assert_eq!(complaint(e), "MINI_APP_USER_DIR: bad");
    let mut e = env(&[]);
    e.project_dir = Err("MINI_APP_PROJECT_DIR: bad".to_string());
    assert_eq!(complaint(e), "MINI_APP_PROJECT_DIR: bad");
    let mut e = env(&[]);
    e.backup_retention = Err("MINI_APP_BACKUP_RETENTION: bad".to_string());
    assert_eq!(complaint(e), "MINI_APP_BACKUP_RETENTION: bad");
    let mut e = env(&[]);
    e.snapshot_retention = Err("MINI_APP_SNAPSHOT_RETENTION: bad".to_string());
    assert_eq!(complaint(e), "MINI_APP_SNAPSHOT_RETENTION: bad");
}

#[test]
fn the_first_bad_setting_is_named() {
    let mut e = env(&[]);
    e.snapshot_retention = Err("last".to_string());
    e.db = Err("first".to_string());
    assert_eq!(complaint(e), "first");
}
