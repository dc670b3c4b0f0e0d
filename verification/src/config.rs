//! The configuration of the server.

use vstd::prelude::*;

use crate::error::ErrorModel;
use crate::error::MiniAppError;
use crate::path;
use crate::path::{FilePath, PathPart};
use crate::text;

verus! {

/// The settings that the environment holds, each where it is set, and the home
/// directory of the user, where it is known. A setting that is there and cannot be
/// read, as it is no text, comes as the complaint about it.
pub struct Environment {
    /// `MINI_APP_SCHEMA`
    pub schema: Result<Option<FilePath>, String>,
    /// `MINI_APP_DB`
    pub db: Result<Option<FilePath>, String>,
    /// `MINI_APP_USER_DIR`
    pub user_dir: Result<Option<FilePath>, String>,
    /// `MINI_APP_PROJECT_DIR`
    pub project_dir: Result<Option<FilePath>, String>,
    /// `MINI_APP_BACKUP_RETENTION`
    pub backup_retention: Result<Option<String>, String>,
    /// `MINI_APP_SNAPSHOT_RETENTION`
    pub snapshot_retention: Result<Option<String>, String>,
    pub home_dir: Option<FilePath>,
}

/// The configuration of the server.
#[derive(Debug, PartialEq, Eq)]
pub struct Config {
    /// The schema file of the one table of legacy mode.
    pub schema_path: Option<FilePath>,
    /// The database file of the one table of legacy mode.
    pub db_path: Option<FilePath>,
    /// The directory of the tables of the user.
    pub user_dir: Option<FilePath>,
    /// The directory of the tables of the project.
    pub project_dir: Option<FilePath>,
    /// How many backups of a table are kept, where that is set.
    pub backup_retention: Option<usize>,
    /// How many snapshots of a table are kept, where that is set.
    pub snapshot_retention: Option<usize>,
}

/// What a configuration says.
pub struct ConfigModel {
    pub schema_path: Option<Seq<path::PartModel>>,
    pub db_path: Option<Seq<path::PartModel>>,
    pub user_dir: Option<Seq<path::PartModel>>,
    pub project_dir: Option<Seq<path::PartModel>>,
    pub backup_retention: Option<usize>,
    pub snapshot_retention: Option<usize>,
}

impl View for Config {
    type V = ConfigModel;

    open spec fn view(&self) -> ConfigModel {
        ConfigModel {
            schema_path: path::path_option(self.schema_path),
            db_path: path::path_option(self.db_path),
            user_dir: path::path_option(self.user_dir),
            project_dir: path::path_option(self.project_dir),
            backup_retention: self.backup_retention,
            snapshot_retention: self.snapshot_retention,
        }
    }
}

/// The number of copies that a setting asks for, where it spells a number that
/// fits.
pub open spec fn retention_set(setting: Option<Seq<char>>) -> Option<usize> {
    match setting {
        Some(s) => match text::number_spelt(s) {
            Some(n) => if n <= usize::MAX {
                Some(n as usize)
            } else {
                None
            },
            None => None,
        },
        None => None,
    }
}

/// The complaint about a setting that cannot be read.
pub open spec fn complaint<T>(setting: Result<T, String>) -> Option<Seq<char>> {
    match setting {
        Ok(_) => None,
        Err(e) => Some(e@),
    }
}

/// The complaint about the first setting that cannot be read, if there is one.
pub open spec fn first_complaint(env: Environment) -> Option<Seq<char>> {
    if env.schema is Err {
        complaint(env.schema)
    } else if env.db is Err {
        complaint(env.db)
    } else if env.user_dir is Err {
        complaint(env.user_dir)
    } else if env.project_dir is Err {
        complaint(env.project_dir)
    } else if env.backup_retention is Err {
        complaint(env.backup_retention)
    } else {
        complaint(env.snapshot_retention)
    }
}

/// A setting that can be read.
pub open spec fn setting<T>(s: Result<Option<T>, String>) -> Option<T> {
    s->Ok_0
}

/// The configuration for an environment whose settings can be read: the directory
/// of the user defaults to `.mini-app` in the home directory, that of the project
/// to `.mini-app` in the working directory.
pub open spec fn configured(env: Environment) -> ConfigModel {
    ConfigModel {
        schema_path: path::path_option(setting(env.schema)),
        db_path: path::path_option(setting(env.db)),
        user_dir: match setting(env.user_dir) {
            Some(d) => Some(d@),
            None => match env.home_dir {
                Some(h) => Some(path::under(h@, ".mini-app"@)),
                None => None,
            },
        },
        project_dir: match setting(env.project_dir) {
            Some(d) => Some(d@),
            None => Some(seq![path::PartModel::Name(".mini-app"@)]),
        },
        backup_retention: retention_set(text::text_option(setting(env.backup_retention))),
        snapshot_retention: retention_set(text::text_option(setting(env.snapshot_retention))),
    }
}

/// Whether a configuration is one of legacy mode.
pub open spec fn in_legacy_mode(config: ConfigModel) -> bool {
    config.schema_path is Some && config.db_path is Some
}

/// How many copies are kept where nothing else is set.
pub const DEFAULT_RETENTION: usize = 10;

fn read_retention(setting: &Option<String>) -> (r: Option<usize>)
    ensures
        r == retention_set(text::text_option(*setting)),
{
    match setting {
        Some(s) => match text::read_number(s) {
            Some(n) => if n <= usize::MAX as u64 {
                Some(n as usize)
            } else {
                None
            },
            None => None,
        },
        None => None,
    }
}

impl Config {
    /// The configuration for an environment. None of the settings is required; one
    /// that is there and cannot be read is an error.
    pub fn load(env: Environment) -> (r: Result<Config, MiniAppError>)
        ensures
            match r {
                Ok(c) => first_complaint(env) is None && c@ == configured(env),
                Err(e) => first_complaint(env) matches Some(t) && e@ == ErrorModel::Config(t),
            },
    {
        let schema: Option<FilePath> = match env.schema {
            Ok(v) => v,
            Err(e) => {
                return Err(MiniAppError::Config(e));
            },
        };
        let db: Option<FilePath> = match env.db {
            Ok(v) => v,
            Err(e) => {
                return Err(MiniAppError::Config(e));
            },
        };
        let user_dir: Option<FilePath> = match env.user_dir {
            Ok(v) => v,
            Err(e) => {
                return Err(MiniAppError::Config(e));
            },
        };
        let project_dir: Option<FilePath> = match env.project_dir {
            Ok(v) => v,
            Err(e) => {
                return Err(MiniAppError::Config(e));
            },
        };
        let backup_retention: Option<String> = match env.backup_retention {
            Ok(v) => v,
            Err(e) => {
                return Err(MiniAppError::Config(e));
            },
        };
        let snapshot_retention: Option<String> = match env.snapshot_retention {
            Ok(v) => v,
            Err(e) => {
                return Err(MiniAppError::Config(e));
            },
        };
        let backup_retention: Option<usize> = read_retention(&backup_retention);
        let snapshot_retention: Option<usize> = read_retention(&snapshot_retention);
        let user_dir: Option<FilePath> = match user_dir {
            Some(d) => Some(d),
            None => match env.home_dir {
                Some(h) => Some(h.join(".mini-app")),
                None => None,
            },
        };
        let project_dir: Option<FilePath> = match project_dir {
            Some(d) => Some(d),
            None => {
                let mut parts: Vec<PathPart> = Vec::new();
                parts.push(PathPart::Name(".mini-app".to_owned()));
                let d: FilePath = FilePath::new(parts);
                assert(d@ =~= seq![path::PartModel::Name(".mini-app"@)]);
                Some(d)
            },
        };
        Ok(
            Config {
                schema_path: schema,
                db_path: db,
                user_dir,
                project_dir,
                backup_retention,
                snapshot_retention,
            },
        )
    }

    /// Whether the server runs in legacy mode: both the schema file and the
    /// database file of its one table are set.
    pub fn has_legacy_env(&self) -> (r: bool)
        ensures
            r == (self.schema_path is Some && self.db_path is Some),
            r == in_legacy_mode(self@),
    {
        self.schema_path.is_some() && self.db_path.is_some()
    }

    /// How many backups of a table are kept.
    pub fn backup_retention(&self) -> (r: usize)
        ensures
            r == (match self.backup_retention {
                Some(n) => n,
                None => DEFAULT_RETENTION,
            }),
    {
        match self.backup_retention {
            Some(n) => n,
            None => DEFAULT_RETENTION,
        }
    }

    /// How many snapshots of a table are kept.
    pub fn snapshot_retention(&self) -> (r: usize)
        ensures
            r == (match self.snapshot_retention {
                Some(n) => n,
                None => DEFAULT_RETENTION,
            }),
    {
        match self.snapshot_retention {
            Some(n) => n,
            None => DEFAULT_RETENTION,
        }
    }
}

/// The two retention settings do not touch each other: the number of backups
/// rests on its own setting alone, and so does the number of snapshots.
pub proof fn retentions_are_separate(a: Environment, b: Environment)
    ensures
        a.backup_retention == b.backup_retention ==> configured(a).backup_retention == configured(
            b,
        ).backup_retention,
        a.snapshot_retention == b.snapshot_retention ==> configured(a).snapshot_retention
            == configured(b).snapshot_retention,
{
}

/// Where a setting leads: a path that is set is taken as it is; the directory of the
/// user is otherwise `.mini-app` in the home directory, where that is known, and that
/// of the project `.mini-app` in the working directory; and a number of copies is
/// taken where it is set and spells a number that fits.
pub proof fn settings_are_taken_as_set(env: Environment)
    requires
        env.schema is Ok && env.db is Ok && env.user_dir is Ok && env.project_dir is Ok,
        env.backup_retention is Ok && env.snapshot_retention is Ok,
    ensures
        first_complaint(env) is None,
        ({
            let c = configured(env);
            &&& env.schema->Ok_0 matches Some(p) ==> c.schema_path == Some(p@)
            &&& env.schema->Ok_0 is None ==> c.schema_path is None
            &&& env.db->Ok_0 matches Some(p) ==> c.db_path == Some(p@)
            &&& env.db->Ok_0 is None ==> c.db_path is None
            &&& env.user_dir->Ok_0 matches Some(p) ==> c.user_dir == Some(p@)
            &&& env.user_dir->Ok_0 is None && env.home_dir is None ==> c.user_dir is None
            &&& env.user_dir->Ok_0 is None && env.home_dir is Some ==> c.user_dir == Some(
                env.home_dir->0@.push(path::PartModel::Name(".mini-app"@)),
            )
            &&& env.project_dir->Ok_0 matches Some(p) ==> c.project_dir == Some(p@)
            &&& env.project_dir->Ok_0 is None ==> c.project_dir == Some(
                seq![path::PartModel::Name(".mini-app"@)],
            )
            &&& copies_as_set(env.backup_retention->Ok_0, c.backup_retention)
            &&& copies_as_set(env.snapshot_retention->Ok_0, c.snapshot_retention)
        }),
{
}

/// Whether a number of copies is the one that a setting spells, and none where it
/// spells none that fits.
pub open spec fn copies_as_set(setting: Option<String>, copies: Option<usize>) -> bool {
    match setting {
        None => copies is None,
        Some(s) => match text::number_spelt(s@) {
            None => copies is None,
            Some(n) => if n <= usize::MAX {
                copies == Some(n as usize)
            } else {
                copies is None
            },
        },
    }
}

/// A setting that cannot be read is complained about, the first of them where there
/// are several.
pub proof fn unreadable_settings_are_complained_about(env: Environment)
    ensures
        first_complaint(env) is None <==> env.schema is Ok && env.db is Ok && env.user_dir is Ok
            && env.project_dir is Ok && env.backup_retention is Ok && env.snapshot_retention is Ok,
        env.schema matches Err(e) ==> first_complaint(env) == Some(e@),
        env.schema is Ok && env.db is Err ==> first_complaint(env) == Some(env.db->Err_0@),
        env.schema is Ok && env.db is Ok && env.user_dir is Err ==> first_complaint(env) == Some(
            env.user_dir->Err_0@,
        ),
        env.schema is Ok && env.db is Ok && env.user_dir is Ok && env.project_dir is Err
            ==> first_complaint(env) == Some(env.project_dir->Err_0@),
        env.schema is Ok && env.db is Ok && env.user_dir is Ok && env.project_dir is Ok
            && env.backup_retention is Err ==> first_complaint(env) == Some(
            env.backup_retention->Err_0@,
        ),
        env.schema is Ok && env.db is Ok && env.user_dir is Ok && env.project_dir is Ok
            && env.backup_retention is Ok && env.snapshot_retention is Err ==> first_complaint(env)
            == Some(env.snapshot_retention->Err_0@),
{
}

/// A configuration says what it holds.
pub proof fn configurations_say_what_they_hold(c: Config)
    ensures
        c.schema_path matches Some(p) ==> c@.schema_path == Some(p@),
        c.schema_path is None ==> c@.schema_path is None,
        c.db_path matches Some(p) ==> c@.db_path == Some(p@),
        c.db_path is None ==> c@.db_path is None,
        c.user_dir matches Some(p) ==> c@.user_dir == Some(p@),
        c.user_dir is None ==> c@.user_dir is None,
        c.project_dir matches Some(p) ==> c@.project_dir == Some(p@),
        c.project_dir is None ==> c@.project_dir is None,
        c@.backup_retention == c.backup_retention,
        c@.snapshot_retention == c.snapshot_retention,
{
}

/// Legacy mode needs both the schema file and the database file; one of them alone is
/// not enough. Where nothing is set, 10 copies are kept.
pub proof fn legacy_mode_needs_both_files(config: ConfigModel)
    ensures
        config.schema_path is None ==> !in_legacy_mode(config),
        config.db_path is None ==> !in_legacy_mode(config),
        config.schema_path is Some && config.db_path is Some ==> in_legacy_mode(config),
        DEFAULT_RETENTION == 10,
{
}

} // verus!
