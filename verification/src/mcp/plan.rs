//! Plans: what a tool is going to do, step by step, and what it reports in the
//! end.
//!
//! A plan is made from what was read beforehand. Steps are carried out in order.
//! A step that fails ends the plan, unless the plan says otherwise, and an open
//! savepoint is then rolled back.

use vstd::prelude::*;
use vstd::string::*;

use crate::error;
use crate::error::ErrorModel;
use crate::error::MiniAppError;
use crate::json::JsonModel;
use crate::json::JsonValue;
use crate::path;
use crate::path::FilePath;
use crate::schema::{SchemaConfig, SchemaModel};
use crate::text;

verus! {

/// One thing to do.
#[derive(Debug, PartialEq, Eq)]
pub enum Step {
    /// Copy the schema file and the database of a table to the backups.
    Backup { scope_root: FilePath, table: String, yaml_path: FilePath, db_path: FilePath },
    /// Create a directory, with all that it lies in.
    CreateDir { path: FilePath },
    /// Write a schema file, in place of one that may be there.
    WriteSchema { path: FilePath, schema: SchemaConfig },
    /// Remove a schema file.
    RemoveSchema { path: FilePath },
    /// Delete the backups of a table beyond the newest `retention`.
    PurgeBackups { scope_root: FilePath, table: String, retention: usize },
    /// Open the database of a table, creating it where it does not exist.
    OpenStore { db_path: FilePath, schema: SchemaConfig },
    /// Read all tables anew.
    RebuildRegistry,
    /// Open a savepoint in the database of a table.
    OpenSavepoint { table: String },
    /// Run a statement in the savepoint.
    RunSql { sql: String, params: Vec<String> },
    /// Commit the savepoint.
    CommitSavepoint,
}

/// What a step is.
pub enum StepModel {
    Backup {
        scope_root: Seq<path::PartModel>,
        table: Seq<char>,
        yaml_path: Seq<path::PartModel>,
        db_path: Seq<path::PartModel>,
    },
    CreateDir { path: Seq<path::PartModel> },
    WriteSchema { path: Seq<path::PartModel>, schema: SchemaModel },
    RemoveSchema { path: Seq<path::PartModel> },
    PurgeBackups { scope_root: Seq<path::PartModel>, table: Seq<char>, retention: usize },
    OpenStore { db_path: Seq<path::PartModel>, schema: SchemaModel },
    RebuildRegistry,
    OpenSavepoint { table: Seq<char> },
    RunSql { sql: Seq<char>, params: Seq<Seq<char>> },
    CommitSavepoint,
}

impl View for Step {
    type V = StepModel;

    open spec fn view(&self) -> StepModel {
        match self {
            Step::Backup { scope_root, table, yaml_path, db_path } => StepModel::Backup {
                scope_root: scope_root@,
                table: table@,
                yaml_path: yaml_path@,
                db_path: db_path@,
            },
            Step::CreateDir { path } => StepModel::CreateDir { path: path@ },
            Step::WriteSchema { path, schema } => StepModel::WriteSchema {
                path: path@,
                schema: schema@,
            },
            Step::RemoveSchema { path } => StepModel::RemoveSchema { path: path@ },
            Step::PurgeBackups { scope_root, table, retention } => StepModel::PurgeBackups {
                scope_root: scope_root@,
                table: table@,
                retention: *retention,
            },
            Step::OpenStore { db_path, schema } => StepModel::OpenStore {
                db_path: db_path@,
                schema: schema@,
            },
            Step::RebuildRegistry => StepModel::RebuildRegistry,
            Step::OpenSavepoint { table } => StepModel::OpenSavepoint { table: table@ },
            Step::RunSql { sql, params } => StepModel::RunSql {
                sql: sql@,
                params: text::texts(params@),
            },
            Step::CommitSavepoint => StepModel::CommitSavepoint,
        }
    }
}

/// What the failure of a step means.
#[derive(Debug, PartialEq, Eq)]
pub enum OnFailure {
    /// The failure is reported as it is.
    Report,
    /// The batch is given up because of this op; the reason starts with the
    /// prefix.
    Abort { op_index: usize, prefix: String },
    /// The failure is reported as that of a backup; its text starts with the
    /// prefix.
    ReportBackup { prefix: String },
    /// The plan goes on.
    Continue,
}

/// What the failure of a step means, as a model.
pub enum OnFailureModel {
    Report,
    Abort { op_index: int, prefix: Seq<char> },
    ReportBackup { prefix: Seq<char> },
    Continue,
}

impl View for OnFailure {
    type V = OnFailureModel;

    open spec fn view(&self) -> OnFailureModel {
        match self {
            OnFailure::Report => OnFailureModel::Report,
            OnFailure::Abort { op_index, prefix } => OnFailureModel::Abort {
                op_index: *op_index as int,
                prefix: prefix@,
            },
            OnFailure::ReportBackup { prefix } => OnFailureModel::ReportBackup { prefix: prefix@ },
            OnFailure::Continue => OnFailureModel::Continue,
        }
    }
}

/// A step, and what its failure means.
#[derive(Debug, PartialEq, Eq)]
pub struct PlannedStep {
    pub step: Step,
    pub on_failure: OnFailure,
}

/// A planned step as a model.
pub struct PlannedModel {
    pub step: StepModel,
    pub on_failure: OnFailureModel,
}

impl View for PlannedStep {
    type V = PlannedModel;

    open spec fn view(&self) -> PlannedModel {
        PlannedModel { step: self.step@, on_failure: self.on_failure@ }
    }
}

/// The planned steps as models.
pub open spec fn step_models(steps: Seq<PlannedStep>) -> Seq<PlannedModel> {
    steps.map_values(|s: PlannedStep| s@)
}

/// A step whose failure is reported as it is.
pub open spec fn reported(step: StepModel) -> PlannedModel {
    PlannedModel { step, on_failure: OnFailureModel::Report }
}

/// What a batch did.
#[derive(Debug, PartialEq, Eq)]
pub struct BatchResult {
    /// Whether the batch was carried out.
    pub committed: bool,
    /// The number of its ops.
    pub ops_executed: usize,
    /// The schema files that were written or removed.
    pub yaml_writes: Vec<FilePath>,
    /// The directories that backups were written to.
    pub backups_written: Vec<FilePath>,
    /// Whether the tables were read anew.
    pub registry_rebuilt: bool,
}

/// What a batch did, as a model.
pub struct BatchModel {
    pub committed: bool,
    pub ops_executed: int,
    pub yaml_writes: Seq<Seq<path::PartModel>>,
    pub backups_written: Seq<Seq<path::PartModel>>,
    pub registry_rebuilt: bool,
}

/// The paths as models.
pub open spec fn path_models(paths: Seq<FilePath>) -> Seq<Seq<path::PartModel>> {
    paths.map_values(|p: FilePath| p@)
}

impl View for BatchResult {
    type V = BatchModel;

    open spec fn view(&self) -> BatchModel {
        BatchModel {
            committed: self.committed,
            ops_executed: self.ops_executed as int,
            yaml_writes: path_models(self.yaml_writes@),
            backups_written: path_models(self.backups_written@),
            registry_rebuilt: self.registry_rebuilt,
        }
    }
}

/// What a tool reports.
#[derive(Debug, PartialEq, Eq)]
pub enum Report {
    Json(JsonValue),
    Batch(BatchResult),
}

/// What a tool reports, as a model.
pub enum ReportModel {
    Json(JsonModel),
    Batch(BatchModel),
}

impl View for Report {
    type V = ReportModel;

    open spec fn view(&self) -> ReportModel {
        match self {
            Report::Json(v) => ReportModel::Json(v@),
            Report::Batch(b) => ReportModel::Batch(b@),
        }
    }
}

/// What is to be done, and what is reported when all of it is done.
#[derive(Debug, PartialEq, Eq)]
pub struct Plan {
    pub steps: Vec<PlannedStep>,
    pub outcome: Result<Report, MiniAppError>,
}

/// A plan as a model.
pub struct PlanModel {
    pub steps: Seq<PlannedModel>,
    pub outcome: Result<ReportModel, ErrorModel>,
}

impl View for Plan {
    type V = PlanModel;

    open spec fn view(&self) -> PlanModel {
        PlanModel {
            steps: step_models(self.steps@),
            outcome: match self.outcome {
                Ok(r) => Ok(r@),
                Err(e) => Err(e@),
            },
        }
    }
}

/// The outcome of planning, as a model.
pub open spec fn plan_outcome(r: Result<Plan, MiniAppError>) -> Result<PlanModel, ErrorModel> {
    match r {
        Ok(p) => Ok(p@),
        Err(e) => Err(e@),
    }
}

/// Whether a savepoint is open after the first `n` steps.
pub open spec fn savepoint_open(steps: Seq<PlannedModel>, n: int) -> bool
    decreases n,
{
    if n <= 0 {
        false
    } else {
        match steps[n - 1].step {
            StepModel::OpenSavepoint { table } => true,
            StepModel::CommitSavepoint => false,
            _ => savepoint_open(steps, n - 1),
        }
    }
}

/// Why a step failed.
#[derive(Debug, PartialEq, Eq)]
pub enum StepError {
    /// A file could not be read or written.
    Io(String),
    /// The database reported an error.
    Sql(String),
    /// Any other failure.
    Known(MiniAppError),
}

/// The failure as an error of its own.
pub open spec fn raised(e: StepError) -> ErrorModel {
    match e {
        StepError::Io(t) => ErrorModel::Io(t@),
        StepError::Sql(t) => ErrorModel::Storage(t@),
        StepError::Known(e) => e@,
    }
}

/// The text of the failure.
pub open spec fn said(e: StepError) -> Seq<char> {
    match e {
        StepError::Io(t) => t@,
        StepError::Sql(t) => t@,
        StepError::Known(e) => error::message_of(e@),
    }
}

/// The error that ends the plan when a step fails, if it ends it.
pub open spec fn ends_with(on_failure: OnFailureModel, e: StepError) -> Option<ErrorModel> {
    match on_failure {
        OnFailureModel::Report => Some(raised(e)),
        OnFailureModel::Abort { op_index, prefix } => Some(
            ErrorModel::BatchAborted { op_index, reason: prefix + said(e) },
        ),
        OnFailureModel::ReportBackup { prefix } => Some(ErrorModel::Backup(prefix + said(e))),
        OnFailureModel::Continue => None,
    }
}

/// What comes next in carrying out a plan.
#[derive(Debug, PartialEq, Eq)]
pub enum Next {
    /// Carry out the step of this number.
    Perform(usize),
    /// Stop with this error, after rolling back the savepoint where one is open.
    Stop { rollback: bool, error: MiniAppError },
    /// Report the outcome of the plan, after rolling back the savepoint where one
    /// is open.
    Finish { rollback: bool },
}

/// What comes next, as a model.
pub enum NextModel {
    Perform(int),
    Stop { rollback: bool, error: ErrorModel },
    Finish { rollback: bool },
}

impl View for Next {
    type V = NextModel;

    open spec fn view(&self) -> NextModel {
        match self {
            Next::Perform(i) => NextModel::Perform(*i as int),
            Next::Stop { rollback, error } => NextModel::Stop {
                rollback: *rollback,
                error: error@,
            },
            Next::Finish { rollback } => NextModel::Finish { rollback: *rollback },
        }
    }
}

/// What comes next once the first `done` steps are done.
pub open spec fn next_after(steps: Seq<PlannedModel>, done: int) -> NextModel {
    if done < steps.len() {
        NextModel::Perform(done)
    } else {
        NextModel::Finish { rollback: savepoint_open(steps, steps.len() as int) }
    }
}

/// What comes next once the step of number `at` has failed.
pub open spec fn next_after_failure(
    steps: Seq<PlannedModel>,
    at: int,
    e: StepError,
) -> NextModel {
    match ends_with(steps[at].on_failure, e) {
        Some(error) => NextModel::Stop { rollback: savepoint_open(steps, at), error },
        None => next_after(steps, at + 1),
    }
}

impl StepError {
    fn raise(self) -> (r: MiniAppError)
        ensures
            r@ == raised(self),
    {
        match self {
            StepError::Io(t) => MiniAppError::Io(t),
            StepError::Sql(t) => MiniAppError::Storage(t),
            StepError::Known(e) => e,
        }
    }

    fn say(&self) -> (r: String)
        ensures
            r@ == said(*self),
    {
        match self {
            StepError::Io(t) => t.clone(),
            StepError::Sql(t) => t.clone(),
            StepError::Known(e) => e.message(),
        }
    }
}

impl Plan {
    /// A plan without steps.
    pub fn report(value: JsonValue) -> (r: Plan)
        ensures
            r@ == (PlanModel { steps: Seq::empty(), outcome: Ok(ReportModel::Json(value@)) }),
    {
        let r = Plan { steps: Vec::new(), outcome: Ok(Report::Json(value)) };
        assert(r@.steps =~= Seq::<PlannedModel>::empty());
        r
    }

    fn savepoint_open_after(&self, n: usize) -> (r: bool)
        requires
            n <= self.steps@.len(),
        ensures
            r == savepoint_open(self@.steps, n as int),
    {
        let mut open: bool = false;
        let mut i: usize = 0;
        while i < n
            invariant
                i <= n <= self.steps@.len(),
                open == savepoint_open(self@.steps, i as int),
            decreases n - i,
        {
            assert(self@.steps[i as int] == self.steps@[i as int]@);
            match &self.steps[i].step {
                Step::OpenSavepoint { .. } => {
                    open = true;
                },
                Step::CommitSavepoint => {
                    open = false;
                },
                _ => {},
            }
            i += 1;
        }
        open
    }

    /// What comes next once the first `done` steps are done: the next step, or,
    /// when all are done, the outcome.
    pub fn next(&self, done: usize) -> (r: Next)
        ensures
            r@ == next_after(self@.steps, done as int),
    {
        if done < self.steps.len() {
            Next::Perform(done)
        } else {
            Next::Finish { rollback: self.savepoint_open_after(self.steps.len()) }
        }
    }

    /// What comes next once the step of number `at` has failed.
    pub fn next_on_failure(&self, at: usize, failure: StepError) -> (r: Next)
        requires
            at < self.steps@.len(),
        ensures
            r@ == next_after_failure(self@.steps, at as int, failure),
    {
        assert(self@.steps[at as int] == self.steps@[at as int]@);
        let n: usize = self.steps.len();
        assert(at < n);
        match &self.steps[at].on_failure {
            OnFailure::Report => Next::Stop {
                rollback: self.savepoint_open_after(at),
                error: failure.raise(),
            },
            OnFailure::Abort { op_index, prefix } => Next::Stop {
                rollback: self.savepoint_open_after(at),
                error: MiniAppError::BatchAborted {
                    op_index: *op_index,
                    reason: prefix.clone().concat(failure.say().as_str()),
                },
            },
            OnFailure::ReportBackup { prefix } => Next::Stop {
                rollback: self.savepoint_open_after(at),
                error: MiniAppError::Backup(prefix.clone().concat(failure.say().as_str())),
            },
            OnFailure::Continue => self.next(at + 1),
        }
    }
}

/// A step that changes a schema file, or the tables that are mounted.
pub open spec fn changes_schema(step: StepModel) -> bool {
    step is WriteSchema || step is RemoveSchema || step is RebuildRegistry
}

/// A step that changes nothing outside the backups and the savepoint.
pub open spec fn leaves_tables_alone(step: StepModel) -> bool {
    step is Backup || step is CreateDir || step is OpenSavepoint || step is RunSql
}

/// Whether some step among the first `n` opens a savepoint that none of those after
/// it commits.
pub open spec fn left_open(steps: Seq<PlannedModel>, n: int) -> bool {
    exists|k: int|
        #![trigger steps[k]]
        0 <= k < n && steps[k].step is OpenSavepoint && forall|j: int|
            k < j < n ==> !((#[trigger] steps[j]).step is CommitSavepoint)
}

/// A savepoint is open where one was opened and not committed since.
pub proof fn savepoints_are_open_until_committed(steps: Seq<PlannedModel>, n: int)
    requires
        0 <= n <= steps.len(),
    ensures
        savepoint_open(steps, n) <==> left_open(steps, n),
    decreases n,
{
    if n > 0 {
        savepoints_are_open_until_committed(steps, n - 1);
        if savepoint_open(steps, n) {
            if steps[n - 1].step is OpenSavepoint {
                assert(left_open(steps, n));
            } else {
                let k = choose|k: int|
                    #![trigger steps[k]]
                    0 <= k < n - 1 && steps[k].step is OpenSavepoint && forall|j: int|
                        k < j < n - 1 ==> !((#[trigger] steps[j]).step is CommitSavepoint);
                assert(steps[k].step is OpenSavepoint);
            }
        }
        if left_open(steps, n) {
            let k = choose|k: int|
                #![trigger steps[k]]
                0 <= k < n && steps[k].step is OpenSavepoint && forall|j: int|
                    k < j < n ==> !((#[trigger] steps[j]).step is CommitSavepoint);
            if k < n - 1 {
                assert(!(steps[n - 1].step is CommitSavepoint));
                assert(left_open(steps, n - 1));
            }
        }
    }
}

/// How a plan goes on: step by step, and, when all are done, to its outcome, after
/// rolling back what is left open. A step that fails ends the plan, after rolling
/// back what was left open by then, unless the plan is to go on; the error is the
/// failure as it is, or that of the op, or of a backup, with what the plan says
/// before its text.
pub proof fn plans_go_on_until_a_step_fails(
    steps: Seq<PlannedModel>,
    done: int,
    e: StepError,
)
    requires
        0 <= done <= steps.len(),
    ensures
        done < steps.len() ==> next_after(steps, done) == NextModel::Perform(done),
        done == steps.len() ==> next_after(steps, done) == (NextModel::Finish {
            rollback: left_open(steps, done),
        }),
        done < steps.len() ==> ({
            let next = next_after_failure(steps, done, e);
            match steps[done].on_failure {
                OnFailureModel::Continue => next == next_after(steps, done + 1),
                OnFailureModel::Report => next == (NextModel::Stop {
                    rollback: left_open(steps, done),
                    error: match e {
                        StepError::Io(t) => ErrorModel::Io(t@),
                        StepError::Sql(t) => ErrorModel::Storage(t@),
                        StepError::Known(known) => known@,
                    },
                }),
                OnFailureModel::Abort { op_index, prefix } => next == (NextModel::Stop {
                    rollback: left_open(steps, done),
                    error: ErrorModel::BatchAborted {
                        op_index,
                        reason: prefix + (match e {
                            StepError::Io(t) => t@,
                            StepError::Sql(t) => t@,
                            StepError::Known(known) => error::message_of(known@),
                        }),
                    },
                }),
                OnFailureModel::ReportBackup { prefix } => next == (NextModel::Stop {
                    rollback: left_open(steps, done),
                    error: ErrorModel::Backup(
                        prefix + (match e {
                            StepError::Io(t) => t@,
                            StepError::Sql(t) => t@,
                            StepError::Known(known) => error::message_of(known@),
                        }),
                    ),
                }),
            }
        }),
{
    savepoints_are_open_until_committed(steps, done);
}

/// Plans say what they hold.
pub proof fn plans_say_what_they_hold(p: Plan, s: PlannedStep, i: int)
    ensures
        p@.steps.len() == p.steps@.len(),
        0 <= i < p.steps@.len() ==> p@.steps[i] == p.steps@[i]@,
        p.outcome matches Ok(r) ==> p@.outcome == Ok::<ReportModel, ErrorModel>(r@),
        p.outcome matches Err(e) ==> p@.outcome == Err::<ReportModel, ErrorModel>(e@),
        s@.step == s.step@ && s@.on_failure == s.on_failure@,
        s.step matches Step::WriteSchema { path, schema } ==> s@.step == (StepModel::WriteSchema {
            path: path@,
            schema: schema@,
        }),
        s.step matches Step::RemoveSchema { path } ==> s@.step == (StepModel::RemoveSchema {
            path: path@,
        }),
        s.step matches Step::OpenStore { db_path, schema } ==> s@.step == (StepModel::OpenStore {
            db_path: db_path@,
            schema: schema@,
        }),
        s.step matches Step::Backup { scope_root, table, yaml_path, db_path } ==> s@.step == (
        StepModel::Backup {
            scope_root: scope_root@,
            table: table@,
            yaml_path: yaml_path@,
            db_path: db_path@,
        }),
        s.step matches Step::PurgeBackups { scope_root, table, retention } ==> s@.step == (
        StepModel::PurgeBackups { scope_root: scope_root@, table: table@, retention }),
        s.step matches Step::CreateDir { path } ==> s@.step == (StepModel::CreateDir {
            path: path@,
        }),
        s.step matches Step::OpenSavepoint { table } ==> s@.step == (StepModel::OpenSavepoint {
            table: table@,
        }),
        s.step matches Step::RunSql { sql, params } ==> (s@.step matches StepModel::RunSql {
            sql: q,
            params: ps,
        } && q == sql@ && ps == text::texts(params@)),
        s.step is RebuildRegistry <==> s@.step is RebuildRegistry,
        s.step is CommitSavepoint <==> s@.step is CommitSavepoint,
        s.on_failure is Report <==> s@.on_failure is Report,
        s.on_failure is Continue <==> s@.on_failure is Continue,
        s.on_failure matches OnFailure::Abort { op_index, prefix } ==> s@.on_failure == (
        OnFailureModel::Abort { op_index: op_index as int, prefix: prefix@ }),
        s.on_failure matches OnFailure::ReportBackup { prefix } ==> s@.on_failure == (
        OnFailureModel::ReportBackup { prefix: prefix@ }),
{
}

/// Reports, and what comes next, say what they hold.
pub proof fn reports_say_what_they_hold(r: Report, b: BatchResult, n: Next, i: int)
    ensures
        r matches Report::Json(v) ==> r@ == ReportModel::Json(v@),
        r matches Report::Batch(c) ==> r@ == ReportModel::Batch(c@),
        b@.committed == b.committed,
        b@.ops_executed == b.ops_executed,
        b@.registry_rebuilt == b.registry_rebuilt,
        b@.yaml_writes.len() == b.yaml_writes@.len(),
        0 <= i < b.yaml_writes@.len() ==> b@.yaml_writes[i] == b.yaml_writes@[i]@,
        b@.backups_written.len() == b.backups_written@.len(),
        0 <= i < b.backups_written@.len() ==> b@.backups_written[i] == b.backups_written@[i]@,
        n matches Next::Perform(k) ==> n@ == NextModel::Perform(k as int),
        n matches Next::Stop { rollback, error } ==> n@ == (NextModel::Stop {
            rollback,
            error: error@,
        }),
        n matches Next::Finish { rollback } ==> n@ == (NextModel::Finish { rollback }),
{
}

} // verus!
