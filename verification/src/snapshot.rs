//! Snapshots and backups of tables: their file names, which of them are kept,
//! and the `data_snapshot` tool.

use vstd::multiset::Multiset;
use vstd::prelude::*;
use vstd::string::*;

use crate::config::{Config, ConfigModel};
use crate::error;
use crate::error::ErrorModel;
use crate::error::MiniAppError;
use crate::json;
use crate::json::JsonModel;
use crate::json::{JsonNumber, JsonObject, JsonValue};
use crate::mcp::registry;
use crate::mcp::registry::{TableEntry, TableRegistry};
use crate::mcp::schema_tools;
use crate::path;
use crate::path::FilePath;
use crate::text;

verus! {

broadcast use vstd::map::group_map_axioms;

/// The name of the file that holds a copy of a table made at a time:
/// `<table>.<seconds>.<ext>`.
pub open spec fn copy_name(table: Seq<char>, secs: u64, ext: Seq<char>) -> Seq<char> {
    table + "."@ + text::decimal(secs as nat) + "."@ + ext
}

/// The time in the name of a copy of `table`, where it is such a name.
pub open spec fn time_of_copy(name: Seq<char>, table: Seq<char>, ext: Seq<char>) -> Option<u64> {
    let prefix = table + "."@;
    let suffix = "."@ + ext;
    if prefix.is_prefix_of(name) && suffix.is_suffix_of(name.skip(prefix.len() as int)) {
        let rest = name.skip(prefix.len() as int);
        text::number_spelt(rest.take(rest.len() - suffix.len()))
    } else {
        None
    }
}

/// The time can be read back from the name of a copy.
pub proof fn time_is_read_back(table: Seq<char>, secs: u64, ext: Seq<char>)
    ensures
        time_of_copy(copy_name(table, secs, ext), table, ext) == Some(secs),
{
    let name = copy_name(table, secs, ext);
    let prefix = table + "."@;
    let suffix = "."@ + ext;
    let digits = text::decimal(secs as nat);
    let rest = name.skip(prefix.len() as int);
    assert(name.subrange(0, prefix.len() as int) =~= prefix);
    assert(rest =~= digits + suffix);
    assert(rest.subrange(rest.len() - suffix.len(), rest.len() as int) =~= suffix);
    assert(rest.take(rest.len() - suffix.len()) =~= digits);
    text::number_spelt_of_decimal(secs);
}

/// The name of a copy.
pub fn name_of_copy(table: &str, secs: u64, ext: &str) -> (r: String)
    ensures
        r@ == copy_name(table@, secs, ext@),
{
    table.to_owned().concat(".").concat(text::decimal_of(secs).as_str()).concat(".").concat(ext)
}

/// Whether `part` stands in `chars` at `at`.
fn stands_at(chars: &Vec<char>, part: &Vec<char>, at: usize) -> (r: bool)
    requires
        at + part@.len() <= chars@.len(),
    ensures
        r == (chars@.subrange(at as int, at + part@.len()) == part@),
{
    let n: usize = chars.len();
    let mut i: usize = 0;
    while i < part.len()
        invariant
            i <= part@.len(),
            at + part@.len() <= n,
            n == chars@.len(),
            forall|j: int| 0 <= j < i ==> chars@[at + j] == part@[j],
        decreases part@.len() - i,
    {
        if chars[at + i] != part[i] {
            assert(chars@.subrange(at as int, at + part@.len())[i as int] != part@[i as int]);
            return false;
        }
        i += 1;
    }
    assert(chars@.subrange(at as int, at + part@.len()) =~= part@);
    true
}

/// The time in the name of a copy of `table`: see [`time_of_copy`].
pub fn parse_snapshot_timestamp(filename: &str, table: &str, ext: &str) -> (r: Option<u64>)
    ensures
        r == time_of_copy(filename@, table@, ext@),
{
    let name: Vec<char> = text::chars_of(filename);
    let prefix: Vec<char> = text::chars_of(table.to_owned().concat(".").as_str());
    let suffix: Vec<char> = text::chars_of(".".to_owned().concat(ext).as_str());
    if prefix.len() > name.len() || !stands_at(&name, &prefix, 0) {
        return None;
    }
    let ghost rest = filename@.skip(prefix@.len() as int);
    assert(prefix@.is_prefix_of(filename@));
    if suffix.len() > name.len() - prefix.len() {
        return None;
    }
    let end: usize = name.len() - suffix.len();
    assert(rest.subrange(rest.len() - suffix@.len(), rest.len() as int) =~= filename@.subrange(
        end as int,
        end + suffix@.len(),
    ));
    if !stands_at(&name, &suffix, end) {
        return None;
    }
    let digits: String = text::text_of(&name, prefix.len(), end);
    assert(digits@ =~= rest.take(rest.len() - suffix@.len()));
    text::read_number(digits.as_str())
}

/// The times in the names of the copies of `table` among the files of a
/// directory, in the order of the files.
pub open spec fn times_of_copies(names: Seq<Seq<char>>, table: Seq<char>, ext: Seq<char>) -> Seq<
    u64,
>
    decreases names.len(),
{
    if names.len() == 0 {
        Seq::empty()
    } else {
        match time_of_copy(names.last(), table, ext) {
            Some(t) => times_of_copies(names.drop_last(), table, ext).push(t),
            None => times_of_copies(names.drop_last(), table, ext),
        }
    }
}

/// The times of the copies of `table` among files.
pub fn copy_times(names: &Vec<String>, table: &str, ext: &str) -> (r: Vec<u64>)
    ensures
        r@ == times_of_copies(text::texts(names@), table@, ext@),
        r@.len() <= names@.len(),
{
    let ghost all = text::texts(names@);
    let mut r: Vec<u64> = Vec::new();
    let mut i: usize = 0;
    assert(all.take(0) =~= Seq::<Seq<char>>::empty());
    while i < names.len()
        invariant
            i <= names@.len(),
            all == text::texts(names@),
            r@ == times_of_copies(all.take(i as int), table@, ext@),
            r@.len() <= i,
        decreases names@.len() - i,
    {
        let ghost upto = all.take(i + 1);
        assert(upto.drop_last() =~= all.take(i as int));
        assert(upto.last() == names@[i as int]@);
        match parse_snapshot_timestamp(&names[i], table, ext) {
            Some(t) => {
                r.push(t);
            },
            None => {},
        }
        i += 1;
    }
    assert(all.take(all.len() as int) =~= all);
    r
}

/// `sorted` holds the times of `times`, each as often, newest first.
pub open spec fn sorts(sorted: Seq<u64>, times: Seq<u64>) -> bool {
    &&& sorted.to_multiset() == times.to_multiset()
    &&& forall|i: int, j: int| 0 <= i < j < sorted.len() ==> sorted[i] >= sorted[j]
}

/// The times, newest first.
pub open spec fn newest_first(times: Seq<u64>) -> Seq<u64> {
    choose|sorted: Seq<u64>| sorts(sorted, times)
}

proof fn sorting_is_unique(a: Seq<u64>, b: Seq<u64>)
    requires
        a.to_multiset() == b.to_multiset(),
        forall|i: int, j: int| 0 <= i < j < a.len() ==> a[i] >= a[j],
        forall|i: int, j: int| 0 <= i < j < b.len() ==> b[i] >= b[j],
    ensures
        a == b,
    decreases a.len(),
{
    broadcast use vstd::seq_lib::group_to_multiset_ensures;

    assert(a.len() == a.to_multiset().len());
    assert(b.len() == b.to_multiset().len());
    if a.len() == 0 {
        assert(a =~= b);
    } else {
        assert(a.contains(a[0]));
        assert(a.to_multiset().count(a[0]) > 0);
        assert(b.to_multiset().count(a[0]) > 0);
        assert(b.contains(a[0]));
        let i = choose|i: int| 0 <= i < b.len() && b[i] == a[0];
        assert(b.contains(b[0]));
        assert(b.to_multiset().count(b[0]) > 0);
        assert(a.to_multiset().count(b[0]) > 0);
        assert(a.contains(b[0]));
        let j = choose|j: int| 0 <= j < a.len() && a[j] == b[0];
        assert(a[0] == b[0]);
        let c = a.drop_first();
        let d = b.drop_first();
        assert(a =~= seq![a[0]] + c);
        assert(b =~= seq![b[0]] + d);
        assert(c =~= a.remove(0));
        assert(d =~= b.remove(0));
        assert(c.to_multiset() =~= a.to_multiset().remove(a[0]));
        assert(d.to_multiset() =~= b.to_multiset().remove(b[0]));
        sorting_is_unique(c, d);
    }
}

/// Sorting is determined by its result: what sorts the times is the times, newest
/// first.
pub proof fn newest_first_is_determined(sorted: Seq<u64>, times: Seq<u64>)
    requires
        sorts(sorted, times),
    ensures
        newest_first(times) == sorted,
{
    sorting_is_unique(sorted, newest_first(times));
}

/// The times, newest first.
pub fn sort_newest_first(times: &Vec<u64>) -> (r: Vec<u64>)
    ensures
        r@ == newest_first(times@),
        sorts(r@, times@),
{
    broadcast use vstd::seq_lib::group_to_multiset_ensures;

    let mut r: Vec<u64> = Vec::new();
    let mut i: usize = 0;
    assert(times@.take(0) =~= Seq::<u64>::empty());
    while i < times.len()
        invariant
            i <= times@.len(),
            sorts(r@, times@.take(i as int)),
        decreases times@.len() - i,
    {
        let t: u64 = times[i];
        let mut k: usize = 0;
        while k < r.len() && r[k] >= t
            invariant
                k <= r@.len(),
                forall|j: int| 0 <= j < k ==> r@[j] >= t,
            decreases r@.len() - k,
        {
            k += 1;
        }
        let ghost before = r@;
        r.insert(k, t);
        proof {
            assert(times@.take(i + 1) =~= times@.take(i as int).push(t));
            vstd::seq_lib::to_multiset_insert(before, k as int, t);
            vstd::seq_lib::to_multiset_build(times@.take(i as int), t);
            assert forall|x: int, y: int| 0 <= x < y < r@.len() implies r@[x] >= r@[y] by {
                let u = if x < k { before[x] } else if x == k { t } else { before[x - 1] };
                let v = if y < k { before[y] } else if y == k { t } else { before[y - 1] };
                assert(r@[x] == u && r@[y] == v);
                if x == k && k < before.len() {
                    assert(t > before[k as int]);
                }
            }
        }
        i += 1;
    }
    proof {
        assert(times@.take(times@.len() as int) =~= times@);
        assert(sorts(r@, times@));
        newest_first_is_determined(r@, times@);
    }
    r
}

/// The times beyond the newest `retention`.
pub open spec fn beyond_retention(times: Seq<u64>, retention: usize) -> Seq<u64> {
    let sorted = newest_first(times);
    if sorted.len() <= retention {
        Seq::empty()
    } else {
        sorted.skip(retention as int)
    }
}

/// The times of the copies of `table` that are to be deleted, where the newest
/// `retention` are kept.
pub fn times_to_purge(names: &Vec<String>, table: &str, ext: &str, retention: usize) -> (r: Vec<
    u64,
>)
    ensures
        r@ == beyond_retention(times_of_copies(text::texts(names@), table@, ext@), retention),
{
    let times: Vec<u64> = copy_times(names, table, ext);
    let sorted: Vec<u64> = sort_newest_first(&times);
    let mut r: Vec<u64> = Vec::new();
    let mut i: usize = retention;
    while i < sorted.len()
        invariant
            retention <= i,
            i <= sorted@.len() || i == retention,
            retention < sorted@.len() ==> r@ == sorted@.subrange(retention as int, i as int),
            retention >= sorted@.len() ==> r@.len() == 0,
        decreases sorted@.len() - i,
    {
        r.push(sorted[i]);
        assert(r@ =~= sorted@.subrange(retention as int, i + 1));
        i += 1;
    }
    assert(r@ =~= beyond_retention(times@, retention));
    r
}

/// How many copies of `table` a run would delete, given the names in the directory
/// of the snapshots before it: those beyond retention once the run has added a
/// copy of its own.
pub open spec fn would_purge(names: Seq<Seq<char>>, table: Seq<char>, retention: usize) -> int {
    let n = times_of_copies(names, table, "db"@).len();
    if n + 1 <= retention {
        0
    } else {
        n + 1 - retention
    }
}

/// How many copies of `table` a run would delete.
pub fn count_would_purge(names: &Vec<String>, table: &str, retention: usize) -> (r: usize)
    ensures
        r == would_purge(text::texts(names@), table@, retention),
{
    let mut times: Vec<u64> = copy_times(names, table, "db");
    // The copy that the run adds.
    times.push(u64::MAX);
    let n: usize = times.len();
    if n <= retention {
        0
    } else {
        n - retention
    }
}

/// Sorting keeps the number of times.
proof fn sorted_as_many(times: Seq<u64>)
    ensures
        sorts(newest_first(times), times),
        newest_first(times).len() == times.len(),
{
    broadcast use vstd::seq_lib::group_to_multiset_ensures;

    sorted_exists(times);
    let s = newest_first(times);
    assert(s.len() == s.to_multiset().len());
    assert(times.len() == times.to_multiset().len());
}

/// Every list of times can be sorted.
proof fn sorted_exists(times: Seq<u64>)
    ensures
        exists|s: Seq<u64>| sorts(s, times),
    decreases times.len(),
{
    if times.len() == 0 {
        assert(sorts(times, times));
    } else {
        sorted_exists(times.drop_last());
        let s = choose|s: Seq<u64>| sorts(s, times.drop_last());
        let k = insertion_point(s, times.last());
        let r = s.insert(k, times.last());
        vstd::seq_lib::to_multiset_insert(s, k, times.last());
        vstd::seq_lib::to_multiset_build(times.drop_last(), times.last());
        assert(times =~= times.drop_last().push(times.last()));
        assert forall|x: int, y: int| 0 <= x < y < r.len() implies r[x] >= r[y] by {
            let u = if x < k { s[x] } else if x == k { times.last() } else { s[x - 1] };
            let v = if y < k { s[y] } else if y == k { times.last() } else { s[y - 1] };
            assert(r[x] == u && r[y] == v);
        }
        assert(sorts(r, times));
    }
}

/// Where a time has to be put into times that are sorted.
proof fn insertion_point(s: Seq<u64>, t: u64) -> (k: int)
    requires
        forall|i: int, j: int| 0 <= i < j < s.len() ==> s[i] >= s[j],
    ensures
        0 <= k <= s.len(),
        forall|i: int| 0 <= i < k ==> s[i] >= t,
        forall|i: int| k <= i < s.len() ==> t >= s[i],
    decreases s.len(),
{
    if s.len() == 0 || s.last() >= t {
        s.len() as int
    } else {
        let rest = s.drop_last();
        assert forall|i: int, j: int| 0 <= i < j < rest.len() implies rest[i] >= rest[j] by {
            assert(rest[i] == s[i] && rest[j] == s[j]);
        }
        let k = insertion_point(rest, t);
        assert forall|i: int| 0 <= i < k implies s[i] >= t by {
            assert(s[i] == rest[i]);
        }
        assert forall|i: int| k <= i < s.len() implies t >= s[i] by {
            if i < rest.len() {
                assert(s[i] == rest[i]);
            }
        }
        k
    }
}

/// Purging keeps the newest copies: no more than `retention` of them stay, all of
/// them where there are no more, and none that stays is older than one that goes.
pub proof fn purge_keeps_the_newest(times: Seq<u64>, retention: usize)
    ensures
        ({
            let sorted = newest_first(times);
            let gone = beyond_retention(times, retention);
            &&& sorted.to_multiset() == times.to_multiset()
            &&& gone.len() == (if times.len() <= retention {
                0
            } else {
                times.len() - retention
            })
            &&& gone == sorted.skip(sorted.len() - gone.len())
            &&& forall|i: int, j: int|
                0 <= i < sorted.len() - gone.len() && 0 <= j < gone.len() ==> sorted[i] >= gone[j]
        }),
{
    sorted_as_many(times);
    let sorted = newest_first(times);
    let gone = beyond_retention(times, retention);
    if sorted.len() <= retention {
        assert(gone =~= sorted.skip(sorted.len() as int));
    }
    assert forall|i: int, j: int|
        0 <= i < sorted.len() - gone.len() && 0 <= j < gone.len() implies sorted[i] >= gone[j] by {
        assert(gone[j] == sorted[retention + j]);
    }
}

/// What happens to snapshots does not touch backups: their directories differ,
/// whatever the scope.
pub proof fn snapshots_and_backups_are_apart(
    root: Seq<path::PartModel>,
    snapshot: Seq<char>,
    backup: Seq<char>,
)
    ensures
        path::under(path::under(root, "_snapshots"@), snapshot) != path::under(
            path::under(root, "_backup"@),
            backup,
        ),
{
    reveal_strlit("_snapshots");
    reveal_strlit("_backup");
    assert("_snapshots"@.len() == 10 && "_backup"@.len() == 7);
    let a = path::under(path::under(root, "_snapshots"@), snapshot);
    let b = path::under(path::under(root, "_backup"@), backup);
    assert(a[root.len() as int] == path::PartModel::Name("_snapshots"@));
    assert(b[root.len() as int] == path::PartModel::Name("_backup"@));
}

/// The directory of the snapshots of a scope.
pub fn snapshot_dir(scope_root: &FilePath) -> (r: FilePath)
    ensures
        r@ == path::under(scope_root@, "_snapshots"@),
{
    scope_root.join("_snapshots")
}

/// The file of a snapshot.
pub open spec fn snapshot_file(scope_root: Seq<path::PartModel>, table: Seq<char>, secs: u64) -> Seq<
    path::PartModel,
> {
    path::under(path::under(scope_root, "_snapshots"@), copy_name(table, secs, "db"@))
}

/// The file of a snapshot: `<scope>/_snapshots/<table>.<seconds>.db`.
pub fn snapshot_path(scope_root: &FilePath, table: &str, secs: u64) -> (r: FilePath)
    ensures
        r@ == snapshot_file(scope_root@, table@, secs),
{
    snapshot_dir(scope_root).join(name_of_copy(table, secs, "db").as_str())
}

/// The files of snapshots that are to be deleted, oldest last, given the names in
/// the directory of the snapshots.
pub open spec fn files_to_purge(
    scope_root: Seq<path::PartModel>,
    table: Seq<char>,
    names: Seq<Seq<char>>,
    retention: usize,
) -> Seq<Seq<path::PartModel>> {
    beyond_retention(times_of_copies(names, table, "db"@), retention).map_values(
        |t: u64| snapshot_file(scope_root, table, t),
    )
}

/// The files of snapshots that are to be deleted, oldest last, given the names in
/// the directory of the snapshots.
pub fn purge_old_snapshots(
    scope_root: &FilePath,
    table: &str,
    names: &Vec<String>,
    retention: usize,
) -> (r: Vec<FilePath>)
    ensures
        r@.len() == files_to_purge(
            scope_root@,
            table@,
            text::texts(names@),
            retention,
        ).len(),
        forall|i: int|
            0 <= i < r@.len() ==> (#[trigger] r@[i])@ == files_to_purge(
                scope_root@,
                table@,
                text::texts(names@),
                retention,
            )[i],
        r@.len() == beyond_retention(
            times_of_copies(text::texts(names@), table@, "db"@),
            retention,
        ).len(),
        forall|i: int|
            0 <= i < r@.len() ==> (#[trigger] r@[i])@ == snapshot_file(
                scope_root@,
                table@,
                beyond_retention(
                    times_of_copies(text::texts(names@), table@, "db"@),
                    retention,
                )[i],
            ),
{
    let times: Vec<u64> = times_to_purge(names, table, "db", retention);
    let mut r: Vec<FilePath> = Vec::new();
    let mut i: usize = 0;
    while i < times.len()
        invariant
            i <= times@.len(),
            r@.len() == i,
            forall|j: int|
                0 <= j < i ==> (#[trigger] r@[j])@ == snapshot_file(
                    scope_root@,
                    table@,
                    times@[j],
                ),
        decreases times@.len() - i,
    {
        r.push(snapshot_path(scope_root, table, times[i]));
        i += 1;
    }
    r
}

/// The two files of a backup.
pub open spec fn backup_files(scope_root: Seq<path::PartModel>, table: Seq<char>, secs: u64) -> (
    Seq<path::PartModel>,
    Seq<path::PartModel>,
) {
    let dir = path::under(scope_root, "_backup"@);
    (path::under(dir, copy_name(table, secs, "yaml"@)), path::under(dir, copy_name(table, secs, "db"@)))
}

/// The two files of a backup: `<scope>/_backup/<table>.<seconds>.yaml` and
/// `<scope>/_backup/<table>.<seconds>.db`.
pub fn backup_pair(scope_root: &FilePath, table: &str, secs: u64) -> (r: (FilePath, FilePath))
    ensures
        (r.0@, r.1@) == backup_files(scope_root@, table@, secs),
{
    let dir: FilePath = scope_root.join("_backup");
    let yaml: FilePath = dir.join(name_of_copy(table, secs, "yaml").as_str());
    let db: FilePath = dir.join(name_of_copy(table, secs, "db").as_str());
    (yaml, db)
}

/// Where the writing of a snapshot fails.
#[derive(Debug, Clone, Copy, PartialEq, Eq, Structural)]
pub enum SnapshotStage {
    Clock,
    Directory,
    Source,
    Copy,
    Listing,
}

/// What is said before the cause of a failure.
pub open spec fn stage_text(stage: SnapshotStage) -> Seq<char> {
    match stage {
        SnapshotStage::Clock => "system clock error: "@,
        SnapshotStage::Directory => "cannot create snapshot dir: "@,
        SnapshotStage::Source => "cannot open source db: "@,
        SnapshotStage::Copy => "rusqlite backup failed: "@,
        SnapshotStage::Listing => "cannot read snapshot dir: "@,
    }
}

/// The error for a snapshot that could not be written.
pub open spec fn failure_told(stage: SnapshotStage, cause: Seq<char>) -> ErrorModel {
    ErrorModel::Snapshot(stage_text(stage) + cause)
}

/// The error for a snapshot that could not be written.
pub fn snapshot_failure(stage: SnapshotStage, cause: &str) -> (r: MiniAppError)
    ensures
        r@ == ErrorModel::Snapshot(stage_text(stage) + cause@),
        r@ == failure_told(stage, cause@),
{
    let said: &str = match stage {
        SnapshotStage::Clock => "system clock error: ",
        SnapshotStage::Directory => "cannot create snapshot dir: ",
        SnapshotStage::Source => "cannot open source db: ",
        SnapshotStage::Copy => "rusqlite backup failed: ",
        SnapshotStage::Listing => "cannot read snapshot dir: ",
    };
    MiniAppError::Snapshot(said.to_owned().concat(cause))
}

/// Parameters of the `data_snapshot` tool.
#[derive(Debug, PartialEq, Eq)]
pub struct DataSnapshotParams {
    /// The table; without one, all tables.
    pub table: Option<String>,
    /// `project` or `user`; without one, both.
    pub scope: Option<String>,
    /// Report what would be done, and do nothing.
    pub dry_run: Option<bool>,
}

/// A table that a snapshot is made of.
#[derive(Debug, PartialEq, Eq)]
pub struct SnapshotTarget {
    pub table_name: String,
    pub scope_root: FilePath,
    pub db_path: FilePath,
}

/// A table that a snapshot is made of, as a model.
pub struct TargetModel {
    pub table_name: Seq<char>,
    pub scope_root: Seq<path::PartModel>,
    pub db_path: Seq<path::PartModel>,
}

impl View for SnapshotTarget {
    type V = TargetModel;

    open spec fn view(&self) -> TargetModel {
        TargetModel {
            table_name: self.table_name@,
            scope_root: self.scope_root@,
            db_path: self.db_path@,
        }
    }
}

/// The targets as models.
pub open spec fn target_models(targets: Seq<SnapshotTarget>) -> Seq<TargetModel> {
    targets.map_values(|t: SnapshotTarget| t@)
}

/// The outcome of finding targets, as a model.
pub open spec fn targets_outcome(r: Result<Vec<SnapshotTarget>, MiniAppError>) -> Result<
    Seq<TargetModel>,
    ErrorModel,
> {
    match r {
        Ok(t) => Ok(target_models(t@)),
        Err(e) => Err(e@),
    }
}

/// The directory of the scope that a schema file belongs to: in legacy mode the
/// one that it lies in, otherwise the one above.
pub open spec fn scope_root_of(schema_path: Seq<path::PartModel>, is_legacy: bool) -> Result<
    Seq<path::PartModel>,
    ErrorModel,
> {
    match path::parent_of(schema_path) {
        None => if is_legacy {
            Err(ErrorModel::Snapshot("schema_path has no parent dir"@))
        } else {
            Err(ErrorModel::Snapshot("schema_path has no grandparent dir"@))
        },
        Some(dir) => if is_legacy {
            Ok(dir)
        } else {
            match path::parent_of(dir) {
                None => Err(ErrorModel::Snapshot("schema_path has no grandparent dir"@)),
                Some(up) => Ok(up),
            }
        },
    }
}

/// The outcome of finding a path, as a model.
pub open spec fn path_outcome(r: Result<FilePath, MiniAppError>) -> Result<
    Seq<path::PartModel>,
    ErrorModel,
> {
    match r {
        Ok(p) => Ok(p@),
        Err(e) => Err(e@),
    }
}

/// The directory of the scope that a schema file belongs to.
pub fn derive_scope_root(schema_path: &FilePath, is_legacy: bool) -> (r: Result<
    FilePath,
    MiniAppError,
>)
    ensures
        path_outcome(r) == scope_root_of(schema_path@, is_legacy),
{
    match schema_path.parent() {
        None => if is_legacy {
            Err(MiniAppError::Snapshot("schema_path has no parent dir".to_owned()))
        } else {
            Err(MiniAppError::Snapshot("schema_path has no grandparent dir".to_owned()))
        },
        Some(dir) => if is_legacy {
            Ok(dir)
        } else {
            match dir.parent() {
                None => Err(
                    MiniAppError::Snapshot("schema_path has no grandparent dir".to_owned()),
                ),
                Some(up) => Ok(up),
            }
        },
    }
}

/// The scope of a schema file in its usual place is the one that it was put in.
pub proof fn scope_root_is_found(root: Seq<path::PartModel>, table: Seq<char>)
    ensures
        scope_root_of(registry::schema_file(root, table), false) == Ok::<
            Seq<path::PartModel>,
            ErrorModel,
        >(root),
{
    path::parent_of_under(path::under(root, table), "schema.yaml"@);
    path::parent_of_under(root, table);
}

/// The directory of a scope, where it is set.
pub open spec fn scope_dir(config: ConfigModel, scope: Seq<char>) -> Result<
    Option<Seq<path::PartModel>>,
    ErrorModel,
> {
    if scope == "project"@ {
        Ok(config.project_dir)
    } else if scope == "user"@ {
        Ok(config.user_dir)
    } else {
        Err(
            ErrorModel::Snapshot(
                "unrecognised scope '"@ + scope + "': expected 'project' or 'user'"@,
            ),
        )
    }
}

/// The outcome of finding the directory of a scope, as a model.
pub open spec fn dir_outcome(r: Result<Option<FilePath>, MiniAppError>) -> Result<
    Option<Seq<path::PartModel>>,
    ErrorModel,
> {
    match r {
        Ok(d) => Ok(path::path_option(d)),
        Err(e) => Err(e@),
    }
}

/// The directory of a scope, where it is set.
pub fn resolve_scope_dir(config: &Config, scope: &str) -> (r: Result<
    Option<FilePath>,
    MiniAppError,
>)
    ensures
        dir_outcome(r) == scope_dir(config@, scope@),
{
    if text::same_text(scope, "project") {
        Ok(path::duplicate_option(&config.project_dir))
    } else if text::same_text(scope, "user") {
        Ok(path::duplicate_option(&config.user_dir))
    } else {
        Err(
            MiniAppError::Snapshot(
                "unrecognised scope '".to_owned().concat(scope).concat(
                    "': expected 'project' or 'user'",
                ),
            ),
        )
    }
}

/// What a scope is called, by its directory.
pub open spec fn scope_label(scope_root: Seq<path::PartModel>, config: ConfigModel) -> Seq<char> {
    if config.project_dir matches Some(d) && path::lies_in(scope_root, d) {
        "project"@
    } else if config.user_dir matches Some(d) && path::lies_in(scope_root, d) {
        "user"@
    } else {
        "unknown"@
    }
}

/// What a scope is called, by its directory.
pub fn scope_label_for(scope_root: &FilePath, config: &Config) -> (r: &'static str)
    ensures
        r@ == scope_label(scope_root@, config@),
{
    match &config.project_dir {
        Some(d) => {
            if scope_root.starts_with(d) {
                return "project";
            }
        },
        None => {},
    }
    match &config.user_dir {
        Some(d) => {
            if scope_root.starts_with(d) {
                return "user";
            }
        },
        None => {},
    }
    "unknown"
}

/// Whether a scope, where one is asked for, holds the table.
pub open spec fn in_scope(
    scope_root: Seq<path::PartModel>,
    wanted: Option<Seq<path::PartModel>>,
) -> bool {
    wanted matches Some(d) ==> path::lies_in(scope_root, d)
}

/// The database next to a schema file.
pub open spec fn database_next_to(schema_path: Seq<path::PartModel>, table: Seq<char>) -> Option<
    Seq<path::PartModel>,
> {
    match path::parent_of(schema_path) {
        Some(dir) => Some(path::under(dir, table + ".db"@)),
        None => None,
    }
}

/// The target that a mounted table makes.
pub open spec fn target_of(
    table: Seq<char>,
    schema_path: Seq<path::PartModel>,
    is_legacy: bool,
) -> Result<TargetModel, ErrorModel> {
    match scope_root_of(schema_path, is_legacy) {
        Err(e) => Err(e),
        Ok(root) => match database_next_to(schema_path, table) {
            None => Err(ErrorModel::Snapshot("schema_path has no parent dir"@)),
            Some(db_path) => Ok(
                TargetModel { table_name: table, scope_root: root, db_path },
            ),
        },
    }
}

/// The targets that tables make, in order, as far as they are in the scope that
/// is asked for. Tables whose place cannot be made out are left out.
pub open spec fn targets_among<S>(
    tables: Seq<(Seq<char>, TableEntry<S>)>,
    is_legacy: bool,
    wanted: Option<Seq<path::PartModel>>,
) -> Seq<TargetModel>
    decreases tables.len(),
{
    if tables.len() == 0 {
        Seq::empty()
    } else {
        let rest = targets_among(tables.drop_last(), is_legacy, wanted);
        let (name, entry) = tables.last();
        match target_of(name, entry.schema_path@, is_legacy) {
            Ok(target) => if in_scope(target.scope_root, wanted) {
                rest.push(target)
            } else {
                rest
            },
            Err(_) => rest,
        }
    }
}

/// The tables that a snapshot is made of.
pub open spec fn targets_wanted<S>(
    tables: registry::Tables<S>,
    in_order: Seq<(Seq<char>, TableEntry<S>)>,
    is_legacy: bool,
    config: ConfigModel,
    table: Option<Seq<char>>,
    scope: Option<Seq<char>>,
) -> Result<Seq<TargetModel>, ErrorModel> {
    match table {
        Some(name) => match registry::table_called(tables, name) {
            Err(e) => Err(e),
            Ok(entry) => match target_of(name, entry.schema_path@, is_legacy) {
                Err(e) => Err(e),
                Ok(target) => match scope {
                    None => Ok(seq![target]),
                    Some(s) => match scope_dir(config, s) {
                        Err(e) => Err(e),
                        Ok(wanted) => if in_scope(target.scope_root, wanted) {
                            Ok(seq![target])
                        } else {
                            Ok(Seq::empty())
                        },
                    },
                },
            },
        },
        None => match scope {
            None => Ok(targets_among(in_order, is_legacy, None)),
            Some(s) => match scope_dir(config, s) {
                Err(e) => Err(e),
                Ok(wanted) => Ok(targets_among(in_order, is_legacy, wanted)),
            },
        },
    }
}

fn scope_holds(scope_root: &FilePath, wanted: &Option<FilePath>) -> (r: bool)
    ensures
        r == in_scope(scope_root@, path::path_option(*wanted)),
{
    match wanted {
        Some(d) => scope_root.starts_with(d),
        None => true,
    }
}

/// The outcome of making a target, as a model.
pub open spec fn target_outcome(r: Result<SnapshotTarget, MiniAppError>) -> Result<
    TargetModel,
    ErrorModel,
> {
    match r {
        Ok(t) => Ok(t@),
        Err(e) => Err(e@),
    }
}

fn make_target(table: &str, schema_path: &FilePath, is_legacy: bool) -> (r: Result<
    SnapshotTarget,
    MiniAppError,
>)
    ensures
        target_outcome(r) == target_of(table@, schema_path@, is_legacy),
{
    match derive_scope_root(schema_path, is_legacy) {
        Err(e) => Err(e),
        Ok(scope_root) => match schema_path.parent() {
            None => Err(MiniAppError::Snapshot("schema_path has no parent dir".to_owned())),
            Some(dir) => Ok(
                SnapshotTarget {
                    table_name: table.to_owned(),
                    scope_root,
                    db_path: dir.join(table.to_owned().concat(".db").as_str()),
                },
            ),
        },
    }
}

/// The text, where there is one.
pub open spec fn str_option(s: Option<&str>) -> Option<Seq<char>> {
    match s {
        Some(t) => Some(t@),
        None => None,
    }
}

/// The tables among those that are mounted that a snapshot is made of. A default table
/// is one of legacy mode.
pub open spec fn targets_in<S>(
    tables: TableRegistry<S>,
    config: ConfigModel,
    table: Option<Seq<char>>,
    scope: Option<Seq<char>>,
) -> Result<Seq<TargetModel>, ErrorModel> {
    targets_wanted(
        tables.tables(),
        tables.pairs(),
        tables.default_name() is Some,
        config,
        table,
        scope,
    )
}

/// Finds the tables that a snapshot is made of: one by its name, or all, in
/// ascending order of their names; with a scope, only those in it.
pub fn resolve_targets<S>(
    tables: &TableRegistry<S>,
    config: &Config,
    table: Option<&str>,
    scope: Option<&str>,
) -> (r: Result<Vec<SnapshotTarget>, MiniAppError>)
    ensures
        targets_outcome(r) == targets_wanted(
            tables.tables(),
            tables.pairs(),
            tables.default_name() is Some,
            config@,
            str_option(table),
            str_option(scope),
        ),
        targets_outcome(r) == targets_in(*tables, config@, str_option(table), str_option(scope)),
{
    let is_legacy: bool = tables.default_table().is_some();
    match table {
        Some(name) => {
            let entry: &TableEntry<S> = match tables.resolve(Some(name)) {
                Err(e) => {
                    return Err(e);
                },
                Ok(entry) => entry,
            };
            let target: SnapshotTarget = match make_target(name, &entry.schema_path, is_legacy) {
                Err(e) => {
                    return Err(e);
                },
                Ok(t) => t,
            };
            let mut r: Vec<SnapshotTarget> = Vec::new();
            assert(target_models(r@) =~= Seq::<TargetModel>::empty());
            match scope {
                None => {},
                Some(s) => match resolve_scope_dir(config, s) {
                    Err(e) => {
                        return Err(e);
                    },
                    Ok(wanted) => {
                        if !scope_holds(&target.scope_root, &wanted) {
                            return Ok(r);
                        }
                    },
                },
            }
            r.push(target);
            assert(target_models(r@) =~= seq![target@]);
            Ok(r)
        },
        None => {
            let wanted: Option<FilePath> = match scope {
                None => None,
                Some(s) => match resolve_scope_dir(config, s) {
                    Err(e) => {
                        return Err(e);
                    },
                    Ok(d) => d,
                },
            };
            let n: usize = tables.table_count();
            let ghost all = tables.pairs();
            let ghost dir = path::path_option(wanted);
            let mut r: Vec<SnapshotTarget> = Vec::new();
            let mut i: usize = 0;
            assert(all.take(0) =~= Seq::<(Seq<char>, TableEntry<S>)>::empty());
            assert(target_models(r@) =~= Seq::<TargetModel>::empty());
            while i < n
                invariant
                    i <= n,
                    n == all.len(),
                    all == tables.pairs(),
                    dir == path::path_option(wanted),
                    target_models(r@) == targets_among(all.take(i as int), is_legacy, dir),
                decreases n - i,
            {
                let ghost upto = all.take(i + 1);
                assert(upto.drop_last() =~= all.take(i as int));
                assert(upto.last() == all[i as int]);
                let entry: &TableEntry<S> = tables.entry_at(i);
                match make_target(tables.name_at(i).as_str(), &entry.schema_path, is_legacy) {
                    Err(_) => {},
                    Ok(target) => {
                        if scope_holds(&target.scope_root, &wanted) {
                            let ghost before = target_models(r@);
                            r.push(target);
                            assert(target_models(r@) =~= before.push(target@));
                        }
                    },
                }
                i += 1;
            }
            assert(all.take(all.len() as int) =~= all);
            Ok(r)
        },
    }
}

/// The newest copy of `table` among files, with its time; the first of several
/// with the same time.
pub open spec fn newest_copy(names: Seq<Seq<char>>, table: Seq<char>) -> Option<(u64, Seq<char>)>
    decreases names.len(),
{
    if names.len() == 0 {
        None
    } else {
        let rest = newest_copy(names.drop_last(), table);
        match time_of_copy(names.last(), table, "db"@) {
            None => rest,
            Some(t) => match rest {
                None => Some((t, names.last())),
                Some((best, name)) => if t > best {
                    Some((t, names.last()))
                } else {
                    Some((best, name))
                },
            },
        }
    }
}

/// The newest copy is one of the files, and none is newer.
pub proof fn newest_copy_is_newest(names: Seq<Seq<char>>, table: Seq<char>)
    ensures
        match newest_copy(names, table) {
            Some((t, name)) => names.contains(name) && time_of_copy(name, table, "db"@) == Some(t)
                && forall|i: int|
                0 <= i < names.len() ==> (time_of_copy(#[trigger] names[i], table, "db"@) matches Some(
                    u,
                ) ==> u <= t),
            None => forall|i: int|
                0 <= i < names.len() ==> time_of_copy(#[trigger] names[i], table, "db"@) is None,
        },
    decreases names.len(),
{
    if names.len() > 0 {
        let rest = names.drop_last();
        newest_copy_is_newest(rest, table);
        assert(names.contains(names[names.len() - 1]));
        if newest_copy(rest, table) is Some {
            let (best, name) = newest_copy(rest, table)->0;
            let k = choose|k: int| 0 <= k < rest.len() && rest[k] == name;
            assert(names[k] == name);
        }
        assert forall|i: int| 0 <= i < names.len() - 1 implies names[i] == rest[i] by {}
    }
}

/// What is known of the newest copy, as a model.
pub open spec fn newest_model(r: Option<(u64, String)>) -> Option<(u64, Seq<char>)> {
    match r {
        Some((t, name)) => Some((t, name@)),
        None => None,
    }
}

/// The newest copy of `table` among files, with its time.
pub fn newest_snapshot(names: &Vec<String>, table: &str) -> (r: Option<(u64, String)>)
    ensures
        newest_model(r) == newest_copy(text::texts(names@), table@),
{
    let ghost all = text::texts(names@);
    let mut best: Option<(u64, usize)> = None;
    let mut i: usize = 0;
    assert(all.take(0) =~= Seq::<Seq<char>>::empty());
    while i < names.len()
        invariant
            i <= names@.len(),
            all == text::texts(names@),
            best matches Some(b) ==> b.1 < names@.len(),
            newest_copy(all.take(i as int), table@) == (match best {
                Some((t, k)) => Some((t, all[k as int])),
                None => None,
            }),
        decreases names@.len() - i,
    {
        let ghost upto = all.take(i + 1);
        assert(upto.drop_last() =~= all.take(i as int));
        assert(upto.last() == names@[i as int]@);
        match parse_snapshot_timestamp(&names[i], table, "db") {
            None => {},
            Some(t) => match best {
                None => {
                    best = Some((t, i));
                },
                Some((b, _)) => {
                    if t > b {
                        best = Some((t, i));
                    }
                },
            },
        }
        i += 1;
    }
    assert(all.take(all.len() as int) =~= all);
    match best {
        Some((t, k)) => Some((t, names[k].clone())),
        None => None,
    }
}

/// What is reported of a snapshot that was written, given the names in the
/// directory of the snapshots afterwards.
pub open spec fn written_report(target: TargetModel, config: ConfigModel, names: Seq<Seq<char>>) -> JsonModel {
    let newest = newest_copy(names, target.table_name);
    JsonModel::Object(
        schema_tools::no_members().insert("table"@, JsonModel::Text(target.table_name)).insert(
            "scope"@,
            JsonModel::Text(scope_label(target.scope_root, config)),
        ).insert(
            "snapshot_path"@,
            match newest {
                Some((t, name)) => schema_tools::path_json(
                    path::under(path::under(target.scope_root, "_snapshots"@), name),
                ),
                None => JsonModel::Text(Seq::empty()),
            },
        ).insert(
            "unix_secs"@,
            match newest {
                Some((t, name)) => schema_tools::count_json(t as int),
                None => JsonModel::Null,
            },
        ),
    )
}

/// How many copies are gone between two listings of a directory.
pub open spec fn copies_gone(
    table: Seq<char>,
    before: Seq<Seq<char>>,
    after: Seq<Seq<char>>,
) -> int {
    let b = times_of_copies(before, table, "db"@).len();
    let a = times_of_copies(after, table, "db"@).len();
    if b > a {
        b - a
    } else {
        0
    }
}

/// What is reported of copies that were deleted.
pub open spec fn purged_report(table: Seq<char>, removed: int) -> JsonModel {
    JsonModel::Object(
        schema_tools::no_members().insert("table"@, JsonModel::Text(table)).insert(
            "generations_removed"@,
            schema_tools::count_json(removed),
        ),
    )
}

/// A run of the `data_snapshot` tool: table by table, a snapshot is written, then
/// old ones are deleted.
#[derive(Debug)]
pub struct SnapshotRun {
    targets: Vec<SnapshotTarget>,
    done: usize,
    snapshotted: Vec<JsonValue>,
    purged: Vec<JsonValue>,
}

/// A run of the tool, as a model.
pub struct RunModel {
    /// The tables that are still to be done.
    pub left: Seq<TargetModel>,
    pub snapshotted: Seq<JsonModel>,
    pub purged: Seq<JsonModel>,
}

impl View for SnapshotRun {
    type V = RunModel;

    closed spec fn view(&self) -> RunModel {
        RunModel {
            left: target_models(self.targets@).skip(self.done as int),
            snapshotted: json::value_models(self.snapshotted@),
            purged: json::value_models(self.purged@),
        }
    }
}

/// The run after a table is done, given the names in the directory of the
/// snapshots after its snapshot was written and after old ones were deleted.
pub open spec fn after_table(
    run: RunModel,
    config: ConfigModel,
    written: Seq<Seq<char>>,
    purged: Seq<Seq<char>>,
) -> RunModel {
    let target = run.left[0];
    let removed = copies_gone(target.table_name, written, purged);
    RunModel {
        left: run.left.drop_first(),
        snapshotted: run.snapshotted.push(written_report(target, config, written)),
        purged: if removed > 0 {
            run.purged.push(purged_report(target.table_name, removed))
        } else {
            run.purged
        },
    }
}

/// The run after what is next is done, if anything is.
pub open spec fn taken_down(
    run: RunModel,
    config: ConfigModel,
    written: Seq<Seq<char>>,
    purged: Seq<Seq<char>>,
) -> RunModel {
    if run.left.len() > 0 {
        after_table(run, config, written, purged)
    } else {
        run
    }
}

/// The report of a run.
pub open spec fn run_report(run: RunModel) -> JsonModel {
    JsonModel::Object(
        schema_tools::no_members().insert(
            "snapshotted"@,
            JsonModel::Array(run.snapshotted),
        ).insert("purged"@, JsonModel::Array(run.purged)),
    )
}

impl SnapshotRun {
    #[verifier::type_invariant]
    spec fn in_range(&self) -> bool {
        self.done <= self.targets@.len()
    }

    /// A run over the given tables.
    pub fn new(targets: Vec<SnapshotTarget>) -> (r: SnapshotRun)
        ensures
            r@ == (RunModel {
                left: target_models(targets@),
                snapshotted: Seq::empty(),
                purged: Seq::empty(),
            }),
    {
        let r = SnapshotRun { targets, done: 0, snapshotted: Vec::new(), purged: Vec::new() };
        assert(r@.left =~= target_models(targets@));
        assert(r@.snapshotted =~= Seq::<JsonModel>::empty());
        assert(r@.purged =~= Seq::<JsonModel>::empty());
        r
    }

    /// The table that is next, if any is left: its snapshot is to be written, and
    /// then old ones are to be deleted.
    pub fn current(&self) -> (r: Option<&SnapshotTarget>)
        ensures
            match r {
                Some(t) => self@.left.len() > 0 && self@.left[0] == t@,
                None => self@.left.len() == 0,
            },
    {
        proof {
            use_type_invariant(self);
        }
        if self.done < self.targets.len() {
            assert(self@.left[0] == self.targets@[self.done as int]@);
            Some(&self.targets[self.done])
        } else {
            None
        }
    }

    /// Takes down that the table that is next is done. `written` are the names in
    /// the directory of the snapshots after its snapshot was written, `purged`
    /// those after old ones were deleted.
    pub fn record(self, config: &Config, written: &Vec<String>, purged: &Vec<String>) -> (r:
        SnapshotRun)
        ensures
            r@ == (if self@.left.len() > 0 {
                after_table(self@, config@, text::texts(written@), text::texts(purged@))
            } else {
                self@
            }),
            r@ == taken_down(self@, config@, text::texts(written@), text::texts(purged@)),
    {
        proof {
            use_type_invariant(&self);
        }
        let SnapshotRun { targets, done, snapshotted, purged: gone } = self;
        if done >= targets.len() {
            return SnapshotRun { targets, done, snapshotted, purged: gone };
        }
        let ghost start = self@;
        let ghost target = targets@[done as int]@;
        assert(start.left[0] == target);
        assert(target_models(targets@).skip(done + 1) =~= start.left.drop_first());
        let mut snapshotted: Vec<JsonValue> = snapshotted;
        let mut gone: Vec<JsonValue> = gone;
        let entry: JsonValue = written_value(&targets[done], config, written);
        let ghost said = json::value_models(snapshotted@);
        snapshotted.push(entry);
        assert(json::value_models(snapshotted@) =~= said.push(entry@));
        let table: &str = targets[done].table_name.as_str();
        let before: usize = copy_times(written, table, "db").len();
        let after: usize = copy_times(purged, table, "db").len();
        if before > after {
            let mut o: JsonObject = JsonObject::new();
            o.insert("table".to_owned(), JsonValue::Text(table.to_owned()));
            o.insert(
                "generations_removed".to_owned(),
                JsonValue::Number(JsonNumber::Unsigned((before - after) as u64)),
            );
            let v = JsonValue::Object(o);
            let ghost told = json::value_models(gone@);
            gone.push(v);
            assert(json::value_models(gone@) =~= told.push(v@));
        }
        SnapshotRun { targets, done: done + 1, snapshotted, purged: gone }
    }

    /// The report of the run.
    pub fn finish(self) -> (r: JsonValue)
        ensures
            r@ == run_report(self@),
    {
        let ghost start = self@;
        let SnapshotRun { targets, done, snapshotted, purged } = self;
        let first = JsonValue::Array(snapshotted);
        let second = JsonValue::Array(purged);
        assert(first@->Array_0 =~= start.snapshotted);
        assert(second@->Array_0 =~= start.purged);
        let mut o: JsonObject = JsonObject::new();
        o.insert("snapshotted".to_owned(), first);
        o.insert("purged".to_owned(), second);
        JsonValue::Object(o)
    }
}

fn written_value(target: &SnapshotTarget, config: &Config, names: &Vec<String>) -> (r: JsonValue)
    ensures
        r@ == written_report(target@, config@, text::texts(names@)),
{
    let newest: Option<(u64, String)> = newest_snapshot(names, target.table_name.as_str());
    let mut o: JsonObject = JsonObject::new();
    o.insert("table".to_owned(), JsonValue::Text(target.table_name.clone()));
    o.insert(
        "scope".to_owned(),
        JsonValue::Text(scope_label_for(&target.scope_root, config).to_owned()),
    );
    match newest {
        Some((t, name)) => {
            let file: FilePath = snapshot_dir(&target.scope_root).join(name.as_str());
            o.insert("snapshot_path".to_owned(), JsonValue::Text(file.display()));
            o.insert("unix_secs".to_owned(), JsonValue::Number(JsonNumber::Unsigned(t)));
        },
        None => {
            let empty: String = String::new();
            assert(empty@ =~= Seq::<char>::empty());
            o.insert("snapshot_path".to_owned(), JsonValue::Text(empty));
            o.insert("unix_secs".to_owned(), JsonValue::Null);
        },
    }
    JsonValue::Object(o)
}

/// What was read of a table for a dry run.
#[derive(Debug, PartialEq, Eq)]
pub struct TargetFacts {
    /// The number of its rows.
    pub rows: Result<u64, MiniAppError>,
    /// The names in the directory of the snapshots of its scope.
    pub names: Vec<String>,
}

/// The number of rows and of copies to be deleted, table by table, or the failure
/// of the first table whose rows cannot be counted.
pub open spec fn counts(
    targets: Seq<TargetModel>,
    facts: Seq<TargetFacts>,
    retention: usize,
) -> Result<(Map<Seq<char>, JsonModel>, Map<Seq<char>, JsonModel>), ErrorModel>
    decreases targets.len(),
{
    if targets.len() == 0 {
        Ok((Map::empty(), Map::empty()))
    } else {
        let fact = facts[targets.len() - 1];
        let table = targets.last().table_name;
        match counts(targets.drop_last(), facts, retention) {
            Err(e) => Err(e),
            Ok((rows, purges)) => match fact.rows {
                Err(e) => Err(
                    ErrorModel::Snapshot(
                        "row_count failed for table '"@ + table + "': "@ + error::message_of(e@),
                    ),
                ),
                Ok(n) => Ok(
                    (
                        rows.insert(table, schema_tools::count_json(n as int)),
                        purges.insert(
                            table,
                            schema_tools::count_json(
                                would_purge(text::texts(fact.names@), table, retention),
                            ),
                        ),
                    ),
                ),
            },
        }
    }
}

/// The names of the targets.
pub open spec fn target_names(targets: Seq<TargetModel>) -> Seq<Seq<char>> {
    targets.map_values(|t: TargetModel| t.table_name)
}

/// How many snapshots a configuration keeps.
pub open spec fn snapshots_kept(config: ConfigModel) -> usize {
    match config.snapshot_retention {
        Some(n) => n,
        None => crate::config::DEFAULT_RETENTION,
    }
}

/// The report of a dry run.
pub open spec fn dry_report(
    targets: Seq<TargetModel>,
    facts: Seq<TargetFacts>,
    retention: usize,
) -> Result<JsonModel, ErrorModel> {
    match counts(targets, facts, retention) {
        Err(e) => Err(e),
        Ok((rows, purges)) => Ok(
            schema_tools::dry_run_report(
                schema_tools::no_members().insert(
                    "target_tables"@,
                    error::text_list(target_names(targets)),
                ).insert("row_counts"@, JsonModel::Object(rows)).insert(
                    "would_purge_generations"@,
                    JsonModel::Object(purges),
                ),
            ),
        ),
    }
}

/// The outcome of a dry run, as a model.
pub open spec fn report_outcome(r: Result<JsonValue, MiniAppError>) -> Result<
    JsonModel,
    ErrorModel,
> {
    match r {
        Ok(v) => Ok(v@),
        Err(e) => Err(e@),
    }
}

proof fn counts_fail_early(
    targets: Seq<TargetModel>,
    facts: Seq<TargetFacts>,
    retention: usize,
    n: int,
)
    requires
        0 <= n <= targets.len(),
        counts(targets.take(n), facts, retention) is Err,
    ensures
        counts(targets, facts, retention) == counts(targets.take(n), facts, retention),
    decreases targets.len() - n,
{
    if n < targets.len() {
        assert(targets.take(n + 1).drop_last() =~= targets.take(n));
        counts_fail_early(targets, facts, retention, n + 1);
    } else {
        assert(targets.take(n) =~= targets);
    }
}

/// The report of a dry run of `data_snapshot` over the given tables, from what
/// was read of each: which tables would be copied, how many rows they have, and
/// how many copies would be deleted.
pub fn dry_run_snapshot(
    config: &Config,
    targets: &Vec<SnapshotTarget>,
    facts: &Vec<TargetFacts>,
) -> (r: Result<JsonValue, MiniAppError>)
    requires
        facts@.len() == targets@.len(),
    ensures
        report_outcome(r) == dry_report(
            target_models(targets@),
            facts@,
            snapshots_kept(config@),
        ),
{
    let retention: usize = config.snapshot_retention();
    let ghost models = target_models(targets@);
    let mut names: Vec<String> = Vec::new();
    let mut rows: JsonObject = JsonObject::new();
    let mut purges: JsonObject = JsonObject::new();
    let mut i: usize = 0;
    assert(models.take(0) =~= Seq::<TargetModel>::empty());
    while i < targets.len()
        invariant
            i <= targets@.len(),
            facts@.len() == targets@.len(),
            models == target_models(targets@),
            retention == snapshots_kept(config@),
            names@.len() == i,
            forall|j: int| 0 <= j < i ==> (#[trigger] names@[j])@ == models[j].table_name,
            counts(models.take(i as int), facts@, retention) == Ok::<
                (Map<Seq<char>, JsonModel>, Map<Seq<char>, JsonModel>),
                ErrorModel,
            >((rows@, purges@)),
        decreases targets@.len() - i,
    {
        let ghost upto = models.take(i + 1);
        assert(upto.drop_last() =~= models.take(i as int));
        assert(upto.last() == targets@[i as int]@);
        let table: &String = &targets[i].table_name;
        match &facts[i].rows {
            Err(e) => {
                proof {
                    counts_fail_early(models, facts@, retention, i + 1);
                }
                return Err(
                    MiniAppError::Snapshot(
                        "row_count failed for table '".to_owned().concat(table.as_str()).concat(
                            "': ",
                        ).concat(e.message().as_str()),
                    ),
                );
            },
            Ok(n) => {
                let gone: usize = count_would_purge(&facts[i].names, table.as_str(), retention);
                rows.insert(table.clone(), JsonValue::Number(JsonNumber::Unsigned(*n)));
                purges.insert(
                    table.clone(),
                    JsonValue::Number(JsonNumber::Unsigned(gone as u64)),
                );
            },
        }
        names.push(table.clone());
        i += 1;
    }
    assert(models.take(models.len() as int) =~= models);
    assert(text::texts(names@) =~= target_names(models));
    let mut affects: JsonObject = JsonObject::new();
    affects.insert("target_tables".to_owned(), error::text_array(&names));
    affects.insert("row_counts".to_owned(), JsonValue::Object(rows));
    affects.insert("would_purge_generations".to_owned(), JsonValue::Object(purges));
    let mut o: JsonObject = JsonObject::new();
    o.insert("dry_run".to_owned(), JsonValue::Bool(true));
    o.insert("affects".to_owned(), JsonValue::Object(affects));
    Ok(JsonValue::Object(o))
}

/// How the `data_snapshot` tool begins.
#[derive(Debug)]
pub enum SnapshotStart {
    /// Nothing is to be done but a report on these tables: see
    /// [`dry_run_snapshot`].
    DryRun(Vec<SnapshotTarget>),
    /// The tables are to be done one by one.
    Run(SnapshotRun),
}

/// Whether only a report is asked for.
pub open spec fn asks_for_report(dry_run: Option<bool>) -> bool {
    dry_run == Some(true)
}

/// Begins `data_snapshot`: finds the tables that are asked for.
pub fn do_data_snapshot<S>(
    config: &Config,
    tables: &TableRegistry<S>,
    params: &DataSnapshotParams,
) -> (r: Result<SnapshotStart, MiniAppError>)
    ensures
        ({
            let wanted = targets_in(
                *tables,
                config@,
                text::text_option(params.table),
                text::text_option(params.scope),
            );
            match r {
                Err(e) => wanted == Err::<Seq<TargetModel>, ErrorModel>(e@),
                Ok(SnapshotStart::DryRun(t)) => asks_for_report(params.dry_run) && wanted == Ok::<
                    Seq<TargetModel>,
                    ErrorModel,
                >(target_models(t@)),
                Ok(SnapshotStart::Run(run)) => !asks_for_report(params.dry_run) && wanted is Ok && run@
                    == (RunModel {
                    left: wanted->Ok_0,
                    snapshotted: Seq::empty(),
                    purged: Seq::empty(),
                }),
            }
        }),
{
    let table: Option<&str> = match &params.table {
        Some(t) => Some(t.as_str()),
        None => None,
    };
    let scope: Option<&str> = match &params.scope {
        Some(s) => Some(s.as_str()),
        None => None,
    };
    let targets: Vec<SnapshotTarget> = match resolve_targets(tables, config, table, scope) {
        Err(e) => {
            return Err(e);
        },
        Ok(t) => t,
    };
    match params.dry_run {
        Some(true) => Ok(SnapshotStart::DryRun(targets)),
        _ => Ok(SnapshotStart::Run(SnapshotRun::new(targets))),
    }
}

/// The tables of a snapshot come in ascending order of their names.
pub proof fn targets_are_in_order<S>(
    tables: Seq<(Seq<char>, TableEntry<S>)>,
    is_legacy: bool,
    wanted: Option<Seq<path::PartModel>>,
)
    requires
        crate::pairs::keys_ascend(tables),
    ensures
        text::ascending(target_names(targets_among(tables, is_legacy, wanted))),
        forall|n: Seq<char>| #[trigger]
            target_names(targets_among(tables, is_legacy, wanted)).contains(n) ==> exists|i: int|
                0 <= i < tables.len() && (#[trigger] tables[i]).0 == n,
    decreases tables.len(),
{
    if tables.len() > 0 {
        let rest = tables.drop_last();
        assert forall|a: int, b: int| 0 <= a < b < rest.len() implies text::text_before(
            (#[trigger] rest[a]).0,
            (#[trigger] rest[b]).0,
        ) by {
            assert(rest[a] == tables[a] && rest[b] == tables[b]);
        }
        targets_are_in_order(rest, is_legacy, wanted);
        let before = target_names(targets_among(rest, is_legacy, wanted));
        let now = target_names(targets_among(tables, is_legacy, wanted));
        let last = tables.last().0;
        assert(now =~= before || now =~= before.push(last));
        assert forall|n: Seq<char>| #[trigger] now.contains(n) implies exists|i: int|
            0 <= i < tables.len() && (#[trigger] tables[i]).0 == n by {
            let k = choose|k: int| 0 <= k < now.len() && now[k] == n;
            if k < before.len() {
                assert(before[k] == n);
                assert(before.contains(n));
                let i = choose|i: int| 0 <= i < rest.len() && (#[trigger] rest[i]).0 == n;
                assert(tables[i].0 == n);
            } else {
                assert(tables[tables.len() - 1].0 == n);
            }
        }
        assert forall|a: int, b: int| 0 <= a < b < now.len() implies text::text_before(
            now[a],
            now[b],
        ) by {
            if b < before.len() {
                assert(text::text_before(before[a], before[b]));
            } else {
                assert(before.contains(before[a]));
                let i = choose|i: int| 0 <= i < rest.len() && (#[trigger] rest[i]).0 == before[a];
                assert(tables[i] == rest[i]);
                assert(text::text_before(tables[i].0, tables[tables.len() - 1].0));
            }
        }
    }
}

/// The copies of `table` in a bag of names.
pub open spec fn copies_in(names: Multiset<Seq<char>>, table: Seq<char>) -> Multiset<Seq<char>> {
    names.filter(|name: Seq<char>| time_of_copy(name, table, "db"@) is Some)
}

/// As many times are read as there are copies, whatever the order of the names.
proof fn as_many_times_as_copies(names: Seq<Seq<char>>, table: Seq<char>)
    ensures
        times_of_copies(names, table, "db"@).len() == copies_in(names.to_multiset(), table).len(),
    decreases names.len(),
{
    broadcast use vstd::multiset::group_multiset_axioms;
    broadcast use vstd::seq_lib::group_to_multiset_ensures;

    let is_copy = |name: Seq<char>| time_of_copy(name, table, "db"@) is Some;
    if names.len() == 0 {
        assert(names.to_multiset() =~= Multiset::empty());
        assert(copies_in(names.to_multiset(), table) =~= Multiset::empty());
    } else {
        let front = names.drop_last();
        let last = names.last();
        as_many_times_as_copies(front, table);
        assert(names =~= front.push(last));
        vstd::seq_lib::to_multiset_build(front, last);
        if is_copy(last) {
            assert(copies_in(names.to_multiset(), table) =~= copies_in(
                front.to_multiset(),
                table,
            ).insert(last));
        } else {
            assert(copies_in(names.to_multiset(), table) =~= copies_in(
                front.to_multiset(),
                table,
            ));
        }
    }
}

/// The names of the copies of `table` that are deleted, given the names in the
/// directory of the snapshots.
pub open spec fn names_to_purge(
    names: Seq<Seq<char>>,
    table: Seq<char>,
    retention: usize,
) -> Seq<Seq<char>> {
    beyond_retention(times_of_copies(names, table, "db"@), retention).map_values(
        |t: u64| copy_name(table, t, "db"@),
    )
}

proof fn purged_names_are_copies(times: Seq<u64>, table: Seq<char>)
    ensures
        ({
            let gone = times.map_values(|t: u64| copy_name(table, t, "db"@)).to_multiset();
            &&& copies_in(gone, table) == gone
            &&& gone.len() == times.len()
        }),
{
    broadcast use vstd::multiset::group_multiset_axioms;
    broadcast use vstd::seq_lib::group_to_multiset_ensures;

    let names = times.map_values(|t: u64| copy_name(table, t, "db"@));
    let gone = names.to_multiset();
    assert forall|n: Seq<char>| gone.count(n) > 0 implies time_of_copy(n, table, "db"@) is Some by {
        assert(names.contains(n));
        let i = choose|i: int| 0 <= i < names.len() && names[i] == n;
        time_is_read_back(table, times[i], "db"@);
    }
    assert(copies_in(gone, table) =~= gone);
}

/// A dry run previews the run: the number of copies that it says would be deleted
/// is the number that the run reports. `before` are the names in the directory
/// when the dry run was made, and no copy of this second among them; `written` are
/// those after the run has added its copy, and `purged` those after every copy
/// beyond retention was found and deleted. The order of the names does not matter.
pub proof fn dry_run_previews_the_run(
    run: RunModel,
    config: ConfigModel,
    before: Seq<Seq<char>>,
    written: Seq<Seq<char>>,
    purged: Seq<Seq<char>>,
    secs: u64,
)
    requires
        run.left.len() > 0,
        written.to_multiset() == before.to_multiset().insert(
            copy_name(run.left[0].table_name, secs, "db"@),
        ),
        names_to_purge(
            written,
            run.left[0].table_name,
            snapshots_kept(config),
        ).to_multiset().subset_of(written.to_multiset()),
        purged.to_multiset() == written.to_multiset().sub(
            names_to_purge(
                written,
                run.left[0].table_name,
                snapshots_kept(config),
            ).to_multiset(),
        ),
    ensures
        ({
            let table = run.left[0].table_name;
            let removed = would_purge(before, table, snapshots_kept(config));
            &&& copies_gone(table, written, purged) == removed
            &&& after_table(run, config, written, purged).purged == (if removed > 0 {
                run.purged.push(purged_report(table, removed))
            } else {
                run.purged
            })
        }),
{
    broadcast use vstd::multiset::group_multiset_axioms;
    broadcast use vstd::seq_lib::group_to_multiset_ensures;

    let table = run.left[0].table_name;
    let retention = snapshots_kept(config);
    let added = copy_name(table, secs, "db"@);
    let times = times_of_copies(written, table, "db"@);
    let gone = names_to_purge(written, table, retention).to_multiset();
    as_many_times_as_copies(before, table);
    as_many_times_as_copies(written, table);
    as_many_times_as_copies(purged, table);
    time_is_read_back(table, secs, "db"@);
    assert(copies_in(written.to_multiset(), table) =~= copies_in(
        before.to_multiset(),
        table,
    ).insert(added));
    purged_names_are_copies(beyond_retention(times, retention), table);
    assert(gone.subset_of(copies_in(written.to_multiset(), table))) by {
        assert forall|n: Seq<char>| gone.count(n) <= copies_in(
            written.to_multiset(),
            table,
        ).count(n) by {
            assert(copies_in(gone, table).count(n) == gone.count(n));
            assert(gone.count(n) <= written.to_multiset().count(n));
        }
    }
    assert(copies_in(purged.to_multiset(), table) =~= copies_in(
        written.to_multiset(),
        table,
    ).sub(gone));
    purge_keeps_the_newest(times, retention);
}

/// A file is a copy of one table at most.
pub proof fn copies_of_tables_are_apart(a: Seq<char>, b: Seq<char>, secs: u64, ext: Seq<char>)
    requires
        a != b,
    ensures
        time_of_copy(copy_name(a, secs, ext), b, ext) is None,
{
    let name = copy_name(a, secs, ext);
    let digits = text::decimal(secs as nat);
    let prefix = b + "."@;
    let suffix = "."@ + ext;
    reveal_strlit(".");
    assert("."@.len() == 1 && "."@[0] == '.');
    text::decimal_spells(secs as nat);
    let rest = name.skip(prefix.len() as int);
    if prefix.is_prefix_of(name) && suffix.is_suffix_of(rest) {
        let middle = rest.take(rest.len() - suffix.len());
        assert(name[a.len() as int] == '.');
        assert(name[b.len() as int] == '.') by {
            assert(name.subrange(0, prefix.len() as int)[b.len() as int] == prefix[b.len() as int]);
        }
        assert(middle.len() == a.len() + digits.len() - b.len());
        if a.len() < b.len() {
            assert(name[b.len() as int] == digits[b.len() - a.len() - 1]);
            assert(text::is_digit(digits[b.len() - a.len() - 1]));
        } else if a.len() > b.len() {
            let at = a.len() - b.len() - 1;
            assert(middle[at] == name[a.len() as int]);
            if middle[0] == '+' {
                if at > 0 {
                    assert(middle.skip(1)[at - 1] == '.');
                }
            }
        } else {
            assert(a =~= b) by {
                assert forall|i: int| 0 <= i < a.len() implies a[i] == b[i] by {
                    assert(name[i] == a[i]);
                    assert(name.subrange(0, prefix.len() as int)[i] == prefix[i]);
                }
            }
        }
    }
}

/// What a run does with the copies of one table, in a directory that tables share,
/// does not change what is previewed of another.
pub proof fn tables_are_previewed_apart(
    a: Seq<char>,
    b: Seq<char>,
    before: Seq<Seq<char>>,
    written: Seq<Seq<char>>,
    purged: Seq<Seq<char>>,
    secs: u64,
    retention: usize,
)
    requires
        a != b,
        written.to_multiset() == before.to_multiset().insert(copy_name(a, secs, "db"@)),
        purged.to_multiset() == written.to_multiset().sub(
            names_to_purge(written, a, retention).to_multiset(),
        ),
    ensures
        would_purge(purged, b, retention) == would_purge(before, b, retention),
{
    broadcast use vstd::multiset::group_multiset_axioms;
    broadcast use vstd::seq_lib::group_to_multiset_ensures;

    let times = beyond_retention(times_of_copies(written, a, "db"@), retention);
    let names = names_to_purge(written, a, retention);
    as_many_times_as_copies(before, b);
    as_many_times_as_copies(purged, b);
    copies_of_tables_are_apart(a, b, secs, "db"@);
    assert forall|n: Seq<char>| time_of_copy(n, b, "db"@) is Some implies names.to_multiset().count(
        n,
    ) == 0 by {
        if names.to_multiset().count(n) > 0 {
            assert(names.contains(n));
            let i = choose|i: int| 0 <= i < names.len() && names[i] == n;
            copies_of_tables_are_apart(a, b, times[i], "db"@);
        }
    }
    assert(copies_in(purged.to_multiset(), b) =~= copies_in(before.to_multiset(), b));
}

/// Whether a target is what a table with its schema in the file `file` makes: its
/// source is the database with the name of the table in the directory of that
/// file, and its scope is that directory in legacy mode, and the one above
/// otherwise.
pub open spec fn stands_by(
    target: TargetModel,
    file: Seq<path::PartModel>,
    is_legacy: bool,
) -> bool {
    &&& file.len() > 0 && file[file.len() - 1] is Name
    &&& target.db_path == file.take(file.len() - 1).push(
        path::PartModel::Name(target.table_name + ".db"@),
    )
    &&& is_legacy ==> target.scope_root == file.take(file.len() - 1)
    &&& !is_legacy ==> file.len() > 1 && file[file.len() - 2] is Name && target.scope_root
        == file.take(file.len() - 2)
}

/// Whether a scope directory lies in the scope that is asked for, where one is
/// asked for and has a directory.
pub open spec fn within_scope(
    root: Seq<path::PartModel>,
    config: ConfigModel,
    scope: Option<Seq<char>>,
) -> bool {
    &&& scope == Some("project"@) ==> (config.project_dir matches Some(d) ==> d.is_prefix_of(root))
    &&& scope == Some("user"@) ==> (config.user_dir matches Some(d) ==> d.is_prefix_of(root))
}

proof fn scopes_differ()
    ensures
        "project"@ != "user"@,
{
    reveal_strlit("project");
    reveal_strlit("user");
    assert("project"@.len() == 7 && "user"@.len() == 4);
}

proof fn targets_stand_by_their_files(
    table: Seq<char>,
    file: Seq<path::PartModel>,
    is_legacy: bool,
)
    ensures
        forall|t: TargetModel|
            target_of(table, file, is_legacy) == Ok::<TargetModel, ErrorModel>(t) <==> (t.table_name
                == table && #[trigger] stands_by(t, file, is_legacy)),
{
    if file.len() > 0 {
        let dir = file.drop_last();
        assert(dir =~= file.take(file.len() - 1));
        if dir.len() > 0 {
            assert(dir.drop_last() =~= file.take(file.len() - 2));
            assert(dir.last() == file[file.len() - 2]);
        }
    }
}

proof fn among_tables<S>(
    tables: Seq<(Seq<char>, TableEntry<S>)>,
    is_legacy: bool,
    wanted: Option<Seq<path::PartModel>>,
)
    ensures
        forall|t: TargetModel| #[trigger]
            targets_among(tables, is_legacy, wanted).contains(t) <==> in_scope(t.scope_root, wanted)
                && exists|i: int|
                0 <= i < tables.len() && target_of(
                    (#[trigger] tables[i]).0,
                    tables[i].1.schema_path@,
                    is_legacy,
                ) == Ok::<TargetModel, ErrorModel>(t),
    decreases tables.len(),
{
    if tables.len() > 0 {
        let front = tables.drop_last();
        among_tables(front, is_legacy, wanted);
        let before = targets_among(front, is_legacy, wanted);
        let now = targets_among(tables, is_legacy, wanted);
        let last = tables.last();
        let n = tables.len() - 1;
        assert(tables[n] == last);
        assert forall|t: TargetModel| #[trigger] now.contains(t) <==> in_scope(t.scope_root, wanted)
            && exists|i: int|
            0 <= i < tables.len() && target_of(
                (#[trigger] tables[i]).0,
                tables[i].1.schema_path@,
                is_legacy,
            ) == Ok::<TargetModel, ErrorModel>(t) by {
            if now.contains(t) {
                let k = choose|k: int| 0 <= k < now.len() && now[k] == t;
                if k < before.len() {
                    assert(before[k] == t);
                    assert(before.contains(t));
                    let i = choose|i: int|
                        0 <= i < front.len() && target_of(
                            (#[trigger] front[i]).0,
                            front[i].1.schema_path@,
                            is_legacy,
                        ) == Ok::<TargetModel, ErrorModel>(t);
                    assert(tables[i] == front[i]);
                } else {
                    assert(target_of(tables[n].0, tables[n].1.schema_path@, is_legacy) == Ok::<
                        TargetModel,
                        ErrorModel,
                    >(t));
                }
            }
            if in_scope(t.scope_root, wanted) && exists|i: int|
                0 <= i < tables.len() && target_of(
                    (#[trigger] tables[i]).0,
                    tables[i].1.schema_path@,
                    is_legacy,
                ) == Ok::<TargetModel, ErrorModel>(t) {
                let i = choose|i: int|
                    0 <= i < tables.len() && target_of(
                        (#[trigger] tables[i]).0,
                        tables[i].1.schema_path@,
                        is_legacy,
                    ) == Ok::<TargetModel, ErrorModel>(t);
                if i < n {
                    assert(front[i] == tables[i]);
                    assert(before.contains(t));
                    let k = choose|k: int| 0 <= k < before.len() && before[k] == t;
                    assert(now[k] == t);
                } else {
                    assert(now[now.len() - 1] == t);
                }
            }
        }
    }
}

/// Which tables a snapshot is made of, and from where. Asked for all, it is made of
/// every mounted table that has a place, in the scope asked for, each from the
/// database next to its schema file, in ascending order of the names. Asked for one,
/// it is made of that table, from the same file, or of none where the table is in
/// another scope. A target is the same whether its table is named or found among
/// all.
pub proof fn snapshots_are_taken_of_the_tables<S>(
    tables: registry::Tables<S>,
    in_order: Seq<(Seq<char>, TableEntry<S>)>,
    is_legacy: bool,
    config: ConfigModel,
    scope: Option<Seq<char>>,
    name: Seq<char>,
)
    requires
        crate::pairs::keys_ascend(in_order),
        tables == crate::pairs::pairs_map(in_order),
    ensures
        ({
            let all = targets_wanted(tables, in_order, is_legacy, config, None, scope);
            let one = targets_wanted(tables, in_order, is_legacy, config, Some(name), scope);
            let known = scope is None || scope == Some("project"@) || scope == Some("user"@);
            &&& all is Ok <==> known
            &&& all matches Ok(targets) ==> {
                &&& text::ascending(target_names(targets))
                &&& forall|t: TargetModel| #[trigger]
                    targets.contains(t) <==> tables.contains_key(t.table_name) && stands_by(
                        t,
                        tables[t.table_name].schema_path@,
                        is_legacy,
                    ) && within_scope(t.scope_root, config, scope)
            }
            &&& !tables.contains_key(name) ==> one == Err::<Seq<TargetModel>, ErrorModel>(
                ErrorModel::TableNotFound { table: name },
            )
            &&& one matches Ok(targets) ==> known && targets.len() <= 1 && forall|t: TargetModel| #[trigger]
                targets.contains(t) <==> t.table_name == name && all->Ok_0.contains(t)
            &&& forall|t: TargetModel| #[trigger]
                stands_by(t, tables[name].schema_path@, is_legacy) && t.table_name == name
                    && tables.contains_key(name) && known ==> one is Ok
        }),
{
    scopes_differ();
    let wanted = match scope {
        None => None,
        Some(s) => if s == "project"@ {
            config.project_dir
        } else {
            config.user_dir
        },
    };
    let all = targets_wanted(tables, in_order, is_legacy, config, None, scope);
    let one = targets_wanted(tables, in_order, is_legacy, config, Some(name), scope);
    let known = scope is None || scope == Some("project"@) || scope == Some("user"@);
    among_tables(in_order, is_legacy, wanted);
    targets_are_in_order(in_order, is_legacy, wanted);
    if known {
        let targets = all->Ok_0;
        assert(targets == targets_among(in_order, is_legacy, wanted));
        assert forall|t: TargetModel| #[trigger] targets.contains(t) <==> tables.contains_key(
            t.table_name,
        ) && stands_by(t, tables[t.table_name].schema_path@, is_legacy) && within_scope(
            t.scope_root,
            config,
            scope,
        ) by {
            assert(in_scope(t.scope_root, wanted) <==> within_scope(t.scope_root, config, scope));
            crate::pairs::pairs_map_keys(in_order, t.table_name);
            if targets.contains(t) {
                let i = choose|i: int|
                    0 <= i < in_order.len() && target_of(
                        (#[trigger] in_order[i]).0,
                        in_order[i].1.schema_path@,
                        is_legacy,
                    ) == Ok::<TargetModel, ErrorModel>(t);
                crate::pairs::pairs_map_value(in_order, i);
                targets_stand_by_their_files(
                    in_order[i].0,
                    in_order[i].1.schema_path@,
                    is_legacy,
                );
                assert(stands_by(t, in_order[i].1.schema_path@, is_legacy));
            }
            if tables.contains_key(t.table_name) && stands_by(
                t,
                tables[t.table_name].schema_path@,
                is_legacy,
            ) && within_scope(t.scope_root, config, scope) {
                let i = choose|i: int|
                    0 <= i < in_order.len() && (#[trigger] in_order[i]).0 == t.table_name;
                crate::pairs::pairs_map_value(in_order, i);
                targets_stand_by_their_files(
                    in_order[i].0,
                    in_order[i].1.schema_path@,
                    is_legacy,
                );
                assert(target_of(in_order[i].0, in_order[i].1.schema_path@, is_legacy) == Ok::<
                    TargetModel,
                    ErrorModel,
                >(t));
            }
        }
        if tables.contains_key(name) {
            let file = tables[name].schema_path@;
            targets_stand_by_their_files(name, file, is_legacy);
            if one is Ok {
                let target = target_of(name, file, is_legacy)->Ok_0;
                assert(stands_by(target, file, is_legacy));
                assert(in_scope(target.scope_root, wanted) <==> within_scope(
                    target.scope_root,
                    config,
                    scope,
                ));
                assert forall|t: TargetModel| #[trigger] one->Ok_0.contains(t) <==> t.table_name
                    == name && targets.contains(t) by {
                    if t.table_name == name && targets.contains(t) {
                        assert(stands_by(t, file, is_legacy));
                        assert(t == target);
                        assert(one->Ok_0[0] == t);
                    }
                }
            }
        }
    } else if tables.contains_key(name) {
        targets_stand_by_their_files(name, tables[name].schema_path@, is_legacy);
    }
}

/// A table in its usual place in the scope directory `root` is copied from
/// `<root>/<table>/<table>.db`, which is the database that a scan of `root` opens
/// for it.
pub proof fn snapshots_copy_the_scanned_database(
    target: TargetModel,
    root: Seq<path::PartModel>,
    candidate: registry::Candidate,
)
    requires
        stands_by(target, candidate.schema_path@, false),
        registry::candidate_for(candidate, root, target.table_name),
    ensures
        target.scope_root == root,
        target.db_path == root.push(path::PartModel::Name(target.table_name)).push(
            path::PartModel::Name(target.table_name + ".db"@),
        ),
        target.db_path == candidate.db_path@,
{
    let file = candidate.schema_path@;
    assert(file.take(file.len() - 1) =~= path::under(root, target.table_name));
    assert(file.take(file.len() - 2) =~= root);
}

/// What a copy is called and where it lies: `<table>.<seconds>.<ext>`, a snapshot
/// under `_snapshots` and the two files of a backup under `_backup` of the scope.
pub proof fn copies_have_their_places(root: Seq<path::PartModel>, table: Seq<char>, secs: u64)
    ensures
        snapshot_file(root, table, secs) == root.push(path::PartModel::Name("_snapshots"@)).push(
            path::PartModel::Name(table + "."@ + text::decimal(secs as nat) + "."@ + "db"@),
        ),
        backup_files(root, table, secs).0 == root.push(path::PartModel::Name("_backup"@)).push(
            path::PartModel::Name(table + "."@ + text::decimal(secs as nat) + "."@ + "yaml"@),
        ),
        backup_files(root, table, secs).1 == root.push(path::PartModel::Name("_backup"@)).push(
            path::PartModel::Name(table + "."@ + text::decimal(secs as nat) + "."@ + "db"@),
        ),
{
}

/// A file is a copy of a table exactly where its name is the name of the table, a
/// number and the extension, with dots between them; the number is its time.
pub proof fn copies_are_told_by_their_names(
    name: Seq<char>,
    table: Seq<char>,
    ext: Seq<char>,
    middle: Seq<char>,
)
    ensures
        name == table + "."@ + middle + "."@ + ext ==> time_of_copy(name, table, ext)
            == text::number_spelt(middle),
        time_of_copy(name, table, ext) is Some ==> exists|m: Seq<char>| #[trigger]
            text::number_spelt(m) == time_of_copy(name, table, ext) && name == table + "."@ + m
                + "."@ + ext,
{
    let prefix = table + "."@;
    let suffix = "."@ + ext;
    let rest = name.skip(prefix.len() as int);
    if name == table + "."@ + middle + "."@ + ext {
        assert(name.subrange(0, prefix.len() as int) =~= prefix);
        assert(rest =~= middle + suffix);
        assert(rest.subrange(rest.len() - suffix.len(), rest.len() as int) =~= suffix);
        assert(rest.take(rest.len() - suffix.len()) =~= middle);
    }
    if time_of_copy(name, table, ext) is Some {
        let m = rest.take(rest.len() - suffix.len());
        assert(name.subrange(0, prefix.len() as int) == prefix);
        assert(rest.subrange(rest.len() - suffix.len(), rest.len() as int) == suffix);
        assert(name =~= prefix + rest);
        assert(rest =~= m + suffix);
        assert(name =~= table + "."@ + m + "."@ + ext);
        assert(text::number_spelt(m) == time_of_copy(name, table, ext));
    }
}

/// The copies of a table are found among files, none left out and none counted that
/// is no copy of it.
pub proof fn all_copies_are_found(names: Seq<Seq<char>>, table: Seq<char>, ext: Seq<char>)
    ensures
        forall|t: u64| #[trigger]
            times_of_copies(names, table, ext).contains(t) <==> exists|i: int|
                0 <= i < names.len() && time_of_copy(#[trigger] names[i], table, ext) == Some(t),
        times_of_copies(names, table, ext).len() == names.filter(
            |n: Seq<char>| time_of_copy(n, table, ext) is Some,
        ).len(),
    decreases names.len(),
{
    let is_copy = |n: Seq<char>| time_of_copy(n, table, ext) is Some;
    reveal(Seq::filter);
    if names.len() > 0 {
        let front = names.drop_last();
        all_copies_are_found(front, table, ext);
        let before = times_of_copies(front, table, ext);
        let now = times_of_copies(names, table, ext);
        let n = names.len() - 1;
        assert(names[n] == names.last());
        assert forall|t: u64| #[trigger] now.contains(t) <==> exists|i: int|
            0 <= i < names.len() && time_of_copy(#[trigger] names[i], table, ext) == Some(t) by {
            if now.contains(t) {
                let k = choose|k: int| 0 <= k < now.len() && now[k] == t;
                if k < before.len() {
                    assert(before[k] == t);
                    assert(before.contains(t));
                    let i = choose|i: int|
                        0 <= i < front.len() && time_of_copy(#[trigger] front[i], table, ext)
                            == Some(t);
                    assert(names[i] == front[i]);
                } else {
                    assert(time_of_copy(names[n], table, ext) == Some(t));
                }
            }
            if exists|i: int|
                0 <= i < names.len() && time_of_copy(#[trigger] names[i], table, ext) == Some(t) {
                let i = choose|i: int|
                    0 <= i < names.len() && time_of_copy(#[trigger] names[i], table, ext) == Some(
                        t,
                    );
                if i < n {
                    assert(front[i] == names[i]);
                    assert(before.contains(t));
                    let k = choose|k: int| 0 <= k < before.len() && before[k] == t;
                    assert(now[k] == t);
                } else {
                    assert(now[now.len() - 1] == t);
                }
            }
        }
    }
}

/// How many copies a run would delete: those that are there, one more, less those
/// that are kept; and how many are gone: those that were there less those that are.
pub proof fn deletions_are_counted(
    names: Seq<Seq<char>>,
    after: Seq<Seq<char>>,
    table: Seq<char>,
    retention: usize,
)
    ensures
        ({
            let n = names.filter(|f: Seq<char>| time_of_copy(f, table, "db"@) is Some).len();
            let m = after.filter(|f: Seq<char>| time_of_copy(f, table, "db"@) is Some).len();
            &&& n + 1 >= retention ==> would_purge(names, table, retention) + retention == n + 1
            &&& n + 1 < retention ==> would_purge(names, table, retention) == 0
            &&& n >= m ==> copies_gone(table, names, after) == n - m
            &&& n < m ==> copies_gone(table, names, after) == 0
        }),
{
    all_copies_are_found(names, table, "db"@);
    all_copies_are_found(after, table, "db"@);
}

/// What is deleted: of the times of the copies, all but the `retention` newest,
/// newest first. What stays and what goes are the copies together.
pub proof fn the_newest_are_kept(times: Seq<u64>, retention: usize)
    ensures
        ({
            let gone = beyond_retention(times, retention);
            exists|kept: Seq<u64>|
                {
                    &&& #[trigger] (kept + gone).to_multiset() == times.to_multiset()
                    &&& kept.len() <= retention
                    &&& gone.len() > 0 ==> kept.len() == retention
                    &&& forall|i: int, j: int|
                        0 <= i < kept.len() && 0 <= j < gone.len() ==> kept[i] >= gone[j]
                    &&& forall|i: int, j: int| 0 <= i < j < gone.len() ==> gone[i] >= gone[j]
                }
        }),
{
    sorted_as_many(times);
    purge_keeps_the_newest(times, retention);
    let sorted = newest_first(times);
    let gone = beyond_retention(times, retention);
    let kept = sorted.take(sorted.len() - gone.len());
    assert(kept + gone =~= sorted);
    sorted_exists(times);
    assert(sorts(sorted, times));
    assert forall|i: int, j: int| 0 <= i < j < gone.len() implies gone[i] >= gone[j] by {
        let at = sorted.len() - gone.len();
        assert(gone[i] == sorted[at + i] && gone[j] == sorted[at + j]);
    }
    assert forall|i: int, j: int|
        0 <= i < kept.len() && 0 <= j < gone.len() implies kept[i] >= gone[j] by {
        assert(kept[i] == sorted[i]);
    }
    assert((kept + gone).to_multiset() == times.to_multiset());
}

/// A scope has the directory that the configuration gives it, any other scope is
/// refused; and a directory belongs to the project where it lies in that of the
/// project, otherwise to the user where it lies in that of the user.
pub proof fn scopes_have_their_directories(
    root: Seq<path::PartModel>,
    config: ConfigModel,
    scope: Seq<char>,
)
    ensures
        scope == "project"@ ==> scope_dir(config, scope) == Ok::<
            Option<Seq<path::PartModel>>,
            ErrorModel,
        >(config.project_dir),
        scope == "user"@ ==> scope_dir(config, scope) == Ok::<
            Option<Seq<path::PartModel>>,
            ErrorModel,
        >(config.user_dir),
        scope != "project"@ && scope != "user"@ ==> scope_dir(config, scope) == Err::<
            Option<Seq<path::PartModel>>,
            ErrorModel,
        >(
            ErrorModel::Snapshot(
                "unrecognised scope '"@ + scope + "': expected 'project' or 'user'"@,
            ),
        ),
        ({
            let in_project = config.project_dir matches Some(d) && d.is_prefix_of(root);
            let in_user = config.user_dir matches Some(d) && d.is_prefix_of(root);
            &&& in_project ==> scope_label(root, config) == "project"@
            &&& !in_project && in_user ==> scope_label(root, config) == "user"@
            &&& !in_project && !in_user ==> scope_label(root, config) == "unknown"@
        }),
{
    scopes_differ();
}

proof fn report_keys_differ()
    ensures
        "table"@ != "scope"@,
        "table"@ != "snapshot_path"@,
        "table"@ != "unix_secs"@,
        "scope"@ != "snapshot_path"@,
        "scope"@ != "unix_secs"@,
        "snapshot_path"@ != "unix_secs"@,
        "table"@ != "generations_removed"@,
        "target_tables"@ != "row_counts"@,
        "target_tables"@ != "would_purge_generations"@,
        "row_counts"@ != "would_purge_generations"@,
{
    reveal_strlit("table");
    reveal_strlit("scope");
    reveal_strlit("snapshot_path");
    reveal_strlit("unix_secs");
    reveal_strlit("generations_removed");
    reveal_strlit("target_tables");
    reveal_strlit("row_counts");
    reveal_strlit("would_purge_generations");
    assert("table"@.len() == 5 && "table"@[0] == 't');
    assert("scope"@.len() == 5 && "scope"@[0] == 's');
    assert("snapshot_path"@.len() == 13);
    assert("unix_secs"@.len() == 9);
    assert("generations_removed"@.len() == 19);
    assert("target_tables"@.len() == 13);
    assert("row_counts"@.len() == 10);
    assert("would_purge_generations"@.len() == 23);
}

/// What a run takes down of a table: its name, its scope, and the newest copy that
/// is there once the snapshot was written, by its path and its time; and, where
/// copies are gone after that, how many. The table is then done, and the others
/// stay to be done.
pub proof fn runs_report_what_was_done(
    run: RunModel,
    config: ConfigModel,
    written: Seq<Seq<char>>,
    purged: Seq<Seq<char>>,
)
    requires
        run.left.len() > 0,
    ensures
        ({
            let target = run.left[0];
            let after = after_table(run, config, written, purged);
            let entry = after.snapshotted.last();
            let gone = copies_gone(target.table_name, written, purged);
            &&& after.left.len() == run.left.len() - 1
            &&& forall|i: int|
                0 <= i < after.left.len() ==> #[trigger] after.left[i] == run.left[i + 1]
            &&& after.snapshotted.len() == run.snapshotted.len() + 1
            &&& forall|i: int|
                0 <= i < run.snapshotted.len() ==> #[trigger] after.snapshotted[i]
                    == run.snapshotted[i]
            &&& json::says(entry, "table"@, JsonModel::Text(target.table_name))
            &&& json::says(
                entry,
                "scope"@,
                JsonModel::Text(scope_label(target.scope_root, config)),
            )
            &&& forall|i: int|
                #![trigger written[i]]
                0 <= i < written.len() && time_of_copy(written[i], target.table_name, "db"@) is Some
                    && (forall|j: int|
                    0 <= j < written.len() && j != i && time_of_copy(
                        #[trigger] written[j],
                        target.table_name,
                        "db"@,
                    ) is Some ==> time_of_copy(written[j], target.table_name, "db"@)->0
                        < time_of_copy(written[i], target.table_name, "db"@)->0) ==> json::says(
                    entry,
                    "snapshot_path"@,
                    JsonModel::Text(
                        path::written(
                            target.scope_root.push(path::PartModel::Name("_snapshots"@)).push(
                                path::PartModel::Name(written[i]),
                            ),
                        ),
                    ),
                ) && json::says(
                    entry,
                    "unix_secs"@,
                    JsonModel::Number(
                        json::NumberModel::Integer(
                            time_of_copy(written[i], target.table_name, "db"@)->0 as int,
                        ),
                    ),
                )
            &&& (forall|i: int|
                0 <= i < written.len() ==> time_of_copy(
                    #[trigger] written[i],
                    target.table_name,
                    "db"@,
                ) is None) ==> json::says(entry, "snapshot_path"@, JsonModel::Text(Seq::empty()))
                && json::says(entry, "unix_secs"@, JsonModel::Null)
            &&& gone == 0 ==> after.purged == run.purged
            &&& gone > 0 ==> after.purged.len() == run.purged.len() + 1 && after.purged.drop_last()
                == run.purged && json::says(
                after.purged.last(),
                "table"@,
                JsonModel::Text(target.table_name),
            ) && json::says(
                after.purged.last(),
                "generations_removed"@,
                JsonModel::Number(json::NumberModel::Integer(gone)),
            )
        }),
{
    report_keys_differ();
    let target = run.left[0];
    let table = target.table_name;
    let after = after_table(run, config, written, purged);
    newest_copy_is_newest(written, table);
    if copies_gone(table, written, purged) > 0 {
        assert(after.purged.drop_last() =~= run.purged);
    }
    assert forall|i: int|
        #![trigger written[i]]
        0 <= i < written.len() && time_of_copy(written[i], table, "db"@) is Some && (forall|j: int|
            0 <= j < written.len() && j != i && time_of_copy(
                #[trigger] written[j],
                table,
                "db"@,
            ) is Some ==> time_of_copy(written[j], table, "db"@)->0 < time_of_copy(
                written[i],
                table,
                "db"@,
            )->0) implies newest_copy(written, table) == Some(
        (time_of_copy(written[i], table, "db"@)->0, written[i]),
    ) by {
        let (t, name) = newest_copy(written, table)->0;
        let k = choose|k: int| 0 <= k < written.len() && written[k] == name;
        assert(written[k] == name);
        assert(k == i);
    }
}

proof fn counts_of_tables(targets: Seq<TargetModel>, facts: Seq<TargetFacts>, retention: usize)
    requires
        forall|i: int, j: int|
            0 <= i < j < targets.len() ==> (#[trigger] targets[i]).table_name != (
            #[trigger] targets[j]).table_name,
    ensures
        counts(targets, facts, retention) matches Ok((rows, purges)) ==> forall|i: int|
            0 <= i < targets.len() ==> {
                let table = (#[trigger] targets[i]).table_name;
                &&& facts[i].rows is Ok
                &&& rows.contains_key(table) && rows[table] == JsonModel::Number(
                    json::NumberModel::Integer(facts[i].rows->Ok_0 as int),
                )
                &&& purges.contains_key(table) && purges[table] == JsonModel::Number(
                    json::NumberModel::Integer(
                        would_purge(text::texts(facts[i].names@), table, retention),
                    ),
                )
            },
        counts(targets, facts, retention) matches Err(e) ==> exists|k: int|
            #![trigger targets[k]]
            0 <= k < targets.len() && facts[k].rows is Err && e == ErrorModel::Snapshot(
                "row_count failed for table '"@ + targets[k].table_name + "': "@
                    + error::message_of(facts[k].rows->Err_0@),
            ) && forall|j: int| 0 <= j < k ==> (#[trigger] facts[j]).rows is Ok,
        counts(targets, facts, retention) is Ok ==> forall|j: int|
            0 <= j < targets.len() ==> (#[trigger] facts[j]).rows is Ok,
    decreases targets.len(),
{
    if targets.len() > 0 {
        let front = targets.drop_last();
        assert forall|i: int, j: int| 0 <= i < j < front.len() implies (
        #[trigger] front[i]).table_name != (#[trigger] front[j]).table_name by {
            assert(front[i] == targets[i] && front[j] == targets[j]);
        }
        counts_of_tables(front, facts, retention);
        let n = targets.len() - 1;
        assert(targets[n] == targets.last());
        match counts(front, facts, retention) {
            Err(e) => {
                let k = choose|k: int|
                    #![trigger front[k]]
                    0 <= k < front.len() && facts[k].rows is Err && e == ErrorModel::Snapshot(
                        "row_count failed for table '"@ + front[k].table_name + "': "@
                            + error::message_of(facts[k].rows->Err_0@),
                    ) && forall|j: int| 0 <= j < k ==> (#[trigger] facts[j]).rows is Ok;
                assert(targets[k] == front[k]);
            },
            Ok((rows, purges)) => {
                assert forall|i: int| 0 <= i < n implies {
                    let table = (#[trigger] targets[i]).table_name;
                    &&& facts[i].rows is Ok
                    &&& rows.contains_key(table) && rows[table] == JsonModel::Number(
                        json::NumberModel::Integer(facts[i].rows->Ok_0 as int),
                    )
                    &&& purges.contains_key(table) && purges[table] == JsonModel::Number(
                        json::NumberModel::Integer(
                            would_purge(text::texts(facts[i].names@), table, retention),
                        ),
                    )
                    &&& table != targets[n].table_name
                } by {
                    assert(front[i] == targets[i]);
                }
            },
        }
    }
}

/// What a dry run reports: the tables, in order, and for each the number of its
/// rows and of the copies that would be deleted; or, where the rows of a table
/// cannot be counted, the first such table and why.
pub proof fn dry_runs_report_every_table(
    targets: Seq<TargetModel>,
    facts: Seq<TargetFacts>,
    retention: usize,
)
    requires
        forall|i: int, j: int|
            0 <= i < j < targets.len() ==> (#[trigger] targets[i]).table_name != (
            #[trigger] targets[j]).table_name,
    ensures
        dry_report(targets, facts, retention) matches Ok(report) ==> {
            &&& json::says(report, "dry_run"@, JsonModel::Bool(true))
            &&& exists|affects: JsonModel|
                {
                    &&& #[trigger] json::says(report, "affects"@, affects)
                    &&& exists|list: JsonModel| #[trigger]
                        json::says(affects, "target_tables"@, list) && json::lists(
                            list,
                            targets.map_values(|t: TargetModel| t.table_name),
                        )
                    &&& exists|rows: JsonModel| #[trigger]
                        json::says(affects, "row_counts"@, rows) && forall|i: int|
                            0 <= i < targets.len() ==> json::says(
                                rows,
                                (#[trigger] targets[i]).table_name,
                                JsonModel::Number(
                                    json::NumberModel::Integer(facts[i].rows->Ok_0 as int),
                                ),
                            )
                    &&& exists|purges: JsonModel| #[trigger]
                        json::says(affects, "would_purge_generations"@, purges) && forall|i: int|
                            0 <= i < targets.len() ==> json::says(
                                purges,
                                (#[trigger] targets[i]).table_name,
                                JsonModel::Number(
                                    json::NumberModel::Integer(
                                        would_purge(
                                            text::texts(facts[i].names@),
                                            targets[i].table_name,
                                            retention,
                                        ),
                                    ),
                                ),
                            )
                }
        },
        dry_report(targets, facts, retention) is Ok <==> forall|j: int|
            0 <= j < targets.len() ==> (#[trigger] facts[j]).rows is Ok,
        dry_report(targets, facts, retention) matches Err(e) ==> exists|k: int|
            #![trigger targets[k]]
            0 <= k < targets.len() && facts[k].rows is Err && e == ErrorModel::Snapshot(
                "row_count failed for table '"@ + targets[k].table_name + "': "@
                    + error::message_of(facts[k].rows->Err_0@),
            ) && forall|j: int| 0 <= j < k ==> (#[trigger] facts[j]).rows is Ok,
{
    report_keys_differ();
    counts_of_tables(targets, facts, retention);
    match counts(targets, facts, retention) {
        Ok((rows, purges)) => {
            let affects = schema_tools::no_members().insert(
                "target_tables"@,
                error::text_list(target_names(targets)),
            ).insert("row_counts"@, JsonModel::Object(rows)).insert(
                "would_purge_generations"@,
                JsonModel::Object(purges),
            );
            schema_tools::dry_runs_say_so(affects);
            let report = dry_report(targets, facts, retention)->Ok_0;
            let inner = JsonModel::Object(affects);
            let list = error::text_list(target_names(targets));
            assert(json::says(report, "affects"@, inner));
            assert(json::says(inner, "target_tables"@, list));
            assert(json::lists(list, targets.map_values(|t: TargetModel| t.table_name)));
            assert(json::says(inner, "row_counts"@, JsonModel::Object(rows)));
            assert(json::says(inner, "would_purge_generations"@, JsonModel::Object(purges)));
        },
        Err(e) => {},
    }
}

/// The number of snapshots that are kept is the one that is set, and 10 where none
/// is. A target says what it holds.
pub proof fn ten_snapshots_are_kept(config: ConfigModel, target: SnapshotTarget)
    ensures
        config.snapshot_retention matches Some(n) ==> snapshots_kept(config) == n,
        config.snapshot_retention is None ==> snapshots_kept(config) == 10,
        target@.table_name == target.table_name@ && target@.scope_root == target.scope_root@
            && target@.db_path == target.db_path@,
{
}

/// Whether `file` is the snapshot of `table` whose name is `name`, in the scope at
/// `root`, where the time is written without leading zeros.
pub open spec fn is_snapshot_named(
    file: Seq<path::PartModel>,
    root: Seq<path::PartModel>,
    table: Seq<char>,
    name: Seq<char>,
) -> bool {
    &&& time_of_copy(name, table, "db"@) is Some
    &&& file == root.push(path::PartModel::Name("_snapshots"@)).push(
        path::PartModel::Name(
            table + "."@ + text::decimal(time_of_copy(name, table, "db"@)->0 as nat) + "."@
                + "db"@,
        ),
    )
}

/// What is deleted of the snapshots of a table: files of copies of that table, which
/// are there, in the directory of the snapshots of its scope; as many as are there
/// beyond those that are kept.
pub proof fn old_snapshots_are_deleted(
    root: Seq<path::PartModel>,
    table: Seq<char>,
    names: Seq<Seq<char>>,
    retention: usize,
)
    ensures
        ({
            let gone = files_to_purge(root, table, names, retention);
            let copies = names.filter(|f: Seq<char>| time_of_copy(f, table, "db"@) is Some).len();
            &&& copies <= retention ==> gone.len() == 0
            &&& copies > retention ==> gone.len() == copies - retention
            &&& forall|i: int|
                0 <= i < gone.len() ==> exists|k: int|
                    0 <= k < names.len() && is_snapshot_named(
                        #[trigger] gone[i],
                        root,
                        table,
                        #[trigger] names[k],
                    )
        }),
{
    broadcast use vstd::seq_lib::group_to_multiset_ensures;

    let times = times_of_copies(names, table, "db"@);
    let going = beyond_retention(times, retention);
    let gone = files_to_purge(root, table, names, retention);
    all_copies_are_found(names, table, "db"@);
    let is_copy = |f: Seq<char>| time_of_copy(f, table, "db"@) is Some;
    assert(times.len() == names.filter(is_copy).len());
    purge_keeps_the_newest(times, retention);
    let sorted = newest_first(times);
    assert forall|i: int| 0 <= i < gone.len() implies exists|k: int|
        0 <= k < names.len() && is_snapshot_named(
            #[trigger] gone[i],
            root,
            table,
            #[trigger] names[k],
        ) by {
        let t = going[i];
        assert(gone[i] == snapshot_file(root, table, t));
        assert(t == sorted[sorted.len() - gone.len() + i]);
        assert(sorted.contains(t));
        assert(sorted.to_multiset().count(t) > 0);
        assert(times.to_multiset().count(t) > 0);
        assert(times.contains(t));
        let k = choose|k: int|
            0 <= k < names.len() && time_of_copy(#[trigger] names[k], table, "db"@) == Some(t);
        assert(is_snapshot_named(gone[i], root, table, names[k]));
    }
}

/// The report of a run is what was taken down, table by table. A run is asked for
/// unless a report alone is.
pub proof fn runs_are_reported_whole(run: RunModel)
    ensures
        json::says(run_report(run), "snapshotted"@, JsonModel::Array(run.snapshotted)),
        json::says(run_report(run), "purged"@, JsonModel::Array(run.purged)),
        asks_for_report(Some(true)),
        !asks_for_report(Some(false)),
        !asks_for_report(None),
{
    reveal_strlit("snapshotted");
    reveal_strlit("purged");
    assert("snapshotted"@.len() == 11 && "purged"@.len() == 6);
}

/// A snapshot that could not be written says at which point it failed, and why.
pub proof fn failures_say_at_which_point(stage: SnapshotStage, cause: Seq<char>)
    ensures
        stage == SnapshotStage::Clock ==> failure_told(stage, cause) == ErrorModel::Snapshot(
            "system clock error: "@ + cause,
        ),
        stage == SnapshotStage::Directory ==> failure_told(stage, cause) == ErrorModel::Snapshot(
            "cannot create snapshot dir: "@ + cause,
        ),
        stage == SnapshotStage::Source ==> failure_told(stage, cause) == ErrorModel::Snapshot(
            "cannot open source db: "@ + cause,
        ),
        stage == SnapshotStage::Copy ==> failure_told(stage, cause) == ErrorModel::Snapshot(
            "rusqlite backup failed: "@ + cause,
        ),
        stage == SnapshotStage::Listing ==> failure_told(stage, cause) == ErrorModel::Snapshot(
            "cannot read snapshot dir: "@ + cause,
        ),
{
}

/// Outcomes are what was returned.
pub proof fn targets_are_what_was_returned(
    targets: Vec<SnapshotTarget>,
    t: SnapshotTarget,
    p: FilePath,
    d: Option<FilePath>,
    v: JsonValue,
    newest: (u64, String),
    e: MiniAppError,
    i: int,
)
    ensures
        targets_outcome(Ok(targets)) matches Ok(ts) && ts.len() == targets@.len() && (0 <= i
            < targets@.len() ==> ts[i] == targets@[i]@),
        targets_outcome(Err(e)) == Err::<Seq<TargetModel>, ErrorModel>(e@),
        target_outcome(Ok(t)) == Ok::<TargetModel, ErrorModel>(t@),
        target_outcome(Err(e)) == Err::<TargetModel, ErrorModel>(e@),
        path_outcome(Ok(p)) == Ok::<Seq<path::PartModel>, ErrorModel>(p@),
        path_outcome(Err(e)) == Err::<Seq<path::PartModel>, ErrorModel>(e@),
        dir_outcome(Err(e)) == Err::<Option<Seq<path::PartModel>>, ErrorModel>(e@),
        dir_outcome(Ok(d)) == Ok::<Option<Seq<path::PartModel>>, ErrorModel>(path::path_option(d)),
        path::path_option(Some(p)) == Some(p@) && path::path_option(None) is None,
        report_outcome(Ok(v)) == Ok::<JsonModel, ErrorModel>(v@),
        report_outcome(Err(e)) == Err::<JsonModel, ErrorModel>(e@),
        t@ == (TargetModel {
            table_name: t.table_name@,
            scope_root: t.scope_root@,
            db_path: t.db_path@,
        }),
        newest_model(Some(newest)) == Some((newest.0, newest.1@)),
        newest_model(None) is None,
{
}

/// The scope of a table by the file of its schema: in legacy mode the directory of
/// that file, otherwise the one above; and an error where there is no such directory.
pub proof fn scopes_are_told_by_schema_files(file: Seq<path::PartModel>)
    ensures
        file.len() > 0 && file[file.len() - 1] is Name ==> scope_root_of(file, true) == Ok::<
            Seq<path::PartModel>,
            ErrorModel,
        >(file.take(file.len() - 1)),
        file.len() > 1 && file[file.len() - 1] is Name && file[file.len() - 2] is Name
            ==> scope_root_of(file, false) == Ok::<Seq<path::PartModel>, ErrorModel>(
            file.take(file.len() - 2),
        ),
        file.len() == 0 || file[file.len() - 1] is Root ==> scope_root_of(file, true) == Err::<
            Seq<path::PartModel>,
            ErrorModel,
        >(ErrorModel::Snapshot("schema_path has no parent dir"@)) && scope_root_of(file, false)
            == Err::<Seq<path::PartModel>, ErrorModel>(
            ErrorModel::Snapshot("schema_path has no grandparent dir"@),
        ),
        file.len() == 1 || (file.len() > 1 && file[file.len() - 2] is Root) ==> scope_root_of(
            file,
            false,
        ) == Err::<Seq<path::PartModel>, ErrorModel>(
            ErrorModel::Snapshot("schema_path has no grandparent dir"@),
        ),
{
    if file.len() > 0 {
        let dir = file.drop_last();
        assert(dir =~= file.take(file.len() - 1));
        if dir.len() > 0 {
            assert(dir.drop_last() =~= file.take(file.len() - 2));
            assert(dir.last() == file[file.len() - 2]);
        }
    }
}

/// Of several copies with the newest time, the first that is listed counts.
pub proof fn first_of_the_newest_counts(names: Seq<Seq<char>>, table: Seq<char>, k: int)
    requires
        0 <= k < names.len(),
        time_of_copy(names[k], table, "db"@) is Some,
        forall|i: int|
            0 <= i < names.len() ==> (time_of_copy(#[trigger] names[i], table, "db"@) matches Some(
                t,
            ) ==> t <= time_of_copy(names[k], table, "db"@)->0 && (i < k ==> t < time_of_copy(
                names[k],
                table,
                "db"@,
            )->0)),
    ensures
        newest_copy(names, table) == Some((time_of_copy(names[k], table, "db"@)->0, names[k])),
    decreases names.len(),
{
    let rest = names.drop_last();
    if k < names.len() - 1 {
        assert(rest[k] == names[k]);
        assert forall|i: int| 0 <= i < rest.len() implies (time_of_copy(
            #[trigger] rest[i],
            table,
            "db"@,
        ) matches Some(t) ==> t <= time_of_copy(rest[k], table, "db"@)->0 && (i < k ==> t
            < time_of_copy(rest[k], table, "db"@)->0)) by {
            assert(rest[i] == names[i]);
        }
        first_of_the_newest_counts(rest, table, k);
        assert(names.last() == names[names.len() - 1]);
    } else {
        newest_copy_is_newest(rest, table);
        if newest_copy(rest, table) is Some {
            let name = (newest_copy(rest, table)->0).1;
            let j = choose|j: int| 0 <= j < rest.len() && rest[j] == name;
            assert(names[j] == rest[j]);
        }
    }
}

/// Each table is taken down once, in order: it is no longer to be done, and what was
/// reported before stays. Once all are done, nothing more is taken down.
pub proof fn tables_are_taken_down_in_order(
    run: RunModel,
    config: ConfigModel,
    written: Seq<Seq<char>>,
    purged: Seq<Seq<char>>,
)
    ensures
        ({
            let then = taken_down(run, config, written, purged);
            &&& run.left.len() == 0 ==> then == run
            &&& run.left.len() > 0 ==> {
                &&& then.left.len() == run.left.len() - 1
                &&& forall|i: int|
                    0 <= i < then.left.len() ==> #[trigger] then.left[i] == run.left[i + 1]
                &&& then.snapshotted.len() == run.snapshotted.len() + 1
                &&& run.snapshotted.is_prefix_of(then.snapshotted)
                &&& run.purged.is_prefix_of(then.purged)
                &&& then.purged.len() <= run.purged.len() + 1
                &&& json::says(
                    then.snapshotted.last(),
                    "table"@,
                    JsonModel::Text(run.left[0].table_name),
                )
            }
        }),
{
    reveal_strlit("table");
    reveal_strlit("scope");
    reveal_strlit("snapshot_path");
    reveal_strlit("unix_secs");
    assert("table"@.len() == 5 && "table"@[0] == 't' && "scope"@.len() == 5 && "scope"@[0] == 's');
    assert("snapshot_path"@.len() == 13 && "unix_secs"@.len() == 9);
}

/// Asked for all, a snapshot is made of every mounted table that has a place, in the
/// scope asked for, from the database next to its schema file; asked for one, of that
/// table. Where there is a default table, the tables are those of legacy mode.
pub proof fn mounted_tables_are_copied<S>(
    tables: TableRegistry<S>,
    config: ConfigModel,
    scope: Option<Seq<char>>,
    name: Seq<char>,
    t: TargetModel,
)
    requires
        crate::pairs::keys_ascend(tables.pairs()),
        tables.tables() == crate::pairs::pairs_map(tables.pairs()),
    ensures
        targets_in(tables, config, None, scope) is Ok <==> scope is None || scope == Some(
            "project"@,
        ) || scope == Some("user"@),
        targets_in(tables, config, None, scope) matches Ok(all) ==> (all.contains(t)
            <==> tables.tables().contains_key(t.table_name) && stands_by(
            t,
            tables.tables()[t.table_name].schema_path@,
            tables.default_name() is Some,
        ) && within_scope(t.scope_root, config, scope)),
        targets_in(tables, config, Some(name), scope) matches Ok(one) ==> (one.contains(t)
            <==> t.table_name == name && tables.tables().contains_key(name) && stands_by(
            t,
            tables.tables()[name].schema_path@,
            tables.default_name() is Some,
        ) && within_scope(t.scope_root, config, scope)),
        !tables.tables().contains_key(name) ==> targets_in(tables, config, Some(name), scope)
            == Err::<Seq<TargetModel>, ErrorModel>(ErrorModel::TableNotFound { table: name }),
{
    snapshots_are_taken_of_the_tables(
        tables.tables(),
        tables.pairs(),
        tables.default_name() is Some,
        config,
        scope,
        name,
    );
}

} // verus!
