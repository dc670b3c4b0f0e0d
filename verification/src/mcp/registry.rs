//! The mounted tables.

use vstd::prelude::*;
use vstd::string::*;

use crate::error::ErrorModel;
use crate::error::MiniAppError;
use crate::path;
use crate::path::FilePath;
use crate::schema::SchemaConfig;
use crate::text;
use crate::textmap::TextMap;

verus! {

broadcast use vstd::map::group_map_axioms;

/// A mounted table: the handle of its rows, its schema, and its schema file.
#[derive(Debug)]
pub struct TableEntry<S> {
    pub store: S,
    pub schema: SchemaConfig,
    pub schema_path: FilePath,
}

/// All mounted tables. The name of the default table is set in legacy mode only.
#[derive(Debug)]
pub struct TableRegistry<S> {
    entries: TextMap<TableEntry<S>>,
    default_table: Option<String>,
}

/// Tables by their names.
pub type Tables<S> = Map<Seq<char>, TableEntry<S>>;

/// What was found of tables, in order, as key and value.
pub open spec fn found_pairs<S>(found: Seq<(String, TableEntry<S>)>) -> Seq<
    (Seq<char>, TableEntry<S>),
> {
    found.map_values(|e: (String, TableEntry<S>)| (e.0@, e.1))
}

/// The tables that a list of findings mounts; where a name comes twice, the last
/// finding counts.
pub open spec fn tables_found<S>(found: Seq<(String, TableEntry<S>)>) -> Tables<S> {
    crate::pairs::pairs_map(found_pairs(found))
}

/// The tables of two scopes together: where both have a table, that of the
/// project counts, as a whole.
pub open spec fn scopes_merged<S>(user: Tables<S>, project: Tables<S>) -> Tables<S> {
    user.union_prefer_right(project)
}

/// The table that a name, or its absence, stands for.
pub open spec fn resolved<S>(
    tables: Tables<S>,
    default_table: Option<Seq<char>>,
    name: Option<Seq<char>>,
) -> Result<TableEntry<S>, ErrorModel> {
    match name {
        Some(n) => table_called(tables, n),
        None => match default_table {
            Some(d) => table_called(tables, d),
            None => Err(ErrorModel::TableRequired),
        },
    }
}

/// The table called `name`.
pub open spec fn table_called<S>(tables: Tables<S>, name: Seq<char>) -> Result<
    TableEntry<S>,
    ErrorModel,
> {
    if tables.contains_key(name) {
        Ok(tables[name])
    } else {
        Err(ErrorModel::TableNotFound { table: name })
    }
}

impl<S> TableRegistry<S> {
    pub closed spec fn tables(&self) -> Tables<S> {
        self.entries@
    }

    pub closed spec fn default_name(&self) -> Option<Seq<char>> {
        text::text_option(self.default_table)
    }

    /// The tables in ascending order of their names.
    pub closed spec fn pairs(&self) -> Seq<(Seq<char>, TableEntry<S>)> {
        self.entries.pairs()
    }

    /// The registry of the given tables; where a name comes twice, the last one
    /// counts.
    pub fn from_entries(found: Vec<(String, TableEntry<S>)>, default_table: Option<String>) -> (r:
        TableRegistry<S>)
        ensures
            r.tables() == tables_found(found@),
            r.default_name() == text::text_option(default_table),
    {
        let mut r: TableRegistry<S> = TableRegistry { entries: TextMap::new(), default_table };
        r.mount_all(found);
        assert(Map::<Seq<char>, TableEntry<S>>::empty().union_prefer_right(tables_found(found@))
            =~= tables_found(found@));
        r
    }

    /// Mounts tables, each in place of one of the same name.
    fn mount_all(&mut self, found: Vec<(String, TableEntry<S>)>)
        ensures
            final(self).tables() == old(self).tables().union_prefer_right(tables_found(found@)),
            final(self).default_name() == old(self).default_name(),
    {
        let ghost given = found@;
        let ghost start = self.tables();
        let ghost name = self.default_name();
        assert(start.union_prefer_right(tables_found(given.take(0))) =~= start) by {
            assert(found_pairs(given.take(0)) =~= Seq::empty());
        }
        for e in it: found
            invariant
                it.seq() == given,
                self.tables() == start.union_prefer_right(
                    tables_found(given.take(it.index() as int)),
                ),
                self.default_name() == name,
        {
            let ghost i = it.index() as int;
            let ghost upto = found_pairs(given.take(i + 1));
            let ghost before = self.tables();
            assert(upto.drop_last() =~= found_pairs(given.take(i)));
            assert(upto.last() == (e.0@, e.1));
            self.entries.insert(e.0, e.1);
            assert(self.tables() =~= start.union_prefer_right(tables_found(given.take(i + 1))));
        }
        assert(given.take(given.len() as int) =~= given);
    }

    /// Mounts the tables found under the directory of the user, then those found
    /// under the directory of the project, which take the place of tables of the
    /// same name. There is no default table.
    pub fn mount_from_dirs(
        user: Vec<(String, TableEntry<S>)>,
        project: Vec<(String, TableEntry<S>)>,
    ) -> (r: TableRegistry<S>)
        ensures
            r.tables() == scopes_merged(tables_found(user@), tables_found(project@)),
            r.default_name() is None,
    {
        let mut r: TableRegistry<S> = TableRegistry::from_entries(user, None);
        r.mount_all(project);
        r
    }

    /// The registry of one table, under the name that its schema gives, which is
    /// the default table.
    pub fn mount_legacy(entry: TableEntry<S>) -> (r: TableRegistry<S>)
        ensures
            r.tables() == Map::<Seq<char>, TableEntry<S>>::empty().insert(
                entry.schema.table@,
                entry,
            ),
            r.default_name() == Some(entry.schema.table@),
    {
        let name: String = entry.schema.table.clone();
        let mut entries: TextMap<TableEntry<S>> = TextMap::new();
        entries.insert(name.clone(), entry);
        TableRegistry { entries, default_table: Some(name) }
    }

    /// Mounts the one table of legacy mode among the others, in place of one of
    /// the same name, and makes it the default table.
    pub fn mount_legacy_into(self, entry: TableEntry<S>) -> (r: TableRegistry<S>)
        ensures
            r.tables() == self.tables().insert(entry.schema.table@, entry),
            r.default_name() == Some(entry.schema.table@),
    {
        let name: String = entry.schema.table.clone();
        let mut entries: TextMap<TableEntry<S>> = self.entries;
        entries.insert(name.clone(), entry);
        TableRegistry { entries, default_table: Some(name) }
    }

    /// The table called `name`; without a name, the default table.
    pub fn resolve(&self, name: Option<&str>) -> (r: Result<&TableEntry<S>, MiniAppError>)
        ensures
            match r {
                Ok(e) => resolved(
                    self.tables(),
                    self.default_name(),
                    match name {
                        Some(n) => Some(n@),
                        None => None,
                    },
                ) == Ok::<TableEntry<S>, ErrorModel>(*e),
                Err(e) => resolved(
                    self.tables(),
                    self.default_name(),
                    match name {
                        Some(n) => Some(n@),
                        None => None,
                    },
                ) == Err::<TableEntry<S>, ErrorModel>(e@),
            },
    {
        let key: &str = match name {
            Some(n) => n,
            None => match &self.default_table {
                Some(d) => d.as_str(),
                None => {
                    return Err(MiniAppError::TableRequired);
                },
            },
        };
        match self.entries.get(key) {
            Some(e) => Ok(e),
            None => Err(MiniAppError::TableNotFound { table: key.to_owned() }),
        }
    }

    /// Whether a table is mounted.
    pub fn is_mounted(&self, name: &str) -> (r: bool)
        ensures
            r == self.tables().contains_key(name@),
    {
        self.entries.contains_key(name)
    }

    /// The name of the default table, where there is one.
    pub fn default_table(&self) -> (r: Option<&str>)
        ensures
            match r {
                Some(d) => self.default_name() == Some(d@),
                None => self.default_name() is None,
            },
    {
        match &self.default_table {
            Some(d) => Some(d.as_str()),
            None => None,
        }
    }

    /// The number of mounted tables. The pairs of name and table in ascending
    /// order of the names spell the registry.
    pub fn table_count(&self) -> (r: usize)
        ensures
            r == self.pairs().len(),
            crate::pairs::keys_ascend(self.pairs()),
            self.tables() == crate::pairs::pairs_map(self.pairs()),
            r == self.tables().dom().len(),
    {
        let n: usize = self.entries.len();
        proof {
            crate::pairs::pairs_map_count(self.pairs());
        }
        n
    }

    /// The names of the mounted tables, in ascending order.
    pub fn table_names(&self) -> (r: Vec<String>)
        ensures
            text::ascending(text::texts(r@)),
            forall|k: Seq<char>|
                self.tables().contains_key(k) <==> #[trigger] text::texts(r@).contains(k),
    {
        self.entries.keys()
    }

    /// The name of the `i`-th table in ascending order of the names.
    pub fn name_at(&self, i: usize) -> (r: &String)
        requires
            i < self.pairs().len(),
        ensures
            r@ == self.pairs()[i as int].0,
    {
        self.entries.key_at(i)
    }

    /// The `i`-th table in ascending order of the names.
    pub fn entry_at(&self, i: usize) -> (r: &TableEntry<S>)
        requires
            i < self.pairs().len(),
        ensures
            *r == self.pairs()[i as int].1,
    {
        self.entries.value_at(i)
    }
}

/// A table that both scopes have is that of the project, as a whole; a table that
/// one scope has is that of the scope.
pub proof fn project_overrides_user<S>(user: Tables<S>, project: Tables<S>, name: Seq<char>)
    ensures
        project.contains_key(name) ==> table_called(scopes_merged(user, project), name) == Ok::<
            TableEntry<S>,
            ErrorModel,
        >(project[name]),
        !project.contains_key(name) ==> table_called(scopes_merged(user, project), name)
            == table_called(user, name),
{
}

/// A directory under a scope that may hold a table.
#[derive(Debug, PartialEq, Eq)]
pub struct Candidate {
    /// The name of the directory, which is the name of the table.
    pub table: String,
    pub schema_path: FilePath,
    pub db_path: FilePath,
}

/// The schema file of a table in the scope directory `dir`.
pub open spec fn schema_file(dir: Seq<path::PartModel>, table: Seq<char>) -> Seq<path::PartModel> {
    path::under(path::under(dir, table), "schema.yaml"@)
}

/// The database file of a table in the scope directory `dir`.
pub open spec fn database_file(dir: Seq<path::PartModel>, table: Seq<char>) -> Seq<
    path::PartModel,
> {
    path::under(path::under(dir, table), table + ".db"@)
}

/// Whether `c` is the candidate for the table called `table` in the scope
/// directory `dir`.
pub open spec fn candidate_for(
    c: Candidate,
    dir: Seq<path::PartModel>,
    table: Seq<char>,
) -> bool {
    &&& c.table@ == table
    &&& c.schema_path@ == schema_file(dir, table)
    &&& c.db_path@ == database_file(dir, table)
}

/// What an entry of a scope directory may hold: a table, where it is a directory
/// whose name is a text.
pub fn inspect(dir: &FilePath, is_dir: bool, name: Option<String>) -> (r: Option<Candidate>)
    ensures
        r is Some <==> is_dir && name is Some,
        r matches Some(c) ==> candidate_for(c, dir@, name->0@),
{
    if !is_dir {
        return None;
    }
    match name {
        Some(table) => {
            let table_dir: FilePath = dir.join(table.as_str());
            let schema_path: FilePath = table_dir.join("schema.yaml");
            let db_path: FilePath = table_dir.join(table.clone().concat(".db").as_str());
            Some(Candidate { table, schema_path, db_path })
        },
        None => None,
    }
}

/// What is known of a candidate so far.
#[derive(Debug)]
pub enum Scan<S> {
    /// Whether its schema file exists.
    SchemaFile(bool),
    /// The schema that the file holds, where it can be read.
    Schema(Option<SchemaConfig>),
    /// The handle of its rows, where the database can be opened.
    Opened(Option<S>, SchemaConfig),
}

/// What is to be done with a candidate next.
#[derive(Debug)]
pub enum ScanStep<S> {
    /// It holds no usable table.
    Skip,
    /// Read its schema file.
    LoadSchema,
    /// Open its database, which need not exist yet.
    OpenStore(SchemaConfig),
    /// Mount it.
    Mount(String, TableEntry<S>),
}

/// What is to be done with a candidate next, as a model.
pub enum ScanModel<S> {
    Skip,
    LoadSchema,
    OpenStore(SchemaConfig),
    Mount(Seq<char>, TableEntry<S>),
}

impl<S> View for ScanStep<S> {
    type V = ScanModel<S>;

    open spec fn view(&self) -> ScanModel<S> {
        match self {
            ScanStep::Skip => ScanModel::Skip,
            ScanStep::LoadSchema => ScanModel::LoadSchema,
            ScanStep::OpenStore(schema) => ScanModel::OpenStore(*schema),
            ScanStep::Mount(name, entry) => ScanModel::Mount(name@, *entry),
        }
    }
}

/// The next step of a scan with a candidate: a table without a schema file, with
/// a schema that cannot be read, or with a database that cannot be opened is
/// skipped; any other is mounted under the name of its directory.
pub open spec fn scan_next<S>(candidate: Candidate, known: Scan<S>) -> ScanModel<S> {
    match known {
        Scan::SchemaFile(exists) => if exists {
            ScanModel::LoadSchema
        } else {
            ScanModel::Skip
        },
        Scan::Schema(Some(schema)) => ScanModel::OpenStore(schema),
        Scan::Schema(None) => ScanModel::Skip,
        Scan::Opened(Some(store), schema) => ScanModel::Mount(
            candidate.table@,
            TableEntry { store, schema, schema_path: candidate.schema_path },
        ),
        Scan::Opened(None, _) => ScanModel::Skip,
    }
}

/// The next step of a scan with a candidate.
pub fn scan_step<S>(candidate: Candidate, known: Scan<S>) -> (r: ScanStep<S>)
    ensures
        r@ == scan_next(candidate, known),
{
    match known {
        Scan::SchemaFile(true) => ScanStep::LoadSchema,
        Scan::SchemaFile(false) => ScanStep::Skip,
        Scan::Schema(Some(schema)) => ScanStep::OpenStore(schema),
        Scan::Schema(None) => ScanStep::Skip,
        Scan::Opened(Some(store), schema) => ScanStep::Mount(
            candidate.table,
            TableEntry { store, schema, schema_path: candidate.schema_path },
        ),
        Scan::Opened(None, _) => ScanStep::Skip,
    }
}

/// Whether `entry` is the last of the findings under `name`.
pub open spec fn last_found<S>(
    found: Seq<(String, TableEntry<S>)>,
    name: Seq<char>,
    entry: TableEntry<S>,
) -> bool {
    exists|i: int|
        #![trigger found[i]]
        0 <= i < found.len() && found[i].0@ == name && found[i].1 == entry && forall|j: int|
            i < j < found.len() ==> (#[trigger] found[j]).0@ != name
}

/// The tables that findings mount are those that were found, each under its name;
/// where a name comes twice, the last finding counts.
pub proof fn findings_are_mounted<S>(
    found: Seq<(String, TableEntry<S>)>,
    name: Seq<char>,
    entry: TableEntry<S>,
)
    ensures
        tables_found(found).contains_key(name) <==> exists|i: int|
            0 <= i < found.len() && (#[trigger] found[i]).0@ == name,
        last_found(found, name, entry) ==> tables_found(found).contains_key(name)
            && tables_found(found)[name] == entry,
        tables_found(found).contains_key(name) ==> last_found(
            found,
            name,
            tables_found(found)[name],
        ),
{
    let pairs = found_pairs(found);
    crate::pairs::pairs_map_keys(pairs, name);
    if tables_found(found).contains_key(name) {
        let i = choose|i: int| 0 <= i < pairs.len() && (#[trigger] pairs[i]).0 == name;
        assert(found[i].0@ == name);
        let k = last_finding(found, name);
        assert forall|j: int| k < j < pairs.len() implies (#[trigger] pairs[j]).0 != pairs[k].0 by {
            assert(found[j].0@ != name);
        }
        crate::pairs::pairs_map_last(pairs, k);
        assert(found[k].1 == tables_found(found)[name]);
    }
    if exists|i: int| 0 <= i < found.len() && (#[trigger] found[i]).0@ == name {
        let i = choose|i: int| 0 <= i < found.len() && (#[trigger] found[i]).0@ == name;
        assert(pairs[i].0 == name);
    }
    if last_found(found, name, entry) {
        let k = choose|k: int|
            #![trigger found[k]]
            0 <= k < found.len() && found[k].0@ == name && found[k].1 == entry && forall|j: int|
                k < j < found.len() ==> (#[trigger] found[j]).0@ != name;
        assert forall|j: int| k < j < pairs.len() implies (#[trigger] pairs[j]).0 != pairs[k].0 by {
            assert(found[j].0@ != name);
        }
        crate::pairs::pairs_map_last(pairs, k);
    }
}

proof fn last_finding<S>(found: Seq<(String, TableEntry<S>)>, name: Seq<char>) -> (k: int)
    requires
        exists|i: int| 0 <= i < found.len() && (#[trigger] found[i]).0@ == name,
    ensures
        0 <= k < found.len(),
        found[k].0@ == name,
        forall|j: int| k < j < found.len() ==> (#[trigger] found[j]).0@ != name,
    decreases found.len(),
{
    let n = found.len() - 1;
    if found[n].0@ == name {
        n
    } else {
        let front = found.drop_last();
        let i = choose|i: int| 0 <= i < found.len() && (#[trigger] found[i]).0@ == name;
        assert(front[i].0@ == name);
        let k = last_finding(front, name);
        assert forall|j: int| k < j < found.len() implies (#[trigger] found[j]).0@ != name by {
            if j < n {
                assert(front[j] == found[j]);
            }
        }
        k
    }
}

/// A request gets the table that it names, and the default table where it names
/// none; a name that no table has, and a missing name where there is no default
/// table, are errors.
pub proof fn requests_get_the_table_they_name<S>(
    tables: Tables<S>,
    default_table: Option<Seq<char>>,
    name: Seq<char>,
)
    ensures
        tables.contains_key(name) ==> resolved(tables, default_table, Some(name)) == Ok::<
            TableEntry<S>,
            ErrorModel,
        >(tables[name]),
        !tables.contains_key(name) ==> resolved(tables, default_table, Some(name)) == Err::<
            TableEntry<S>,
            ErrorModel,
        >(ErrorModel::TableNotFound { table: name }),
        default_table is None ==> resolved(tables, default_table, None) == Err::<
            TableEntry<S>,
            ErrorModel,
        >(ErrorModel::TableRequired),
        default_table == Some(name) ==> resolved(tables, default_table, None) == resolved(
            tables,
            default_table,
            Some(name),
        ),
{
}

/// A scan of a scope directory looks for `<dir>/<table>/schema.yaml` and
/// `<dir>/<table>/<table>.db`. It mounts a table whose schema file exists and can be
/// read and whose database can be opened, with that schema and that database, under
/// the name of its directory; and it skips any other.
pub proof fn scans_mount_what_can_be_read<S>(
    candidate: Candidate,
    dir: Seq<path::PartModel>,
    schema: SchemaConfig,
    store: S,
)
    ensures
        candidate_for(candidate, dir, candidate.table@) ==> candidate.schema_path@ == dir.push(
            path::PartModel::Name(candidate.table@),
        ).push(path::PartModel::Name("schema.yaml"@)) && candidate.db_path@ == dir.push(
            path::PartModel::Name(candidate.table@),
        ).push(path::PartModel::Name(candidate.table@ + ".db"@)),
        scan_next(candidate, Scan::<S>::SchemaFile(false)) is Skip,
        scan_next(candidate, Scan::<S>::SchemaFile(true)) is LoadSchema,
        scan_next(candidate, Scan::<S>::Schema(None)) is Skip,
        scan_next(candidate, Scan::<S>::Schema(Some(schema))) == ScanModel::<S>::OpenStore(schema),
        scan_next(candidate, Scan::<S>::Opened(None, schema)) is Skip,
        scan_next(candidate, Scan::Opened(Some(store), schema)) matches ScanModel::Mount(name, entry)
            && name == candidate.table@ && entry.store == store && entry.schema == schema
            && entry.schema_path == candidate.schema_path,
{
}

/// The steps of a scan, and what was found, say what they hold.
pub proof fn scans_say_what_they_hold<S>(
    s: ScanStep<S>,
    found: Seq<(String, TableEntry<S>)>,
    i: int,
)
    ensures
        s is Skip <==> s@ is Skip,
        s is LoadSchema <==> s@ is LoadSchema,
        s matches ScanStep::OpenStore(schema) ==> s@ == ScanModel::<S>::OpenStore(schema),
        s matches ScanStep::Mount(name, entry) ==> s@ == ScanModel::Mount(name@, entry),
        found_pairs(found).len() == found.len(),
        0 <= i < found.len() ==> found_pairs(found)[i] == (found[i].0@, found[i].1),
{
}

} // verus!
