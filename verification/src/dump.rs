//! Rows as files: where the file of a row lies and what it says.

use vstd::prelude::*;
use vstd::string::*;

use crate::json;
use crate::json::JsonModel;
use crate::json::JsonValue;
use crate::schema::SchemaConfig;
use crate::schema::SchemaModel;
use crate::store::RowModel;
use crate::store::RowRecord;
use crate::text;

verus! {

/// Which way rows and files are kept in step. Only writing is implemented.
#[derive(Debug, Clone, Copy, PartialEq, Eq, Structural)]
pub enum SyncMode {
    WriteOnly,
    Bidirectional,
}

/// Where and how the rows of a table are written to files.
#[derive(Debug, PartialEq, Eq)]
pub struct DumpConfig {
    /// The directory of the files.
    pub dir: Option<String>,
    /// The field that becomes the heading.
    pub title_field: Option<String>,
    /// The field that becomes the text.
    pub body_field: Option<String>,
    pub sync: Option<SyncMode>,
}

/// What a dump configuration says.
pub struct DumpModel {
    pub dir: Option<Seq<char>>,
    pub title_field: Option<Seq<char>>,
    pub body_field: Option<Seq<char>>,
    pub sync: Option<SyncMode>,
}

impl View for DumpConfig {
    type V = DumpModel;

    open spec fn view(&self) -> DumpModel {
        DumpModel {
            dir: text::text_option(self.dir),
            title_field: text::text_option(self.title_field),
            body_field: text::text_option(self.body_field),
            sync: self.sync,
        }
    }
}

impl DumpConfig {
    /// The same configuration once more.
    pub fn duplicate(&self) -> (r: DumpConfig)
        ensures
            r@ == self@,
    {
        DumpConfig {
            dir: text::duplicate_option(&self.dir),
            title_field: text::duplicate_option(&self.title_field),
            body_field: text::duplicate_option(&self.body_field),
            sync: self.sync,
        }
    }
}

/// The directory of the files of a table.
#[derive(Debug, PartialEq, Eq)]
pub enum DumpDir {
    /// The directory that the schema names.
    Given(String),
    /// `.mini-app/<table>` in the working directory.
    OfTable(String),
}

/// The directory of the files of a table, as a model.
pub enum DumpDirModel {
    Given(Seq<char>),
    OfTable(Seq<char>),
}

impl View for DumpDir {
    type V = DumpDirModel;

    open spec fn view(&self) -> DumpDirModel {
        match self {
            DumpDir::Given(d) => DumpDirModel::Given(d@),
            DumpDir::OfTable(t) => DumpDirModel::OfTable(t@),
        }
    }
}

/// The file of a row.
#[derive(Debug, PartialEq, Eq)]
pub struct DumpFile {
    pub dir: DumpDir,
    pub name: String,
    pub text: String,
}

/// The file of a row, as a model.
pub struct DumpFileModel {
    pub dir: DumpDirModel,
    pub name: Seq<char>,
    pub text: Seq<char>,
}

impl View for DumpFile {
    type V = DumpFileModel;

    open spec fn view(&self) -> DumpFileModel {
        DumpFileModel { dir: self.dir@, name: self.name@, text: self.text@ }
    }
}

/// How a field of a row is written to a file: a text as it is, a value that is
/// missing or null as nothing, any other as its JSON text.
pub open spec fn field_text(data: JsonModel, field: Seq<char>) -> Seq<char> {
    match data {
        JsonModel::Object(members) => if members.contains_key(field) {
            match members[field] {
                JsonModel::Text(s) => s,
                JsonModel::Null => Seq::empty(),
                _ => json::json_text(members[field]),
            }
        } else {
            Seq::empty()
        },
        _ => Seq::empty(),
    }
}

/// The file that is written for a row, where its table writes files: the title
/// as a heading, then the body.
pub open spec fn dumped(schema: SchemaModel, row: RowModel) -> Option<DumpFileModel> {
    match schema.dump {
        None => None,
        Some(config) => {
            let title = match config.title_field {
                Some(f) => f,
                None => "title"@,
            };
            let body = match config.body_field {
                Some(f) => f,
                None => "body"@,
            };
            Some(
                DumpFileModel {
                    dir: match config.dir {
                        Some(d) => DumpDirModel::Given(d),
                        None => DumpDirModel::OfTable(schema.table),
                    },
                    name: row.id + ".md"@,
                    text: "# "@ + field_text(row.data, title) + "\n\n"@ + field_text(row.data, body)
                        + "\n"@,
                },
            )
        },
    }
}

fn text_of_field(data: &JsonValue, field: &str) -> (r: String)
    ensures
        r@ == field_text(data@, field@),
{
    let nothing: String = String::new();
    assert(nothing@ =~= Seq::<char>::empty());
    match data {
        JsonValue::Object(o) => match o.get(field) {
            Some(JsonValue::Text(s)) => s.clone(),
            Some(JsonValue::Null) => nothing,
            Some(v) => v.to_text(),
            None => nothing,
        },
        _ => nothing,
    }
}

/// The file that is to be written after a row was created or updated, if any.
/// Deleting a row leaves its file where it is.
pub fn on_change(schema: &SchemaConfig, record: &RowRecord) -> (r: Option<DumpFile>)
    ensures
        match r {
            Some(f) => dumped(schema@, record@) == Some(f@),
            None => dumped(schema@, record@) is None,
        },
{
    match &schema.dump {
        None => None,
        Some(config) => {
            let title: String = match &config.title_field {
                Some(f) => f.clone(),
                None => "title".to_owned(),
            };
            let body: String = match &config.body_field {
                Some(f) => f.clone(),
                None => "body".to_owned(),
            };
            let dir: DumpDir = match &config.dir {
                Some(d) => DumpDir::Given(d.clone()),
                None => DumpDir::OfTable(schema.table.clone()),
            };
            let text: String = "# ".to_owned().concat(
                text_of_field(&record.data, title.as_str()).as_str(),
            ).concat("\n\n").concat(text_of_field(&record.data, body.as_str()).as_str()).concat(
                "\n",
            );
            Some(DumpFile { dir, name: record.id.clone().concat(".md"), text })
        },
    }
}

/// The file of a row, where its table writes files: it bears the id of the row, lies
/// in the directory that the schema names, or in that of the table where it names
/// none, and holds the field that is the title, as a heading, and the field that is
/// the body. Without other names these are `title` and `body`.
pub proof fn rows_are_written_to_their_files(schema: SchemaModel, row: RowModel)
    ensures
        schema.dump is None <==> dumped(schema, row) is None,
        schema.dump matches Some(d) ==> {
            let file = dumped(schema, row)->0;
            let title = if d.title_field is Some {
                d.title_field->0
            } else {
                "title"@
            };
            let body = if d.body_field is Some {
                d.body_field->0
            } else {
                "body"@
            };
            &&& file.name == row.id + ".md"@
            &&& d.dir matches Some(dir) ==> file.dir == DumpDirModel::Given(dir)
            &&& d.dir is None ==> file.dir == DumpDirModel::OfTable(schema.table)
            &&& file.text == "# "@ + field_text(row.data, title) + "\n\n"@ + field_text(
                row.data,
                body,
            ) + "\n"@
        },
{
}

/// A field is written as its text; where it is no text as its JSON; and as nothing
/// where it is null, or not there.
pub proof fn fields_are_written_as_their_texts(
    data: JsonModel,
    members: Map<Seq<char>, JsonModel>,
    field: Seq<char>,
    s: Seq<char>,
)
    ensures
        !(data is Object) ==> field_text(data, field).len() == 0,
        !members.contains_key(field) ==> field_text(JsonModel::Object(members), field).len() == 0,
        members.contains_key(field) && members[field] == JsonModel::Null ==> field_text(
            JsonModel::Object(members),
            field,
        ).len() == 0,
        members.contains_key(field) && members[field] == JsonModel::Text(s) ==> field_text(
            JsonModel::Object(members),
            field,
        ) == s,
        members.contains_key(field) && !(members[field] is Text) && !(members[field] is Null)
            ==> field_text(JsonModel::Object(members), field) == json::json_text(members[field]),
{
}

/// A dump configuration says what it holds.
pub proof fn dump_configurations_say_what_they_hold(d: DumpConfig)
    ensures
        d.dir matches Some(t) ==> d@.dir == Some(t@),
        d.dir is None ==> d@.dir is None,
        d.title_field matches Some(t) ==> d@.title_field == Some(t@),
        d.title_field is None ==> d@.title_field is None,
        d.body_field matches Some(t) ==> d@.body_field == Some(t@),
        d.body_field is None ==> d@.body_field is None,
        d@.sync == d.sync,
{
}

} // verus!
