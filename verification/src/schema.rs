//! Table schemas: which fields a table has, and which rows it accepts.

use vstd::prelude::*;
use vstd::string::*;

use crate::dump::{DumpConfig, DumpModel};
use crate::error::ErrorModel;
use crate::error::MiniAppError;
use crate::json::JsonModel;
use crate::json::JsonValue;
use crate::text;

verus! {

/// The type of a field.
#[derive(Debug, Clone, Copy, PartialEq, Eq, Structural)]
pub enum FieldType {
    String,
    Number,
    Boolean,
    Array,
    Object,
}

/// The name of a field type.
pub open spec fn name_of_type(ty: FieldType) -> Seq<char> {
    match ty {
        FieldType::String => "string"@,
        FieldType::Number => "number"@,
        FieldType::Boolean => "boolean"@,
        FieldType::Array => "array"@,
        FieldType::Object => "object"@,
    }
}

/// Whether a value is of the type. Null is of none.
pub open spec fn of_type(value: JsonModel, ty: FieldType) -> bool {
    match ty {
        FieldType::String => value is Text,
        FieldType::Number => value is Number,
        FieldType::Boolean => value is Bool,
        FieldType::Array => value is Array,
        FieldType::Object => value is Object,
    }
}

/// The name of the kind of a JSON value.
pub open spec fn kind_name(value: JsonModel) -> Seq<char> {
    match value {
        JsonModel::Null => "null"@,
        JsonModel::Bool(_) => "boolean"@,
        JsonModel::Number(_) => "number"@,
        JsonModel::Text(_) => "string"@,
        JsonModel::Array(_) => "array"@,
        JsonModel::Object(_) => "object"@,
    }
}

impl FieldType {
    /// The name of the type.
    pub fn as_str(&self) -> (r: &'static str)
        ensures
            r@ == name_of_type(*self),
    {
        match self {
            FieldType::String => "string",
            FieldType::Number => "number",
            FieldType::Boolean => "boolean",
            FieldType::Array => "array",
            FieldType::Object => "object",
        }
    }

    /// Whether `value` is of this type.
    pub fn matches(&self, value: &JsonValue) -> (r: bool)
        ensures
            r == of_type(value@, *self),
    {
        match self {
            FieldType::String => matches!(value, JsonValue::Text(_)),
            FieldType::Number => matches!(value, JsonValue::Number(_)),
            FieldType::Boolean => matches!(value, JsonValue::Bool(_)),
            FieldType::Array => matches!(value, JsonValue::Array(_)),
            FieldType::Object => matches!(value, JsonValue::Object(_)),
        }
    }
}

/// The name of the kind of `value`.
pub fn json_type_name(value: &JsonValue) -> (r: &'static str)
    ensures
        r@ == kind_name(value@),
{
    match value {
        JsonValue::Null => "null",
        JsonValue::Bool(_) => "boolean",
        JsonValue::Number(_) => "number",
        JsonValue::Text(_) => "string",
        JsonValue::Array(_) => "array",
        JsonValue::Object(_) => "object",
    }
}

/// One field of a table.
#[derive(Debug, PartialEq, Eq)]
pub struct FieldDef {
    /// The key of the field in a row.
    pub name: String,
    /// The type of its values.
    pub ty: FieldType,
    /// Whether every row must have it.
    pub required: bool,
    /// What the field is for.
    pub description: Option<String>,
}

/// What a field definition says.
pub struct FieldModel {
    pub name: Seq<char>,
    pub ty: FieldType,
    pub required: bool,
    pub description: Option<Seq<char>>,
}

impl View for FieldDef {
    type V = FieldModel;

    open spec fn view(&self) -> FieldModel {
        FieldModel {
            name: self.name@,
            ty: self.ty,
            required: self.required,
            description: text::text_option(self.description),
        }
    }
}

/// The schema of a table.
#[derive(Debug, PartialEq, Eq)]
pub struct SchemaConfig {
    /// The name of the table.
    pub table: String,
    /// A title for readers.
    pub title: Option<String>,
    /// What the table is for.
    pub description: Option<String>,
    /// The fields, in the order of their declaration.
    pub fields: Vec<FieldDef>,
    /// Where rows are written to as files, if anywhere.
    pub dump: Option<DumpConfig>,
}

/// What a schema says.
pub struct SchemaModel {
    pub table: Seq<char>,
    pub title: Option<Seq<char>>,
    pub description: Option<Seq<char>>,
    pub fields: Seq<FieldModel>,
    pub dump: Option<DumpModel>,
}

/// The fields as models.
pub open spec fn field_models(fields: Seq<FieldDef>) -> Seq<FieldModel> {
    fields.map_values(|f: FieldDef| f@)
}

impl View for SchemaConfig {
    type V = SchemaModel;

    open spec fn view(&self) -> SchemaModel {
        SchemaModel {
            table: self.table@,
            title: text::text_option(self.title),
            description: text::text_option(self.description),
            fields: field_models(self.fields@),
            dump: match self.dump {
                Some(d) => Some(d@),
                None => None,
            },
        }
    }
}

/// The position of the first field called `name`.
pub open spec fn field_position(fields: Seq<FieldModel>, name: Seq<char>) -> Option<int>
    decreases fields.len(),
{
    if fields.len() == 0 {
        None
    } else if fields[0].name == name {
        Some(0)
    } else {
        match field_position(fields.drop_first(), name) {
            Some(i) => Some(i + 1),
            None => None,
        }
    }
}

/// The first field called `name`.
pub open spec fn field_called(fields: Seq<FieldModel>, name: Seq<char>) -> Option<FieldModel> {
    match field_position(fields, name) {
        Some(i) => Some(fields[i]),
        None => None,
    }
}

/// Where there is a field called `name`, the first one is found; where there is
/// none, none is.
pub proof fn field_position_is_first(fields: Seq<FieldModel>, name: Seq<char>)
    ensures
        match field_position(fields, name) {
            Some(i) => 0 <= i < fields.len() && fields[i].name == name && forall|j: int|
                0 <= j < i ==> (#[trigger] fields[j]).name != name,
            None => forall|j: int| 0 <= j < fields.len() ==> (#[trigger] fields[j]).name != name,
        },
    decreases fields.len(),
{
    if fields.len() > 0 && fields[0].name != name {
        let rest = fields.drop_first();
        field_position_is_first(rest, name);
        assert forall|j: int| 1 <= j < fields.len() implies fields[j] == #[trigger] rest[j - 1] by {}
        match field_position(rest, name) {
            Some(i) => {
                assert(fields[i + 1] == rest[i]);
                assert forall|j: int| 0 <= j < i + 1 implies (#[trigger] fields[j]).name
                    != name by {
                    if j > 0 {
                        assert(fields[j] == rest[j - 1]);
                    }
                }
            },
            None => {
                assert forall|j: int| 0 <= j < fields.len() implies (#[trigger] fields[j]).name
                    != name by {
                    if j > 0 {
                        assert(fields[j] == rest[j - 1]);
                    }
                }
            },
        }
    }
}

/// What is wrong with a row as far as one field goes.
pub open spec fn field_failure(
    field: FieldModel,
    members: Map<Seq<char>, JsonModel>,
) -> Option<ErrorModel> {
    if !members.contains_key(field.name) || members[field.name] is Null {
        if field.required {
            Some(
                ErrorModel::Validation { field: field.name, reason: "required field missing"@ },
            )
        } else {
            None
        }
    } else if !of_type(members[field.name], field.ty) {
        Some(
            ErrorModel::Validation {
                field: field.name,
                reason: "expected type '"@ + name_of_type(field.ty) + "', got '"@ + kind_name(
                    members[field.name],
                ) + "'"@,
            },
        )
    } else {
        None
    }
}

/// The failure of the first field that has one.
pub open spec fn first_failure(
    fields: Seq<FieldModel>,
    members: Map<Seq<char>, JsonModel>,
) -> Option<ErrorModel>
    decreases fields.len(),
{
    if fields.len() == 0 {
        None
    } else {
        match field_failure(fields[0], members) {
            Some(e) => Some(e),
            None => first_failure(fields.drop_first(), members),
        }
    }
}

/// Why a schema with these fields refuses a row, if it does.
pub open spec fn refusal(fields: Seq<FieldModel>, value: JsonModel) -> Option<ErrorModel> {
    match value {
        JsonModel::Object(members) => first_failure(fields, members),
        _ => Some(
            ErrorModel::Validation { field: "(root)"@, reason: "value must be a JSON object"@ },
        ),
    }
}

/// Whether a row has every required field, and only values of the declared type
/// in the fields that it has.
pub open spec fn conforms(fields: Seq<FieldModel>, value: JsonModel) -> bool {
    &&& value is Object
    &&& forall|i: int|
        0 <= i < fields.len() ==> {
            let members = value->Object_0;
            let field = #[trigger] fields[i];
            if members.contains_key(field.name) && !(members[field.name] is Null) {
                of_type(members[field.name], field.ty)
            } else {
                !field.required
            }
        }
}

/// A schema accepts exactly the rows that conform to it. Keys that it does not
/// name play no part.
pub proof fn accepted_exactly_when_conforming(fields: Seq<FieldModel>, value: JsonModel)
    ensures
        refusal(fields, value) is None <==> conforms(fields, value),
    decreases fields.len(),
{
    if value is Object && fields.len() > 0 {
        let rest = fields.drop_first();
        accepted_exactly_when_conforming(rest, value);
        if conforms(fields, value) {
            assert(field_failure(fields[0], value->Object_0) is None);
            assert forall|i: int| 0 <= i < rest.len() implies rest[i] == #[trigger] fields[i
                + 1] by {}
            assert(conforms(rest, value));
        }
        if refusal(fields, value) is None {
            assert(conforms(rest, value));
            assert forall|i: int| 0 <= i < fields.len() implies {
                let members = value->Object_0;
                let field = #[trigger] fields[i];
                if members.contains_key(field.name) && !(members[field.name] is Null) {
                    of_type(members[field.name], field.ty)
                } else {
                    !field.required
                }
            } by {
                if i > 0 {
                    assert(fields[i] == rest[i - 1]);
                }
            }
        }
    }
}

/// Two objects that agree on the fields of the schema, in which of them they have
/// and in the values, are accepted alike, and refused for the same reason: keys
/// that the schema does not name may be there, and may hold anything.
pub proof fn unknown_keys_are_accepted(
    fields: Seq<FieldModel>,
    a: Map<Seq<char>, JsonModel>,
    b: Map<Seq<char>, JsonModel>,
)
    requires
        forall|n: Seq<char>| #[trigger]
            field_position(fields, n) is Some ==> a.contains_key(n) == b.contains_key(n) && (
            a.contains_key(n) ==> a[n] == b[n]),
    ensures
        refusal(fields, JsonModel::Object(a)) == refusal(fields, JsonModel::Object(b)),
    decreases fields.len(),
{
    if fields.len() > 0 {
        let rest = fields.drop_first();
        assert forall|n: Seq<char>| #[trigger] field_position(rest, n) is Some implies a.contains_key(
            n,
        ) == b.contains_key(n) && (a.contains_key(n) ==> a[n] == b[n]) by {
            assert(field_position(fields, n) is Some);
        }
        unknown_keys_are_accepted(rest, a, b);
        assert(field_position(fields, fields[0].name) is Some);
        assert(field_failure(fields[0], a) == field_failure(fields[0], b));
    }
}

impl FieldDef {
    /// The same definition once more.
    pub fn duplicate(&self) -> (r: FieldDef)
        ensures
            r@ == self@,
    {
        FieldDef {
            name: self.name.clone(),
            ty: self.ty,
            required: self.required,
            description: text::duplicate_option(&self.description),
        }
    }
}

/// The same definitions once more.
pub fn duplicate_fields(fields: &Vec<FieldDef>) -> (r: Vec<FieldDef>)
    ensures
        field_models(r@) == field_models(fields@),
{
    let mut r: Vec<FieldDef> = Vec::new();
    let mut i: usize = 0;
    while i < fields.len()
        invariant
            i <= fields@.len(),
            r@.len() == i,
            forall|j: int| 0 <= j < i ==> (#[trigger] r@[j])@ == fields@[j]@,
        decreases fields@.len() - i,
    {
        r.push(fields[i].duplicate());
        i += 1;
    }
    assert(field_models(r@) =~= field_models(fields@));
    r
}

impl SchemaConfig {
    /// The same schema once more.
    pub fn duplicate(&self) -> (r: SchemaConfig)
        ensures
            r@ == self@,
    {
        SchemaConfig {
            table: self.table.clone(),
            title: text::duplicate_option(&self.title),
            description: text::duplicate_option(&self.description),
            fields: duplicate_fields(&self.fields),
            dump: match &self.dump {
                Some(d) => Some(d.duplicate()),
                None => None,
            },
        }
    }

    /// The first field called `name`.
    pub fn field(&self, name: &str) -> (r: Option<&FieldDef>)
        ensures
            match r {
                Some(f) => field_called(self@.fields, name@) == Some(f@),
                None => field_called(self@.fields, name@) is None,
            },
    {
        let mut i: usize = 0;
        assert(self@.fields.skip(0) =~= self@.fields);
        while i < self.fields.len()
            invariant
                i <= self.fields@.len(),
                field_position(self@.fields, name@) == (match field_position(
                    self@.fields.skip(i as int),
                    name@,
                ) {
                    Some(k) => Some(k + i),
                    None => None,
                }),
            decreases self.fields@.len() - i,
        {
            let ghost rest = self@.fields.skip(i as int);
            assert(rest[0] == self.fields@[i as int]@);
            assert(rest.drop_first() =~= self@.fields.skip(i + 1));
            if text::same_text(&self.fields[i].name, name) {
                return Some(&self.fields[i]);
            }
            i += 1;
        }
        None
    }

    /// Checks a row against the schema: it must be an object that has every
    /// required field, and a value of the declared type in each field that it
    /// has. The first field that fails, in the order of declaration, is reported.
    /// Keys that the schema does not name are accepted.
    pub fn validate(&self, value: &JsonValue) -> (r: Result<(), MiniAppError>)
        ensures
            match r {
                Ok(_) => refusal(self@.fields, value@) is None,
                Err(e) => refusal(self@.fields, value@) == Some(e@),
            },
    {
        let object = match value {
            JsonValue::Object(o) => o,
            _ => {
                return Err(
                    MiniAppError::Validation {
                        field: "(root)".to_owned(),
                        reason: "value must be a JSON object".to_owned(),
                    },
                );
            },
        };
        let mut i: usize = 0;
        assert(self@.fields.skip(0) =~= self@.fields);
        while i < self.fields.len()
            invariant
                i <= self.fields@.len(),
                value@ == JsonModel::Object(object@),
                first_failure(self@.fields, object@) == first_failure(
                    self@.fields.skip(i as int),
                    object@,
                ),
            decreases self.fields@.len() - i,
        {
            let field: &FieldDef = &self.fields[i];
            let ghost rest = self@.fields.skip(i as int);
            assert(rest[0] == field@);
            assert(rest.drop_first() =~= self@.fields.skip(i + 1));
            match object.get(&field.name) {
                None | Some(JsonValue::Null) => {
                    if field.required {
                        return Err(
                            MiniAppError::Validation {
                                field: field.name.clone(),
                                reason: "required field missing".to_owned(),
                            },
                        );
                    }
                },
                Some(v) => {
                    if !field.ty.matches(v) {
                        return Err(
                            MiniAppError::Validation {
                                field: field.name.clone(),
                                reason: "expected type '".to_owned().concat(
                                    field.ty.as_str(),
                                ).concat("', got '").concat(json_type_name(v)).concat("'"),
                            },
                        );
                    }
                },
            }
            i += 1;
        }
        Ok(())
    }
}

/// Whether a value is of the kind that a type asks for: a text for a string, a
/// number for a number, and so on. Null fits none.
pub open spec fn kind_fits(value: JsonModel, ty: FieldType) -> bool {
    &&& ty == FieldType::String ==> value is Text
    &&& ty == FieldType::Number ==> value is Number
    &&& ty == FieldType::Boolean ==> value is Bool
    &&& ty == FieldType::Array ==> value is Array
    &&& ty == FieldType::Object ==> value is Object
}

/// Types and kinds go by their names, and a value fits a type exactly where its
/// kind has the name of the type.
pub proof fn types_and_kinds_are_named(value: JsonModel, ty: FieldType)
    ensures
        of_type(value, ty) <==> kind_fits(value, ty),
        kind_name(value) == name_of_type(ty) <==> kind_fits(value, ty),
        ty == FieldType::String ==> name_of_type(ty) == "string"@,
        ty == FieldType::Number ==> name_of_type(ty) == "number"@,
        ty == FieldType::Boolean ==> name_of_type(ty) == "boolean"@,
        ty == FieldType::Array ==> name_of_type(ty) == "array"@,
        ty == FieldType::Object ==> name_of_type(ty) == "object"@,
        value is Null ==> kind_name(value) == "null"@,
{
    reveal_strlit("null");
    reveal_strlit("string");
    reveal_strlit("number");
    reveal_strlit("boolean");
    reveal_strlit("array");
    reveal_strlit("object");
    assert("null"@.len() == 4);
    assert("string"@.len() == 6 && "string"@[0] == 's');
    assert("number"@.len() == 6 && "number"@[0] == 'n');
    assert("boolean"@.len() == 7);
    assert("array"@.len() == 5);
    assert("object"@.len() == 6 && "object"@[0] == 'o');
}

/// Whether `field` is what the name `name` stands for: the first of the fields
/// with that name.
pub open spec fn declares(fields: Seq<FieldModel>, name: Seq<char>, field: FieldModel) -> bool {
    exists|i: int|
        #![trigger fields[i]]
        0 <= i < fields.len() && fields[i] == field && field.name == name && forall|j: int|
            0 <= j < i ==> (#[trigger] fields[j]).name != name
}

/// A name stands for the first field that bears it, and for none where no field
/// does.
pub proof fn names_stand_for_fields(fields: Seq<FieldModel>, name: Seq<char>)
    ensures
        forall|f: FieldModel| #[trigger]
            declares(fields, name, f) <==> field_called(fields, name) == Some(f),
        field_called(fields, name) is None <==> forall|j: int|
            0 <= j < fields.len() ==> (#[trigger] fields[j]).name != name,
{
    field_position_is_first(fields, name);
    assert forall|f: FieldModel| #[trigger] declares(fields, name, f) implies field_called(
        fields,
        name,
    ) == Some(f) by {
        let i = choose|i: int|
            #![trigger fields[i]]
            0 <= i < fields.len() && fields[i] == f && f.name == name && forall|j: int|
                0 <= j < i ==> (#[trigger] fields[j]).name != name;
        let k = field_position(fields, name)->0;
        assert(fields[i].name == name);
        assert(field_position(fields, name) is Some);
        assert(fields[k].name == name);
        assert(k == i);
    }
    match field_position(fields, name) {
        Some(k) => {
            assert(declares(fields, name, fields[k]));
        },
        None => {},
    }
}

/// Whether a row is fine as far as one field goes: it has a value of the right
/// kind there, or it has none, or null, and need not have one.
pub open spec fn field_fine(field: FieldModel, members: Map<Seq<char>, JsonModel>) -> bool {
    if members.contains_key(field.name) && members[field.name] != JsonModel::Null {
        kind_fits(members[field.name], field.ty)
    } else {
        !field.required
    }
}

/// Whether `field` is the first of the fields that a row is not fine in.
pub open spec fn first_bad(
    fields: Seq<FieldModel>,
    members: Map<Seq<char>, JsonModel>,
    field: FieldModel,
) -> bool {
    exists|i: int|
        #![trigger fields[i]]
        0 <= i < fields.len() && fields[i] == field && !field_fine(field, members) && forall|j: int|
            0 <= j < i ==> field_fine(#[trigger] fields[j], members)
}

/// A row is accepted exactly where it is an object that is fine in every field of
/// the schema. One that is refused is refused for the first field that it is not
/// fine in: as the field is missing, or as the kind of its value is another.
pub proof fn rows_are_judged_field_by_field(fields: Seq<FieldModel>, value: JsonModel)
    ensures
        refusal(fields, value) is None <==> (value is Object && forall|i: int|
            0 <= i < fields.len() ==> field_fine(#[trigger] fields[i], value->Object_0)),
        !(value is Object) ==> refusal(fields, value) == Some(
            ErrorModel::Validation { field: "(root)"@, reason: "value must be a JSON object"@ },
        ),
        value is Object && refusal(fields, value) is Some ==> exists|f: FieldModel| #[trigger]
            first_bad(fields, value->Object_0, f) && refusal(fields, value) == Some(
                ErrorModel::Validation {
                    field: f.name,
                    reason: if value->Object_0.contains_key(f.name) && value->Object_0[f.name]
                        != JsonModel::Null {
                        "expected type '"@ + name_of_type(f.ty) + "', got '"@ + kind_name(
                            value->Object_0[f.name],
                        ) + "'"@
                    } else {
                        "required field missing"@
                    },
                },
            ),
    decreases fields.len(),
{
    if value is Object && fields.len() > 0 {
        let members = value->Object_0;
        let rest = fields.drop_first();
        rows_are_judged_field_by_field(rest, value);
        assert(field_failure(fields[0], members) is None <==> field_fine(fields[0], members));
        assert forall|i: int| 1 <= i < fields.len() implies fields[i] == #[trigger] rest[i - 1] by {}
        if field_failure(fields[0], members) is Some {
            assert(first_bad(fields, members, fields[0]));
        } else {
            if refusal(rest, value) is None {
                assert forall|i: int| 0 <= i < fields.len() implies field_fine(
                    #[trigger] fields[i],
                    members,
                ) by {
                    if i > 0 {
                        assert(field_fine(rest[i - 1], members));
                    }
                }
            } else {
                let f = choose|f: FieldModel| #[trigger]
                    first_bad(rest, members, f) && refusal(rest, value) == Some(
                        ErrorModel::Validation {
                            field: f.name,
                            reason: if members.contains_key(f.name) && members[f.name]
                                != JsonModel::Null {
                                "expected type '"@ + name_of_type(f.ty) + "', got '"@ + kind_name(
                                    members[f.name],
                                ) + "'"@
                            } else {
                                "required field missing"@
                            },
                        },
                    );
                let k = choose|k: int|
                    #![trigger rest[k]]
                    0 <= k < rest.len() && rest[k] == f && !field_fine(f, members) && forall|j: int|
                        0 <= j < k ==> field_fine(#[trigger] rest[j], members);
                assert(fields[k + 1] == f);
                assert forall|j: int| 0 <= j < k + 1 implies field_fine(
                    #[trigger] fields[j],
                    members,
                ) by {
                    if j > 0 {
                        assert(field_fine(rest[j - 1], members));
                    }
                }
                assert(first_bad(fields, members, f));
            }
        }
    }
}

/// A field definition and a schema say what they hold, and nothing is left out.
pub proof fn definitions_say_what_they_hold(f: FieldDef, s: SchemaConfig)
    ensures
        f@.name == f.name@ && f@.ty == f.ty && f@.required == f.required,
        f@.description is Some <==> f.description is Some,
        f.description matches Some(d) ==> f@.description == Some(d@),
        s@.table == s.table@,
        s@.title is Some <==> s.title is Some,
        s.title matches Some(t) ==> s@.title == Some(t@),
        s@.description is Some <==> s.description is Some,
        s.description matches Some(d) ==> s@.description == Some(d@),
        s@.fields.len() == s.fields@.len(),
        forall|i: int| 0 <= i < s.fields@.len() ==> #[trigger] s@.fields[i] == s.fields@[i]@,
        s@.dump is Some <==> s.dump is Some,
        s.dump matches Some(d) ==> s@.dump == Some(d@),
{
}

} // verus!
