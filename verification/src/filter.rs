//! Filters on the rows of a table, and the SQL that they turn into.

use vstd::prelude::*;
use vstd::string::*;

use crate::error::ErrorModel;
use crate::error::MiniAppError;
use crate::json;
use crate::json::JsonModel;
use crate::json::NumberModel;
use crate::json::{JsonNumber, JsonValue};
use crate::schema;
use crate::schema::FieldModel;
use crate::schema::{FieldType, SchemaConfig};
use crate::text;

verus! {

/// A value that is bound to a placeholder of a statement.
#[derive(Debug, PartialEq, Eq)]
pub enum FilterParam {
    Text(String),
    Number(JsonNumber),
    Bool(bool),
}

/// What a bound value is.
pub enum ParamModel {
    Text(Seq<char>),
    Number(NumberModel),
    Bool(bool),
}

impl View for FilterParam {
    type V = ParamModel;

    open spec fn view(&self) -> ParamModel {
        match self {
            FilterParam::Text(s) => ParamModel::Text(s@),
            FilterParam::Number(n) => ParamModel::Number(n.model()),
            FilterParam::Bool(b) => ParamModel::Bool(*b),
        }
    }
}

/// The bound values as models.
pub open spec fn param_models(params: Seq<FilterParam>) -> Seq<ParamModel> {
    params.map_values(|p: FilterParam| p@)
}

/// A condition on rows.
#[derive(Debug, PartialEq, Eq)]
pub enum ListFilter {
    /// The field equals the value.
    Eq { field: String, value: JsonValue },
    /// The field equals one of the values.
    In { field: String, values: Vec<JsonValue> },
    /// The text in the field fits the pattern, in which `%` stands for any text
    /// and `_` for any character.
    Like { field: String, pattern: String },
    /// One of the filters holds.
    Or { filters: Vec<ListFilter> },
    /// All of the filters hold.
    And { filters: Vec<ListFilter> },
}

/// What a filter says.
pub enum FilterModel {
    Eq { field: Seq<char>, value: JsonModel },
    In { field: Seq<char>, values: Seq<JsonModel> },
    Like { field: Seq<char>, pattern: Seq<char> },
    Or { filters: Seq<FilterModel> },
    And { filters: Seq<FilterModel> },
}

/// The filters as models.
pub open spec fn filter_models(filters: Seq<ListFilter>) -> Seq<FilterModel> {
    filters.map_values(|f: ListFilter| f@)
}

impl View for ListFilter {
    type V = FilterModel;

    open spec fn view(&self) -> FilterModel {
        self.model()
    }
}

impl ListFilter {
    pub open spec fn model(&self) -> FilterModel
        decreases *self,
    {
        match self {
            ListFilter::Eq { field, value } => FilterModel::Eq { field: field@, value: value@ },
            ListFilter::In { field, values } => FilterModel::In {
                field: field@,
                values: json::value_models(values@),
            },
            ListFilter::Like { field, pattern } => FilterModel::Like {
                field: field@,
                pattern: pattern@,
            },
            ListFilter::Or { filters } => FilterModel::Or {
                filters: Seq::new(
                    filters@.len(),
                    |i: int|
                        if 0 <= i < filters@.len() {
                            filters@[i].model()
                        } else {
                            arbitrary()
                        },
                ),
            },
            ListFilter::And { filters } => FilterModel::And {
                filters: Seq::new(
                    filters@.len(),
                    |i: int|
                        if 0 <= i < filters@.len() {
                            filters@[i].model()
                        } else {
                            arbitrary()
                        },
                ),
            },
        }
    }
}

/// The complaint about a field that the schema does not have.
pub open spec fn unknown_field(field: Seq<char>) -> ErrorModel {
    ErrorModel::Validation {
        field,
        reason: "unknown field '"@ + field
            + "' — only schema-registered fields are allowed in filter"@,
    }
}

/// What is wrong with a value that a field of type `ty` is compared with.
pub open spec fn scalar_failure(
    field: Seq<char>,
    value: JsonModel,
    ty: FieldType,
) -> Option<ErrorModel> {
    if value is Null {
        Some(
            ErrorModel::Validation {
                field,
                reason: "filter value for field '"@ + field + "' must not be null"@,
            },
        )
    } else if value is Object || value is Array {
        Some(
            ErrorModel::Validation {
                field,
                reason: "filter value for field '"@ + field
                    + "' must be a scalar (string, number, or boolean), got an object or array"@,
            },
        )
    } else if !schema::of_type(value, ty) {
        Some(
            ErrorModel::Validation {
                field,
                reason: "filter value for field '"@ + field + "' has type mismatch: expected "@
                    + schema::name_of_type(ty) + ", got "@ + schema::kind_name(value),
            },
        )
    } else {
        None
    }
}

/// The failure of the first value that has one.
pub open spec fn first_scalar_failure(
    field: Seq<char>,
    values: Seq<JsonModel>,
    ty: FieldType,
) -> Option<ErrorModel>
    decreases values.len(),
{
    if values.len() == 0 {
        None
    } else {
        match scalar_failure(field, values[0], ty) {
            Some(e) => Some(e),
            None => first_scalar_failure(field, values.drop_first(), ty),
        }
    }
}

/// What is wrong with a filter on a table with these fields, if anything.
pub open spec fn filter_failure(filter: FilterModel, fields: Seq<FieldModel>) -> Option<ErrorModel>
    decreases filter,
{
    match filter {
        FilterModel::Eq { field, value } => match schema::field_called(fields, field) {
            None => Some(unknown_field(field)),
            Some(f) => scalar_failure(field, value, f.ty),
        },
        FilterModel::In { field, values } => match schema::field_called(fields, field) {
            None => Some(unknown_field(field)),
            Some(f) => if values.len() == 0 {
                Some(
                    ErrorModel::Validation { field, reason: "In.values must not be empty"@ },
                )
            } else {
                first_scalar_failure(field, values, f.ty)
            },
        },
        FilterModel::Like { field, pattern } => match schema::field_called(fields, field) {
            None => Some(unknown_field(field)),
            Some(f) => if f.ty != FieldType::String {
                Some(
                    ErrorModel::Validation {
                        field,
                        reason: "like filter on field '"@ + field
                            + "' requires type string, got "@ + schema::name_of_type(f.ty),
                    },
                )
            } else {
                None
            },
        },
        FilterModel::Or { filters } => if filters.len() == 0 {
            Some(
                ErrorModel::Validation {
                    field: "filters"@,
                    reason: "Or.filters must not be empty"@,
                },
            )
        } else {
            first_filter_failure(filters, fields)
        },
        FilterModel::And { filters } => if filters.len() == 0 {
            Some(
                ErrorModel::Validation {
                    field: "filters"@,
                    reason: "And.filters must not be empty"@,
                },
            )
        } else {
            first_filter_failure(filters, fields)
        },
    }
}

/// The failure of the first filter that has one.
pub open spec fn first_filter_failure(
    filters: Seq<FilterModel>,
    fields: Seq<FieldModel>,
) -> Option<ErrorModel>
    decreases filters,
{
    if filters.len() == 0 {
        None
    } else {
        match filter_failure(filters[0], fields) {
            Some(e) => Some(e),
            None => first_filter_failure(filters.drop_first(), fields),
        }
    }
}

/// The value as it is bound to a placeholder, or why it cannot be.
pub open spec fn param_of(field: Seq<char>, value: JsonModel) -> Result<ParamModel, ErrorModel> {
    match value {
        JsonModel::Text(s) => Ok(ParamModel::Text(s)),
        JsonModel::Number(n) => Ok(ParamModel::Number(n)),
        JsonModel::Bool(b) => Ok(ParamModel::Bool(b)),
        _ => Err(
            ErrorModel::Validation {
                field,
                reason: "filter value for field '"@ + field + "' is not a bindable scalar"@,
            },
        ),
    }
}

/// The values as they are bound, in order, or why the first that cannot be is
/// not.
pub open spec fn params_of(field: Seq<char>, values: Seq<JsonModel>) -> Result<
    Seq<ParamModel>,
    ErrorModel,
>
    decreases values.len(),
{
    if values.len() == 0 {
        Ok(Seq::empty())
    } else {
        match params_of(field, values.drop_last()) {
            Err(e) => Err(e),
            Ok(params) => match param_of(field, values.last()) {
                Err(e) => Err(e),
                Ok(p) => Ok(params.push(p)),
            },
        }
    }
}

/// `n` placeholders, separated by commas.
pub open spec fn placeholders(n: nat) -> Seq<char>
    decreases n,
{
    if n == 0 {
        Seq::empty()
    } else if n == 1 {
        "?"@
    } else {
        placeholders((n - 1) as nat) + ", ?"@
    }
}

/// The SQL expression for a field of a row.
pub open spec fn column(field: Seq<char>) -> Seq<char> {
    "json_extract(data, '$."@ + field + "')"@
}

/// The SQL condition that a filter turns into, with the values that are bound to
/// its placeholders.
pub open spec fn sql_of(filter: FilterModel) -> Result<(Seq<char>, Seq<ParamModel>), ErrorModel>
    decreases filter,
{
    match filter {
        FilterModel::Eq { field, value } => match param_of(field, value) {
            Err(e) => Err(e),
            Ok(p) => Ok((column(field) + " = ?"@, seq![p])),
        },
        FilterModel::In { field, values } => match params_of(field, values) {
            Err(e) => Err(e),
            Ok(params) => Ok((column(field) + " IN ("@ + placeholders(values.len()) + ")"@, params)),
        },
        FilterModel::Like { field, pattern } => Ok(
            (column(field) + " LIKE ?"@, seq![ParamModel::Text(pattern)]),
        ),
        FilterModel::Or { filters } => match sql_joined(filters, " OR "@) {
            Err(e) => Err(e),
            Ok((t, params)) => Ok(("("@ + t + ")"@, params)),
        },
        FilterModel::And { filters } => match sql_joined(filters, " AND "@) {
            Err(e) => Err(e),
            Ok((t, params)) => Ok(("("@ + t + ")"@, params)),
        },
    }
}

/// The conditions of several filters with `operator` between them, and all their
/// bound values in order.
pub open spec fn sql_joined(filters: Seq<FilterModel>, operator: Seq<char>) -> Result<
    (Seq<char>, Seq<ParamModel>),
    ErrorModel,
>
    decreases filters,
{
    if filters.len() == 0 {
        Ok((Seq::empty(), Seq::empty()))
    } else {
        match sql_joined(filters.drop_last(), operator) {
            Err(e) => Err(e),
            Ok((t, params)) => match sql_of(filters[filters.len() - 1]) {
                Err(e) => Err(e),
                Ok((u, more)) => Ok(
                    (
                        if filters.len() == 1 {
                            u
                        } else {
                            t + operator + u
                        },
                        params + more,
                    ),
                ),
            },
        }
    }
}

/// The outcome of building SQL, as a model.
pub open spec fn sql_model(r: Result<(String, Vec<FilterParam>), MiniAppError>) -> Result<
    (Seq<char>, Seq<ParamModel>),
    ErrorModel,
> {
    match r {
        Ok((t, params)) => Ok((t@, param_models(params@))),
        Err(e) => Err(e@),
    }
}

/// Whether the outcome of a check reports exactly this failure.
pub open spec fn reports(r: Result<(), MiniAppError>, failure: Option<ErrorModel>) -> bool {
    match r {
        Ok(_) => failure is None,
        Err(e) => failure == Some(e@),
    }
}

impl ListFilter {
    /// Checks the filter against a schema: every field must be declared, every
    /// value a scalar of the field's type, and no list empty.
    pub fn validate(&self, schema: &SchemaConfig) -> (r: Result<(), MiniAppError>)
        ensures
            reports(r, filter_failure(self@, schema@.fields)),
        decreases *self,
    {
        match self {
            ListFilter::Eq { field, value } => match schema.field(field) {
                None => Err(unknown_field_error(field)),
                Some(f) => validate_scalar_value(field, value, &f.ty),
            },
            ListFilter::In { field, values } => match schema.field(field) {
                None => Err(unknown_field_error(field)),
                Some(f) => {
                    if values.len() == 0 {
                        return Err(
                            MiniAppError::Validation {
                                field: field.clone(),
                                reason: "In.values must not be empty".to_owned(),
                            },
                        );
                    }
                    validate_scalar_values(field, values, &f.ty)
                },
            },
            ListFilter::Like { field, pattern } => match schema.field(field) {
                None => Err(unknown_field_error(field)),
                Some(f) => if f.ty != FieldType::String {
                    Err(
                        MiniAppError::Validation {
                            field: field.clone(),
                            reason: "like filter on field '".to_owned().concat(field).concat(
                                "' requires type string, got ",
                            ).concat(f.ty.as_str()),
                        },
                    )
                } else {
                    Ok(())
                },
            },
            ListFilter::Or { filters } => {
                assert(self@->Or_filters =~= filter_models(filters@));
                if filters.len() == 0 {
                    return Err(
                        MiniAppError::Validation {
                            field: "filters".to_owned(),
                            reason: "Or.filters must not be empty".to_owned(),
                        },
                    );
                }
                validate_all(filters, schema)
            },
            ListFilter::And { filters } => {
                assert(self@->And_filters =~= filter_models(filters@));
                if filters.len() == 0 {
                    return Err(
                        MiniAppError::Validation {
                            field: "filters".to_owned(),
                            reason: "And.filters must not be empty".to_owned(),
                        },
                    );
                }
                validate_all(filters, schema)
            },
        }
    }

    /// Builds the SQL condition of the filter and the values bound to its
    /// placeholders, in order. No value becomes part of the text.
    pub fn build_sql(&self) -> (r: Result<(String, Vec<FilterParam>), MiniAppError>)
        ensures
            sql_model(r) == sql_of(self@),
        decreases *self,
    {
        match self {
            ListFilter::Eq { field, value } => match json_value_to_param(field, value) {
                Err(e) => Err(e),
                Ok(p) => {
                    let mut params: Vec<FilterParam> = Vec::new();
                    params.push(p);
                    assert(param_models(params@) =~= seq![p@]);
                    Ok((column_sql(field).concat(" = ?"), params))
                },
            },
            ListFilter::In { field, values } => {
                let ghost models = json::value_models(values@);
                assert(self@ == FilterModel::In { field: field@, values: models });
                let mut params: Vec<FilterParam> = Vec::new();
                let mut marks: String = String::new();
                let mut i: usize = 0;
                assert(models.take(0) =~= Seq::<JsonModel>::empty());
                assert(param_models(params@) =~= Seq::<ParamModel>::empty());
                assert(marks@ =~= placeholders(0));
                while i < values.len()
                    invariant
                        i <= values@.len(),
                        models == json::value_models(values@),
                        self@ == (FilterModel::In { field: field@, values: models }),
                        params_of(field@, models.take(i as int)) == Ok::<
                            Seq<ParamModel>,
                            ErrorModel,
                        >(param_models(params@)),
                        marks@ == placeholders(i as nat),
                    decreases values@.len() - i,
                {
                    let ghost upto = models.take(i + 1);
                    assert(upto.drop_last() =~= models.take(i as int));
                    assert(upto.last() == values@[i as int]@);
                    match json_value_to_param(field, &values[i]) {
                        Err(e) => {
                            proof {
                                params_of_fails_early(field@, models, i + 1);
                            }
                            return Err(e);
                        },
                        Ok(p) => {
                            let ghost before = param_models(params@);
                            params.push(p);
                            assert(param_models(params@) =~= before.push(p@));
                        },
                    }
                    if i == 0 {
                        marks = "?".to_owned();
                    } else {
                        marks.append(", ?");
                    }
                    i += 1;
                }
                assert(models.take(models.len() as int) =~= models);
                Ok((column_sql(field).concat(" IN (").concat(marks.as_str()).concat(")"), params))
            },
            ListFilter::Like { field, pattern } => {
                let mut params: Vec<FilterParam> = Vec::new();
                params.push(FilterParam::Text(pattern.clone()));
                assert(param_models(params@) =~= seq![ParamModel::Text(pattern@)]);
                Ok((column_sql(field).concat(" LIKE ?"), params))
            },
            ListFilter::Or { filters } => {
                assert(self@->Or_filters =~= filter_models(filters@));
                match build_composite_sql(filters, " OR ") {
                    Err(e) => Err(e),
                    Ok((t, params)) => Ok(("(".to_owned().concat(t.as_str()).concat(")"), params)),
                }
            },
            ListFilter::And { filters } => {
                assert(self@->And_filters =~= filter_models(filters@));
                match build_composite_sql(filters, " AND ") {
                    Err(e) => Err(e),
                    Ok((t, params)) => Ok(("(".to_owned().concat(t.as_str()).concat(")"), params)),
                }
            },
        }
    }
}

/// A value that cannot be bound makes the whole list fail, with its complaint.
proof fn params_of_fails_early(field: Seq<char>, values: Seq<JsonModel>, n: int)
    requires
        0 <= n <= values.len(),
        params_of(field, values.take(n)) is Err,
    ensures
        params_of(field, values) == params_of(field, values.take(n)),
    decreases values.len() - n,
{
    if n < values.len() {
        assert(values.take(n + 1).drop_last() =~= values.take(n));
        params_of_fails_early(field, values, n + 1);
    } else {
        assert(values.take(n) =~= values);
    }
}

/// A filter without SQL makes the whole composite fail, with its complaint.
proof fn sql_joined_fails_early(filters: Seq<FilterModel>, operator: Seq<char>, n: int)
    requires
        0 <= n <= filters.len(),
        sql_joined(filters.take(n), operator) is Err,
    ensures
        sql_joined(filters, operator) == sql_joined(filters.take(n), operator),
    decreases filters.len() - n,
{
    if n < filters.len() {
        assert(filters.take(n + 1).drop_last() =~= filters.take(n));
        sql_joined_fails_early(filters, operator, n + 1);
    } else {
        assert(filters.take(n) =~= filters);
    }
}

fn unknown_field_error(field: &str) -> (r: MiniAppError)
    ensures
        r@ == unknown_field(field@),
{
    MiniAppError::Validation {
        field: field.to_owned(),
        reason: "unknown field '".to_owned().concat(field).concat(
            "' — only schema-registered fields are allowed in filter",
        ),
    }
}

fn column_sql(field: &str) -> (r: String)
    ensures
        r@ == column(field@),
{
    "json_extract(data, '$.".to_owned().concat(field).concat("')")
}

/// Checks every filter, in order.
fn validate_all(filters: &Vec<ListFilter>, schema: &SchemaConfig) -> (r: Result<(), MiniAppError>)
    ensures
        reports(r, first_filter_failure(filter_models(filters@), schema@.fields)),
    decreases *filters,
{
    let ghost models = filter_models(filters@);
    let mut i: usize = 0;
    assert(models.skip(0) =~= models);
    while i < filters.len()
        invariant
            i <= filters@.len(),
            models == filter_models(filters@),
            first_filter_failure(models, schema@.fields) == first_filter_failure(
                models.skip(i as int),
                schema@.fields,
            ),
        decreases filters@.len() - i,
    {
        let ghost rest = models.skip(i as int);
        assert(rest[0] == filters@[i as int]@);
        assert(rest.drop_first() =~= models.skip(i + 1));
        assert(decreases_to!(*filters => filters@));
        assert(decreases_to!(filters@ => filters@[i as int]));
        match filters[i].validate(schema) {
            Ok(_) => {},
            Err(e) => {
                return Err(e);
            },
        }
        i += 1;
    }
    Ok(())
}

/// Checks that `value` is a scalar of the type `field_ty`.
pub fn validate_scalar_value(field: &str, value: &JsonValue, field_ty: &FieldType) -> (r: Result<
    (),
    MiniAppError,
>)
    ensures
        reports(r, scalar_failure(field@, value@, *field_ty)),
{
    match value {
        JsonValue::Null => Err(
            MiniAppError::Validation {
                field: field.to_owned(),
                reason: "filter value for field '".to_owned().concat(field).concat(
                    "' must not be null",
                ),
            },
        ),
        JsonValue::Object(_) | JsonValue::Array(_) => Err(
            MiniAppError::Validation {
                field: field.to_owned(),
                reason: "filter value for field '".to_owned().concat(field).concat(
                    "' must be a scalar (string, number, or boolean), got an object or array",
                ),
            },
        ),
        _ => if field_ty.matches(value) {
            Ok(())
        } else {
            Err(
                MiniAppError::Validation {
                    field: field.to_owned(),
                    reason: "filter value for field '".to_owned().concat(field).concat(
                        "' has type mismatch: expected ",
                    ).concat(field_ty.as_str()).concat(", got ").concat(
                        schema::json_type_name(value),
                    ),
                },
            )
        },
    }
}

/// Checks every value, in order.
fn validate_scalar_values(field: &str, values: &Vec<JsonValue>, field_ty: &FieldType) -> (r: Result<
    (),
    MiniAppError,
>)
    ensures
        reports(r, first_scalar_failure(field@, json::value_models(values@), *field_ty)),
{
    let ghost models = json::value_models(values@);
    let mut i: usize = 0;
    assert(models.skip(0) =~= models);
    while i < values.len()
        invariant
            i <= values@.len(),
            models == json::value_models(values@),
            first_scalar_failure(field@, models, *field_ty) == first_scalar_failure(
                field@,
                models.skip(i as int),
                *field_ty,
            ),
        decreases values@.len() - i,
    {
        let ghost rest = models.skip(i as int);
        assert(rest[0] == values@[i as int]@);
        assert(rest.drop_first() =~= models.skip(i + 1));
        match validate_scalar_value(field, &values[i], field_ty) {
            Ok(_) => {},
            Err(e) => {
                return Err(e);
            },
        }
        i += 1;
    }
    Ok(())
}

/// The outcome of turning a value into a bound value, as a model.
pub open spec fn param_outcome(r: Result<FilterParam, MiniAppError>) -> Result<
    ParamModel,
    ErrorModel,
> {
    match r {
        Ok(p) => Ok(p@),
        Err(e) => Err(e@),
    }
}

/// Turns a scalar value into a bound value.
pub fn json_value_to_param(field: &str, value: &JsonValue) -> (r: Result<
    FilterParam,
    MiniAppError,
>)
    ensures
        param_outcome(r) == param_of(field@, value@),
{
    match value {
        JsonValue::Text(s) => Ok(FilterParam::Text(s.clone())),
        JsonValue::Number(n) => Ok(FilterParam::Number(n.duplicate())),
        JsonValue::Bool(b) => Ok(FilterParam::Bool(*b)),
        _ => Err(
            MiniAppError::Validation {
                field: field.to_owned(),
                reason: "filter value for field '".to_owned().concat(field).concat(
                    "' is not a bindable scalar",
                ),
            },
        ),
    }
}

/// Builds the conditions of several filters with `operator` between them.
fn build_composite_sql(filters: &Vec<ListFilter>, operator: &str) -> (r: Result<
    (String, Vec<FilterParam>),
    MiniAppError,
>)
    ensures
        sql_model(r) == sql_joined(filter_models(filters@), operator@),
    decreases *filters,
{
    let ghost models = filter_models(filters@);
    let mut sql: String = String::new();
    let mut all: Vec<FilterParam> = Vec::new();
    let mut i: usize = 0;
    assert(models.take(0) =~= Seq::<FilterModel>::empty());
    assert(param_models(all@) =~= Seq::<ParamModel>::empty());
    assert(sql@ =~= Seq::<char>::empty());
    while i < filters.len()
        invariant
            i <= filters@.len(),
            models == filter_models(filters@),
            sql_joined(models.take(i as int), operator@) == Ok::<
                (Seq<char>, Seq<ParamModel>),
                ErrorModel,
            >((sql@, param_models(all@))),
        decreases filters@.len() - i,
    {
        let ghost upto = models.take(i + 1);
        assert(upto.drop_last() =~= models.take(i as int));
        assert(upto[upto.len() - 1] == filters@[i as int]@);
        assert(decreases_to!(*filters => filters@));
        assert(decreases_to!(filters@ => filters@[i as int]));
        match filters[i].build_sql() {
            Err(e) => {
                proof {
                    sql_joined_fails_early(models, operator@, i + 1);
                }
                return Err(e);
            },
            Ok((fragment, params)) => {
                if i == 0 {
                    sql = fragment;
                } else {
                    sql.append(operator);
                    sql.append(fragment.as_str());
                }
                let mut params: Vec<FilterParam> = params;
                let ghost before = param_models(all@);
                let ghost more = param_models(params@);
                all.append(&mut params);
                assert(param_models(all@) =~= before + more);
            },
        }
        i += 1;
    }
    assert(models.take(models.len() as int) =~= models);
    Ok((sql, all))
}

/// Where a list of filters has no failure, no filter in it has one.
proof fn no_failure_in_any(filters: Seq<FilterModel>, fields: Seq<FieldModel>)
    requires
        first_filter_failure(filters, fields) is None,
    ensures
        forall|i: int|
            0 <= i < filters.len() ==> filter_failure(#[trigger] filters[i], fields) is None,
    decreases filters.len(),
{
    if filters.len() > 0 {
        let rest = filters.drop_first();
        no_failure_in_any(rest, fields);
        assert forall|i: int| 0 <= i < filters.len() implies filter_failure(
            #[trigger] filters[i],
            fields,
        ) is None by {
            if i > 0 {
                assert(filters[i] == rest[i - 1]);
            }
        }
    }
}

/// Values without failure can all be bound.
proof fn scalars_bind(field: Seq<char>, values: Seq<JsonModel>, ty: FieldType)
    requires
        first_scalar_failure(field, values, ty) is None,
    ensures
        params_of(field, values) is Ok,
    decreases values.len(),
{
    if values.len() > 0 {
        first_scalar_failure_prefix(field, values, ty);
        scalars_bind(field, values.drop_last(), ty);
    }
}

proof fn first_scalar_failure_prefix(field: Seq<char>, values: Seq<JsonModel>, ty: FieldType)
    requires
        first_scalar_failure(field, values, ty) is None,
        values.len() > 0,
    ensures
        first_scalar_failure(field, values.drop_last(), ty) is None,
        scalar_failure(field, values.last(), ty) is None,
    decreases values.len(),
{
    if values.len() > 1 {
        first_scalar_failure_prefix(field, values.drop_first(), ty);
        assert(values.drop_first().drop_last() =~= values.drop_last().drop_first());
        assert(values.drop_first().last() == values.last());
    }
}

/// A filter that a schema accepts can always be turned into SQL.
pub proof fn accepted_filter_builds(filter: FilterModel, fields: Seq<FieldModel>)
    requires
        filter_failure(filter, fields) is None,
    ensures
        sql_of(filter) is Ok,
    decreases filter,
{
    match filter {
        FilterModel::In { field, values } => {
            scalars_bind(field, values, schema::field_called(fields, field)->0.ty);
        },
        FilterModel::Or { filters } => {
            no_failure_in_any(filters, fields);
            accepted_filters_build(filters, fields, " OR "@);
        },
        FilterModel::And { filters } => {
            no_failure_in_any(filters, fields);
            accepted_filters_build(filters, fields, " AND "@);
        },
        _ => {},
    }
}

proof fn accepted_filters_build(
    filters: Seq<FilterModel>,
    fields: Seq<FieldModel>,
    operator: Seq<char>,
)
    requires
        forall|i: int|
            0 <= i < filters.len() ==> filter_failure(#[trigger] filters[i], fields) is None,
    ensures
        sql_joined(filters, operator) is Ok,
    decreases filters,
{
    if filters.len() > 0 {
        let front = filters.drop_last();
        assert forall|i: int| 0 <= i < front.len() implies filter_failure(
            #[trigger] front[i],
            fields,
        ) is None by {
            assert(front[i] == filters[i]);
        }
        accepted_filters_build(front, fields, operator);
        accepted_filter_builds(filters[filters.len() - 1], fields);
    }
}

/// A scalar of the type that the schema declares for the field.
pub open spec fn fits(fields: Seq<FieldModel>, field: Seq<char>, value: JsonModel) -> bool {
    &&& value is Text || value is Number || value is Bool
    &&& exists|f: FieldModel| #[trigger]
        schema::declares(fields, field, f) && schema::kind_fits(value, f.ty)
}

/// Every field that the filter names is declared, however deep it stands, and is
/// compared with scalars of its type only; no list is empty.
pub open spec fn well_typed(filter: FilterModel, fields: Seq<FieldModel>) -> bool
    decreases filter,
{
    match filter {
        FilterModel::Eq { field, value } => fits(fields, field, value),
        FilterModel::In { field, values } => values.len() > 0 && forall|i: int|
            0 <= i < values.len() ==> fits(fields, field, #[trigger] values[i]),
        FilterModel::Like { field, pattern } => exists|f: FieldModel| #[trigger]
            schema::declares(fields, field, f) && f.ty == FieldType::String,
        FilterModel::Or { filters } => filters.len() > 0 && forall|i: int|
            0 <= i < filters.len() ==> well_typed(#[trigger] filters[i], fields),
        FilterModel::And { filters } => filters.len() > 0 && forall|i: int|
            0 <= i < filters.len() ==> well_typed(#[trigger] filters[i], fields),
    }
}

proof fn scalars_accepted_when_fitting(
    fields: Seq<FieldModel>,
    field: Seq<char>,
    values: Seq<JsonModel>,
)
    requires
        schema::field_called(fields, field) is Some,
    ensures
        first_scalar_failure(field, values, schema::field_called(fields, field)->0.ty) is None <==> (
        forall|i: int| 0 <= i < values.len() ==> fits(fields, field, #[trigger] values[i])),
    decreases values.len(),
{
    let ty = schema::field_called(fields, field)->0.ty;
    schema::names_stand_for_fields(fields, field);
    assert(schema::declares(fields, field, schema::field_called(fields, field)->0));
    if values.len() > 0 {
        let rest = values.drop_first();
        scalars_accepted_when_fitting(fields, field, rest);
        assert(scalar_failure(field, values[0], ty) is None <==> fits(fields, field, values[0]));
        if forall|i: int| 0 <= i < rest.len() ==> fits(fields, field, #[trigger] rest[i]) {
            assert forall|i: int| 1 <= i < values.len() implies fits(
                fields,
                field,
                #[trigger] values[i],
            ) by {
                assert(rest[i - 1] == values[i]);
            }
        } else {
            let i = choose|i: int|
                0 <= i < rest.len() && !fits(fields, field, #[trigger] rest[i]);
            assert(values[i + 1] == rest[i]);
        }
    }
}

/// A schema accepts exactly the filters that are well typed: a field that it does
/// not declare, or a value of another type, is refused at any depth.
pub proof fn accepted_exactly_when_well_typed(filter: FilterModel, fields: Seq<FieldModel>)
    ensures
        filter_failure(filter, fields) is None <==> well_typed(filter, fields),
    decreases filter,
{
    match filter {
        FilterModel::Eq { field, value } => {
            schema::names_stand_for_fields(fields, field);
            if schema::field_called(fields, field) is Some {
                assert(schema::declares(fields, field, schema::field_called(fields, field)->0));
            }
        },
        FilterModel::Like { field, pattern } => {
            schema::names_stand_for_fields(fields, field);
            if schema::field_called(fields, field) is Some {
                assert(schema::declares(fields, field, schema::field_called(fields, field)->0));
            }
        },
        FilterModel::In { field, values } => {
            schema::names_stand_for_fields(fields, field);
            if schema::field_called(fields, field) is Some {
                scalars_accepted_when_fitting(fields, field, values);
            } else if values.len() > 0 {
                assert(!fits(fields, field, values[0]));
            }
        },
        FilterModel::Or { filters } => {
            all_accepted_exactly_when_well_typed(filters, fields);
        },
        FilterModel::And { filters } => {
            all_accepted_exactly_when_well_typed(filters, fields);
        },
    }
}

proof fn all_accepted_exactly_when_well_typed(filters: Seq<FilterModel>, fields: Seq<FieldModel>)
    ensures
        first_filter_failure(filters, fields) is None <==> (forall|i: int|
            0 <= i < filters.len() ==> well_typed(#[trigger] filters[i], fields)),
    decreases filters,
{
    if filters.len() > 0 {
        let rest = filters.drop_first();
        accepted_exactly_when_well_typed(filters[0], fields);
        all_accepted_exactly_when_well_typed(rest, fields);
        if forall|i: int| 0 <= i < rest.len() ==> well_typed(#[trigger] rest[i], fields) {
            assert forall|i: int| 1 <= i < filters.len() implies well_typed(
                #[trigger] filters[i],
                fields,
            ) by {
                assert(rest[i - 1] == filters[i]);
            }
        } else {
            let i = choose|i: int| 0 <= i < rest.len() && !well_typed(#[trigger] rest[i], fields);
            assert(filters[i + 1] == rest[i]);
        }
    }
}

/// The values that a filter compares with, from left to right.
pub open spec fn compared_with(filter: FilterModel) -> Seq<JsonModel>
    decreases filter,
{
    match filter {
        FilterModel::Eq { field, value } => seq![value],
        FilterModel::In { field, values } => values,
        FilterModel::Like { field, pattern } => seq![JsonModel::Text(pattern)],
        FilterModel::Or { filters } => all_compared_with(filters),
        FilterModel::And { filters } => all_compared_with(filters),
    }
}

/// The values that the filters compare with, from left to right.
pub open spec fn all_compared_with(filters: Seq<FilterModel>) -> Seq<JsonModel>
    decreases filters,
{
    if filters.len() == 0 {
        Seq::empty()
    } else {
        all_compared_with(filters.drop_last()) + compared_with(filters[filters.len() - 1])
    }
}

/// The bound value is the scalar itself: the same text, the same number, or the
/// same truth value.
pub open spec fn same_scalar(param: ParamModel, value: JsonModel) -> bool {
    match value {
        JsonModel::Text(s) => param == ParamModel::Text(s),
        JsonModel::Number(n) => param == ParamModel::Number(n),
        JsonModel::Bool(b) => param == ParamModel::Bool(b),
        _ => false,
    }
}

/// Each bound value is the scalar it stands for.
pub open spec fn binds(params: Seq<ParamModel>, values: Seq<JsonModel>) -> bool {
    &&& params.len() == values.len()
    &&& forall|i: int| 0 <= i < params.len() ==> same_scalar(#[trigger] params[i], values[i])
}

/// A bound value holds what it is bound from.
pub proof fn bound_values_hold_what_they_say(p: FilterParam, q: ListFilter)
    ensures
        p matches FilterParam::Text(s) ==> p@ == ParamModel::Text(s@),
        p matches FilterParam::Number(n) ==> p@ == ParamModel::Number(n.model()),
        p matches FilterParam::Bool(b) ==> p@ == ParamModel::Bool(b),
        q matches ListFilter::Eq { field, value } ==> q@ == (FilterModel::Eq {
            field: field@,
            value: value@,
        }),
        q matches ListFilter::Like { field, pattern } ==> q@ == (FilterModel::Like {
            field: field@,
            pattern: pattern@,
        }),
        q matches ListFilter::In { field, values } ==> (q@ matches FilterModel::In {
            field: f,
            values: vs,
        } && f == field@ && vs.len() == values@.len() && forall|i: int|
            0 <= i < vs.len() ==> #[trigger] vs[i] == values@[i]@),
        q matches ListFilter::Or { filters } ==> (q@ matches FilterModel::Or { filters: fs }
            && fs.len() == filters@.len() && forall|i: int|
            0 <= i < fs.len() ==> #[trigger] fs[i] == filters@[i]@),
        q matches ListFilter::And { filters } ==> (q@ matches FilterModel::And { filters: fs }
            && fs.len() == filters@.len() && forall|i: int|
            0 <= i < fs.len() ==> #[trigger] fs[i] == filters@[i]@),
{
}

proof fn params_bind(field: Seq<char>, values: Seq<JsonModel>)
    requires
        params_of(field, values) is Ok,
    ensures
        binds(params_of(field, values)->Ok_0, values),
    decreases values.len(),
{
    if values.len() > 0 {
        params_bind(field, values.drop_last());
    }
}

/// The bound values are the values of the filter, from left to right, and
/// nothing else.
pub proof fn bound_values_are_the_compared(filter: FilterModel)
    requires
        sql_of(filter) is Ok,
    ensures
        binds(sql_of(filter)->Ok_0.1, compared_with(filter)),
    decreases filter,
{
    match filter {
        FilterModel::In { field, values } => {
            params_bind(field, values);
        },
        FilterModel::Or { filters } => {
            all_bound_values_are_the_compared(filters, " OR "@);
        },
        FilterModel::And { filters } => {
            all_bound_values_are_the_compared(filters, " AND "@);
        },
        _ => {},
    }
}

proof fn all_bound_values_are_the_compared(filters: Seq<FilterModel>, operator: Seq<char>)
    requires
        sql_joined(filters, operator) is Ok,
    ensures
        binds(sql_joined(filters, operator)->Ok_0.1, all_compared_with(filters)),
    decreases filters,
{
    if filters.len() > 0 {
        all_bound_values_are_the_compared(filters.drop_last(), operator);
        bound_values_are_the_compared(filters[filters.len() - 1]);
    }
}

/// The filter with every value taken out of it.
pub open spec fn frame(filter: FilterModel) -> FilterModel
    decreases filter,
{
    match filter {
        FilterModel::Eq { field, value } => FilterModel::Eq { field, value: JsonModel::Bool(true) },
        FilterModel::In { field, values } => FilterModel::In {
            field,
            values: Seq::new(values.len(), |i: int| JsonModel::Bool(true)),
        },
        FilterModel::Like { field, pattern } => FilterModel::Like { field, pattern: Seq::empty() },
        FilterModel::Or { filters } => FilterModel::Or { filters: frames(filters) },
        FilterModel::And { filters } => FilterModel::And { filters: frames(filters) },
    }
}

/// The filters with every value taken out of them.
pub open spec fn frames(filters: Seq<FilterModel>) -> Seq<FilterModel>
    decreases filters,
{
    if filters.len() == 0 {
        Seq::empty()
    } else {
        frames(filters.drop_last()).push(frame(filters[filters.len() - 1]))
    }
}

proof fn truths_bind(field: Seq<char>, n: nat)
    ensures
        params_of(field, Seq::new(n, |i: int| JsonModel::Bool(true))) is Ok,
    decreases n,
{
    if n > 0 {
        truths_bind(field, (n - 1) as nat);
        assert(Seq::new(n, |i: int| JsonModel::Bool(true)).drop_last() =~= Seq::new(
            (n - 1) as nat,
            |i: int| JsonModel::Bool(true),
        ));
    }
}

/// No value becomes part of the SQL text: the text is the same for every filter
/// with the same operators and fields.
pub proof fn text_is_free_of_values(filter: FilterModel)
    requires
        sql_of(filter) is Ok,
    ensures
        sql_of(frame(filter)) is Ok,
        sql_of(frame(filter))->Ok_0.0 == sql_of(filter)->Ok_0.0,
    decreases filter,
{
    match filter {
        FilterModel::In { field, values } => {
            truths_bind(field, values.len());
        },
        FilterModel::Or { filters } => {
            joined_text_is_free_of_values(filters, " OR "@);
        },
        FilterModel::And { filters } => {
            joined_text_is_free_of_values(filters, " AND "@);
        },
        _ => {},
    }
}

proof fn joined_text_is_free_of_values(filters: Seq<FilterModel>, operator: Seq<char>)
    requires
        sql_joined(filters, operator) is Ok,
    ensures
        frames(filters).len() == filters.len(),
        sql_joined(frames(filters), operator) is Ok,
        sql_joined(frames(filters), operator)->Ok_0.0 == sql_joined(filters, operator)->Ok_0.0,
    decreases filters,
{
    if filters.len() > 0 {
        joined_text_is_free_of_values(filters.drop_last(), operator);
        text_is_free_of_values(filters[filters.len() - 1]);
        assert(frames(filters).drop_last() =~= frames(filters.drop_last()));
        assert(frames(filters)[filters.len() - 1] == frame(filters[filters.len() - 1]));
    }
}

/// How often a question mark occurs in a text.
pub open spec fn marks(text: Seq<char>) -> nat
    decreases text.len(),
{
    if text.len() == 0 {
        0
    } else {
        marks(text.drop_last()) + if text.last() == '?' {
            1nat
        } else {
            0nat
        }
    }
}

proof fn marks_of_concatenation(a: Seq<char>, b: Seq<char>)
    ensures
        marks(a + b) == marks(a) + marks(b),
    decreases b.len(),
{
    if b.len() == 0 {
        assert(a + b =~= a);
    } else {
        marks_of_concatenation(a, b.drop_last());
        assert((a + b).drop_last() =~= a + b.drop_last());
    }
}

/// No field that the filter names has a question mark in its name.
pub open spec fn fields_unmarked(filter: FilterModel) -> bool
    decreases filter,
{
    match filter {
        FilterModel::Eq { field, value } => marks(field) == 0,
        FilterModel::In { field, values } => marks(field) == 0,
        FilterModel::Like { field, pattern } => marks(field) == 0,
        FilterModel::Or { filters } => all_fields_unmarked(filters),
        FilterModel::And { filters } => all_fields_unmarked(filters),
    }
}

pub open spec fn all_fields_unmarked(filters: Seq<FilterModel>) -> bool
    decreases filters,
{
    filters.len() == 0 || (all_fields_unmarked(filters.drop_last()) && fields_unmarked(
        filters[filters.len() - 1],
    ))
}

proof fn marks_of_literals()
    ensures
        marks("json_extract(data, '$."@) == 0,
        marks("')"@) == 0,
        marks(" = ?"@) == 1,
        marks(" LIKE ?"@) == 1,
        marks(" IN ("@) == 0,
        marks("("@) == 0,
        marks(")"@) == 0,
        marks("?"@) == 1,
        marks(", ?"@) == 1,
        marks(" OR "@) == 0,
        marks(" AND "@) == 0,
{
    reveal_strlit("json_extract(data, '$.");
    reveal_strlit("')");
    reveal_strlit(" = ?");
    reveal_strlit(" LIKE ?");
    reveal_strlit(" IN (");
    reveal_strlit("(");
    reveal_strlit(")");
    reveal_strlit("?");
    reveal_strlit(", ?");
    reveal_strlit(" OR ");
    reveal_strlit(" AND ");
    no_marks_where_none("json_extract(data, '$."@);
    no_marks_where_none("')"@);
    no_marks_where_none(" = ?"@.drop_last());
    no_marks_where_none(" LIKE ?"@.drop_last());
    no_marks_where_none(" IN ("@);
    no_marks_where_none("("@);
    no_marks_where_none(")"@);
    no_marks_where_none("?"@.drop_last());
    no_marks_where_none(", ?"@.drop_last());
    no_marks_where_none(" OR "@);
    no_marks_where_none(" AND "@);
}

proof fn no_marks_where_none(text: Seq<char>)
    ensures
        (forall|i: int| 0 <= i < text.len() ==> text[i] != '?') ==> marks(text) == 0,
    decreases text.len(),
{
    if text.len() > 0 {
        no_marks_where_none(text.drop_last());
    }
}

proof fn marks_of_placeholders(n: nat)
    ensures
        marks(placeholders(n)) == n,
    decreases n,
{
    marks_of_literals();
    if n > 1 {
        marks_of_placeholders((n - 1) as nat);
        marks_of_concatenation(placeholders((n - 1) as nat), ", ?"@);
    }
}

proof fn marks_of_column(field: Seq<char>)
    ensures
        marks(column(field)) == marks(field),
{
    marks_of_literals();
    marks_of_concatenation("json_extract(data, '$."@, field);
    marks_of_concatenation("json_extract(data, '$."@ + field, "')"@);
}

/// The SQL text has exactly one placeholder for each bound value, as long as no
/// field name brings a question mark of its own.
pub proof fn one_placeholder_per_value(filter: FilterModel)
    requires
        sql_of(filter) is Ok,
        fields_unmarked(filter),
    ensures
        marks(sql_of(filter)->Ok_0.0) == sql_of(filter)->Ok_0.1.len(),
    decreases filter,
{
    marks_of_literals();
    match filter {
        FilterModel::Eq { field, value } => {
            marks_of_column(field);
            marks_of_concatenation(column(field), " = ?"@);
        },
        FilterModel::In { field, values } => {
            marks_of_column(field);
            marks_of_placeholders(values.len());
            params_bind(field, values);
            marks_of_concatenation(column(field), " IN ("@);
            marks_of_concatenation(column(field) + " IN ("@, placeholders(values.len()));
            marks_of_concatenation(
                column(field) + " IN ("@ + placeholders(values.len()),
                ")"@,
            );
        },
        FilterModel::Like { field, pattern } => {
            marks_of_column(field);
            marks_of_concatenation(column(field), " LIKE ?"@);
        },
        FilterModel::Or { filters } => {
            one_placeholder_per_joined_value(filters, " OR "@);
            let t = sql_joined(filters, " OR "@)->Ok_0.0;
            marks_of_concatenation("("@, t);
            marks_of_concatenation("("@ + t, ")"@);
        },
        FilterModel::And { filters } => {
            one_placeholder_per_joined_value(filters, " AND "@);
            let t = sql_joined(filters, " AND "@)->Ok_0.0;
            marks_of_concatenation("("@, t);
            marks_of_concatenation("("@ + t, ")"@);
        },
    }
}

proof fn one_placeholder_per_joined_value(filters: Seq<FilterModel>, operator: Seq<char>)
    requires
        sql_joined(filters, operator) is Ok,
        all_fields_unmarked(filters),
        marks(operator) == 0,
    ensures
        marks(sql_joined(filters, operator)->Ok_0.0) == sql_joined(filters, operator)->Ok_0.1.len(),
    decreases filters,
{
    if filters.len() > 0 {
        let front = sql_joined(filters.drop_last(), operator)->Ok_0;
        let back = sql_of(filters[filters.len() - 1])->Ok_0;
        one_placeholder_per_joined_value(filters.drop_last(), operator);
        one_placeholder_per_value(filters[filters.len() - 1]);
        marks_of_concatenation(front.0, operator);
        marks_of_concatenation(front.0 + operator, back.0);
        if filters.len() == 1 {
            assert(filters.drop_last() =~= Seq::<FilterModel>::empty());
        }
    }
}

/// Whether all of the values are scalars, which can be bound.
pub open spec fn all_scalars(values: Seq<JsonModel>) -> bool {
    forall|i: int|
        0 <= i < values.len() ==> (#[trigger] values[i]) is Text || values[i] is Number
            || values[i] is Bool
}

proof fn scalars_are_bindable(field: Seq<char>, values: Seq<JsonModel>)
    ensures
        params_of(field, values) is Ok <==> all_scalars(values),
    decreases values.len(),
{
    if values.len() > 0 {
        let front = values.drop_last();
        scalars_are_bindable(field, front);
        if all_scalars(front) {
            assert forall|i: int| 0 <= i < values.len() - 1 implies (#[trigger] values[i]) is Text
                || values[i] is Number || values[i] is Bool by {
                assert(front[i] == values[i]);
            }
        } else {
            let i = choose|i: int|
                0 <= i < front.len() && !((#[trigger] front[i]) is Text || front[i] is Number
                    || front[i] is Bool);
            assert(values[i] == front[i]);
        }
        assert(values[values.len() - 1] == values.last());
    }
}

proof fn all_scalars_in_both(a: Seq<JsonModel>, b: Seq<JsonModel>)
    ensures
        all_scalars(a + b) <==> all_scalars(a) && all_scalars(b),
{
    if all_scalars(a + b) {
        assert forall|i: int| 0 <= i < a.len() implies (#[trigger] a[i]) is Text || a[i] is Number
            || a[i] is Bool by {
            assert((a + b)[i] == a[i]);
        }
        assert forall|i: int| 0 <= i < b.len() implies (#[trigger] b[i]) is Text || b[i] is Number
            || b[i] is Bool by {
            assert((a + b)[a.len() + i] == b[i]);
        }
    }
}

/// A filter turns into SQL exactly where everything it compares with is a scalar.
pub proof fn scalars_build(filter: FilterModel)
    ensures
        sql_of(filter) is Ok <==> all_scalars(compared_with(filter)),
    decreases filter,
{
    match filter {
        FilterModel::Eq { field, value } => {
            assert(compared_with(filter)[0] == value);
        },
        FilterModel::In { field, values } => {
            scalars_are_bindable(field, values);
        },
        FilterModel::Like { field, pattern } => {},
        FilterModel::Or { filters } => {
            all_scalars_build(filters, " OR "@);
        },
        FilterModel::And { filters } => {
            all_scalars_build(filters, " AND "@);
        },
    }
}

proof fn all_scalars_build(filters: Seq<FilterModel>, operator: Seq<char>)
    ensures
        sql_joined(filters, operator) is Ok <==> all_scalars(all_compared_with(filters)),
    decreases filters,
{
    if filters.len() > 0 {
        all_scalars_build(filters.drop_last(), operator);
        scalars_build(filters[filters.len() - 1]);
        all_scalars_in_both(
            all_compared_with(filters.drop_last()),
            compared_with(filters[filters.len() - 1]),
        );
    }
}

/// The conditions of filters, one by one.
pub open spec fn condition_texts(filters: Seq<FilterModel>) -> Seq<Seq<char>> {
    filters.map_values(|f: FilterModel| sql_of(f)->Ok_0.0)
}

proof fn joined_conditions(filters: Seq<FilterModel>, operator: Seq<char>)
    requires
        sql_joined(filters, operator) is Ok,
    ensures
        sql_joined(filters, operator)->Ok_0.0 == text::joined(condition_texts(filters), operator),
    decreases filters,
{
    let parts = condition_texts(filters);
    if filters.len() > 0 {
        joined_conditions(filters.drop_last(), operator);
        assert(parts.drop_last() =~= condition_texts(filters.drop_last()));
        assert(parts.last() == sql_of(filters[filters.len() - 1])->Ok_0.0);
    }
}

proof fn joined_placeholders(n: nat)
    ensures
        placeholders(n) == text::joined(Seq::new(n, |i: int| "?"@), ", "@),
    decreases n,
{
    let marks = Seq::new(n, |i: int| "?"@);
    if n > 1 {
        joined_placeholders((n - 1) as nat);
        assert(marks.drop_last() =~= Seq::new((n - 1) as nat, |i: int| "?"@));
        reveal_strlit(", ?");
        reveal_strlit(", ");
        reveal_strlit("?");
        assert(", ?"@ =~= ", "@ + "?"@);
        assert(placeholders(n) =~= placeholders((n - 1) as nat) + ", "@ + "?"@);
    }
}

/// What the SQL of a filter says: a comparison takes the field out of the row and
/// holds it against one placeholder, a list against as many as it has values, a
/// pattern with `LIKE`; a combination stands in brackets, with its operator between
/// its parts.
pub proof fn conditions_say_what_filters_say(filter: FilterModel)
    requires
        sql_of(filter) is Ok,
    ensures
        ({
            let sql = sql_of(filter)->Ok_0.0;
            match filter {
                FilterModel::Eq { field, value } => sql == "json_extract(data, '$."@ + field + "')"@
                    + " = ?"@,
                FilterModel::In { field, values } => sql == "json_extract(data, '$."@ + field
                    + "')"@ + " IN ("@ + text::joined(
                    Seq::new(values.len(), |i: int| "?"@),
                    ", "@,
                ) + ")"@,
                FilterModel::Like { field, pattern } => sql == "json_extract(data, '$."@ + field
                    + "')"@ + " LIKE ?"@,
                FilterModel::Or { filters } => sql == "("@ + text::joined(
                    condition_texts(filters),
                    " OR "@,
                ) + ")"@,
                FilterModel::And { filters } => sql == "("@ + text::joined(
                    condition_texts(filters),
                    " AND "@,
                ) + ")"@,
            }
        }),
{
    match filter {
        FilterModel::In { field, values } => {
            joined_placeholders(values.len());
        },
        FilterModel::Or { filters } => {
            joined_conditions(filters, " OR "@);
        },
        FilterModel::And { filters } => {
            joined_conditions(filters, " AND "@);
        },
        _ => {},
    }
}

/// Why a comparison is refused: the field is not one of the schema, or the value is
/// null, or no scalar, or of another type. The complaint names the field.
pub proof fn refused_comparisons_name_the_field(
    field: Seq<char>,
    value: JsonModel,
    fields: Seq<FieldModel>,
)
    ensures
        ({
            let failure = filter_failure(FilterModel::Eq { field, value }, fields);
            &&& failure matches Some(e) ==> (e matches ErrorModel::Validation { field: f, .. } && f
                == field)
            &&& (forall|j: int| 0 <= j < fields.len() ==> (#[trigger] fields[j]).name != field)
                ==> failure == Some(
                ErrorModel::Validation {
                    field,
                    reason: "unknown field '"@ + field
                        + "' — only schema-registered fields are allowed in filter"@,
                },
            )
            &&& forall|f: FieldModel| #[trigger]
                schema::declares(fields, field, f) ==> failure == (if value is Null {
                    Some(
                        ErrorModel::Validation {
                            field,
                            reason: "filter value for field '"@ + field + "' must not be null"@,
                        },
                    )
                } else if value is Object || value is Array {
                    Some(
                        ErrorModel::Validation {
                            field,
                            reason: "filter value for field '"@ + field
                                + "' must be a scalar (string, number, or boolean), got an object or array"@,
                        },
                    )
                } else if !schema::kind_fits(value, f.ty) {
                    Some(
                        ErrorModel::Validation {
                            field,
                            reason: "filter value for field '"@ + field
                                + "' has type mismatch: expected "@ + schema::name_of_type(f.ty)
                                + ", got "@ + schema::kind_name(value),
                        },
                    )
                } else {
                    None
                })
        }),
{
    schema::names_stand_for_fields(fields, field);
}

/// A list of values is refused as a comparison with its first bad value is, and a
/// combination as its first bad part is.
pub proof fn refused_parts_are_the_first(
    field: Seq<char>,
    values: Seq<JsonModel>,
    filters: Seq<FilterModel>,
    fields: Seq<FieldModel>,
    k: int,
)
    ensures
        0 <= k < values.len() && filter_failure(
            FilterModel::Eq { field, value: values[k] },
            fields,
        ) is Some && (forall|j: int|
            0 <= j < k ==> filter_failure(
                FilterModel::Eq { field, value: #[trigger] values[j] },
                fields,
            ) is None) ==> filter_failure(FilterModel::In { field, values }, fields)
            == filter_failure(FilterModel::Eq { field, value: values[k] }, fields),
        0 <= k < filters.len() && filter_failure(filters[k], fields) is Some && (forall|j: int|
            0 <= j < k ==> filter_failure(#[trigger] filters[j], fields) is None) ==> (
        filter_failure(FilterModel::Or { filters }, fields) == filter_failure(filters[k], fields)
            && filter_failure(FilterModel::And { filters }, fields) == filter_failure(
            filters[k],
            fields,
        )),
{
    if 0 <= k < values.len() && (forall|j: int|
        0 <= j < k ==> filter_failure(
            FilterModel::Eq { field, value: #[trigger] values[j] },
            fields,
        ) is None) && filter_failure(FilterModel::Eq { field, value: values[k] }, fields) is Some {
        if schema::field_called(fields, field) is Some {
            let ty = schema::field_called(fields, field)->0.ty;
            assert forall|j: int| 0 <= j < k implies scalar_failure(
                field,
                #[trigger] values[j],
                ty,
            ) is None by {
                assert(filter_failure(FilterModel::Eq { field, value: values[j] }, fields) is None);
            }
            first_scalar_failure_at(field, values, ty, k);
        }
    }
    if 0 <= k < filters.len() && filter_failure(filters[k], fields) is Some && (forall|j: int|
        0 <= j < k ==> filter_failure(#[trigger] filters[j], fields) is None) {
        first_filter_failure_at(filters, fields, k);
    }
}

proof fn first_scalar_failure_at(field: Seq<char>, values: Seq<JsonModel>, ty: FieldType, k: int)
    requires
        0 <= k < values.len(),
        scalar_failure(field, values[k], ty) is Some,
        forall|j: int| 0 <= j < k ==> scalar_failure(field, #[trigger] values[j], ty) is None,
    ensures
        first_scalar_failure(field, values, ty) == scalar_failure(field, values[k], ty),
    decreases k,
{
    if k > 0 {
        let rest = values.drop_first();
        assert(scalar_failure(field, values[0], ty) is None);
        assert forall|j: int| 0 <= j < k - 1 implies scalar_failure(
            field,
            #[trigger] rest[j],
            ty,
        ) is None by {
            assert(rest[j] == values[j + 1]);
        }
        assert(rest[k - 1] == values[k]);
        first_scalar_failure_at(field, rest, ty, k - 1);
    }
}

proof fn first_filter_failure_at(filters: Seq<FilterModel>, fields: Seq<FieldModel>, k: int)
    requires
        0 <= k < filters.len(),
        filter_failure(filters[k], fields) is Some,
        forall|j: int| 0 <= j < k ==> filter_failure(#[trigger] filters[j], fields) is None,
    ensures
        first_filter_failure(filters, fields) == filter_failure(filters[k], fields),
    decreases k,
{
    if k > 0 {
        let rest = filters.drop_first();
        assert(filter_failure(filters[0], fields) is None);
        assert forall|j: int| 0 <= j < k - 1 implies filter_failure(
            #[trigger] rest[j],
            fields,
        ) is None by {
            assert(rest[j] == filters[j + 1]);
        }
        assert(rest[k - 1] == filters[k]);
        first_filter_failure_at(rest, fields, k - 1);
    }
}

/// Outcomes are what was returned: the condition and all bound values, in order.
pub proof fn built_sql_is_what_was_returned(
    t: String,
    params: Vec<FilterParam>,
    p: FilterParam,
    e: MiniAppError,
    failure: Option<ErrorModel>,
    i: int,
)
    ensures
        sql_model(Ok((t, params))) matches Ok((u, bound)) && u == t@ && bound.len() == params@.len()
            && (0 <= i < params@.len() ==> bound[i] == params@[i]@),
        sql_model(Err(e)) == Err::<(Seq<char>, Seq<ParamModel>), ErrorModel>(e@),
        param_outcome(Ok(p)) == Ok::<ParamModel, ErrorModel>(p@),
        param_outcome(Err(e)) == Err::<ParamModel, ErrorModel>(e@),
        reports(Ok(()), failure) <==> failure is None,
        reports(Err(e), failure) <==> failure == Some(e@),
{
}

proof fn params_fail_at(field: Seq<char>, values: Seq<JsonModel>, k: int)
    requires
        0 <= k < values.len(),
        param_of(field, values[k]) is Err,
        forall|j: int| 0 <= j < k ==> param_of(field, #[trigger] values[j]) is Ok,
    ensures
        params_of(field, values) == Err::<Seq<ParamModel>, ErrorModel>(
            param_of(field, values[k])->Err_0,
        ),
    decreases values.len(),
{
    let front = values.drop_last();
    if k < values.len() - 1 {
        params_fail_at(field, front, k);
    } else {
        params_pass(field, front);
    }
}

proof fn params_pass(field: Seq<char>, values: Seq<JsonModel>)
    requires
        forall|j: int| 0 <= j < values.len() ==> param_of(field, #[trigger] values[j]) is Ok,
    ensures
        params_of(field, values) is Ok,
    decreases values.len(),
{
    if values.len() > 0 {
        params_pass(field, values.drop_last());
        assert(values.last() == values[values.len() - 1]);
    }
}

proof fn joined_fail_at(filters: Seq<FilterModel>, operator: Seq<char>, k: int)
    requires
        0 <= k < filters.len(),
        sql_of(filters[k]) is Err,
        forall|j: int| 0 <= j < k ==> sql_of(#[trigger] filters[j]) is Ok,
    ensures
        sql_joined(filters, operator) == Err::<(Seq<char>, Seq<ParamModel>), ErrorModel>(
            sql_of(filters[k])->Err_0,
        ),
    decreases filters.len(),
{
    let front = filters.drop_last();
    if k < filters.len() - 1 {
        joined_fail_at(front, operator, k);
    } else {
        joined_pass(front, operator);
    }
}

proof fn joined_pass(filters: Seq<FilterModel>, operator: Seq<char>)
    requires
        forall|j: int| 0 <= j < filters.len() ==> sql_of(#[trigger] filters[j]) is Ok,
    ensures
        sql_joined(filters, operator) is Ok,
    decreases filters.len(),
{
    if filters.len() > 0 {
        joined_pass(filters.drop_last(), operator);
        assert(filters.last() == filters[filters.len() - 1]);
    }
}

/// Whether a value is a text, a number or a truth value.
pub open spec fn is_scalar(value: JsonModel) -> bool {
    value is Text || value is Number || value is Bool
}

/// A condition cannot be built from a value that is no text, number or truth value:
/// the complaint names the field. A list fails for the first such value, and a
/// combination for the first part that fails.
pub proof fn unbindable_values_are_told(
    field: Seq<char>,
    value: JsonModel,
    values: Seq<JsonModel>,
    filters: Seq<FilterModel>,
    k: int,
)
    ensures
        sql_of(FilterModel::Eq { field, value }) is Ok <==> is_scalar(value),
        !is_scalar(value) ==> sql_of(FilterModel::Eq { field, value }) == Err::<
            (Seq<char>, Seq<ParamModel>),
            ErrorModel,
        >(
            ErrorModel::Validation {
                field,
                reason: "filter value for field '"@ + field + "' is not a bindable scalar"@,
            },
        ),
        0 <= k < values.len() && !is_scalar(values[k]) && (forall|j: int|
            0 <= j < k ==> is_scalar(#[trigger] values[j])) ==> sql_of(
            FilterModel::In { field, values },
        ) == sql_of(FilterModel::Eq { field, value: values[k] }),
        0 <= k < filters.len() && sql_of(filters[k]) is Err && (forall|j: int|
            0 <= j < k ==> sql_of(#[trigger] filters[j]) is Ok) ==> sql_of(
            FilterModel::Or { filters },
        ) == sql_of(filters[k]) && sql_of(FilterModel::And { filters }) == sql_of(filters[k]),
{
    if 0 <= k < values.len() && !is_scalar(values[k]) && (forall|j: int|
        0 <= j < k ==> is_scalar(#[trigger] values[j])) {
        params_fail_at(field, values, k);
    }
    if 0 <= k < filters.len() && sql_of(filters[k]) is Err && (forall|j: int|
        0 <= j < k ==> sql_of(#[trigger] filters[j]) is Ok) {
        joined_fail_at(filters, " OR "@, k);
        joined_fail_at(filters, " AND "@, k);
    }
}

/// A list without values, a combination without parts, and a pattern for a field that
/// holds no texts are refused, each with its own complaint.
pub proof fn empty_parts_are_refused(
    field: Seq<char>,
    pattern: Seq<char>,
    fields: Seq<FieldModel>,
    f: FieldModel,
)
    ensures
        filter_failure(FilterModel::Or { filters: Seq::empty() }, fields) == Some(
            ErrorModel::Validation {
                field: "filters"@,
                reason: "Or.filters must not be empty"@,
            },
        ),
        filter_failure(FilterModel::And { filters: Seq::empty() }, fields) == Some(
            ErrorModel::Validation {
                field: "filters"@,
                reason: "And.filters must not be empty"@,
            },
        ),
        schema::declares(fields, field, f) ==> filter_failure(
            FilterModel::In { field, values: Seq::empty() },
            fields,
        ) == Some(
            ErrorModel::Validation { field, reason: "In.values must not be empty"@ },
        ),
        schema::declares(fields, field, f) && f.ty != FieldType::String ==> filter_failure(
            FilterModel::Like { field, pattern },
            fields,
        ) == Some(
            ErrorModel::Validation {
                field,
                reason: "like filter on field '"@ + field + "' requires type string, got "@
                    + schema::name_of_type(f.ty),
            },
        ),
        schema::declares(fields, field, f) && f.ty == FieldType::String ==> filter_failure(
            FilterModel::Like { field, pattern },
            fields,
        ) is None,
        (forall|j: int| 0 <= j < fields.len() ==> (#[trigger] fields[j]).name != field) ==> (
        filter_failure(FilterModel::Like { field, pattern }, fields) == Some(
            ErrorModel::Validation {
                field,
                reason: "unknown field '"@ + field
                    + "' — only schema-registered fields are allowed in filter"@,
            },
        ) && filter_failure(FilterModel::In { field, values: Seq::empty() }, fields) == Some(
            ErrorModel::Validation {
                field,
                reason: "unknown field '"@ + field
                    + "' — only schema-registered fields are allowed in filter"@,
            },
        )),
{
    schema::names_stand_for_fields(fields, field);
}

} // verus!
