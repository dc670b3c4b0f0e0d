//! JSON values: an owned tree with a mathematical model, and its exchange with
//! `serde_json`.

use vstd::prelude::*;

use crate::pairs;
use crate::text;

verus! {

broadcast use vstd::map::group_map_axioms;

/// What a JSON number is: an integer, or a floating-point number given by its
/// bits.
pub enum NumberModel {
    Integer(int),
    Float(u64),
}

/// What a JSON value is. An object is a map from keys to values: the order in
/// which its members were written does not matter.
#[verifier::ext_equal]
pub enum JsonModel {
    Null,
    Bool(bool),
    Number(NumberModel),
    Text(Seq<char>),
    Array(Seq<JsonModel>),
    Object(Map<Seq<char>, JsonModel>),
}

/// A JSON number. One that is no 64-bit integer is carried as `serde_json`
/// holds it.
#[derive(Debug, PartialEq, Eq)]
pub enum JsonNumber {
    Unsigned(u64),
    Signed(i64),
    Float(serde_json::Number),
}

/// A JSON value.
#[derive(Debug, PartialEq, Eq)]
pub enum JsonValue {
    Null,
    Bool(bool),
    Number(JsonNumber),
    Text(String),
    Array(Vec<JsonValue>),
    Object(JsonObject),
}

/// The members of a JSON object, in ascending order of their keys, each key
/// once.
#[derive(Debug, PartialEq, Eq)]
pub struct JsonObject {
    entries: Vec<(String, JsonValue)>,
}

impl JsonNumber {
    pub open spec fn model(&self) -> NumberModel {
        match self {
            JsonNumber::Unsigned(n) => NumberModel::Integer(*n as int),
            JsonNumber::Signed(i) => NumberModel::Integer(*i as int),
            JsonNumber::Float(n) => number_held(*n),
        }
    }

    /// The same number once more.
    pub fn duplicate(&self) -> (r: JsonNumber)
        ensures
            r.model() == self.model(),
    {
        match self {
            JsonNumber::Unsigned(n) => JsonNumber::Unsigned(*n),
            JsonNumber::Signed(i) => JsonNumber::Signed(*i),
            JsonNumber::Float(n) => JsonNumber::Float(n.clone()),
        }
    }
}

impl View for JsonValue {
    type V = JsonModel;

    open spec fn view(&self) -> JsonModel {
        self.model()
    }
}

impl View for JsonObject {
    type V = Map<Seq<char>, JsonModel>;

    open spec fn view(&self) -> Map<Seq<char>, JsonModel> {
        self.members()
    }
}

impl JsonValue {
    pub open spec fn model(&self) -> JsonModel
        decreases *self,
    {
        match self {
            JsonValue::Null => JsonModel::Null,
            JsonValue::Bool(b) => JsonModel::Bool(*b),
            JsonValue::Number(n) => JsonModel::Number(n.model()),
            JsonValue::Text(s) => JsonModel::Text(s@),
            JsonValue::Array(items) => JsonModel::Array(
                Seq::new(
                    items@.len(),
                    |i: int|
                        if 0 <= i < items@.len() {
                            items@[i].model()
                        } else {
                            arbitrary()
                        },
                ),
            ),
            JsonValue::Object(o) => JsonModel::Object(o.members()),
        }
    }
}

/// The values as models.
pub open spec fn value_models(values: Seq<JsonValue>) -> Seq<JsonModel> {
    values.map_values(|v: JsonValue| v@)
}

impl JsonObject {
    /// The members as key and value, in ascending order of the keys.
    pub closed spec fn pairs(&self) -> Seq<(Seq<char>, JsonModel)>
        decreases *self, 0int,
    {
        Seq::new(
            self.entries@.len(),
            |i: int|
                if 0 <= i < self.entries@.len() {
                    (self.entries@[i].0@, self.entries@[i].1.model())
                } else {
                    arbitrary()
                },
        )
    }

    pub closed spec fn members(&self) -> Map<Seq<char>, JsonModel>
        decreases *self, 1int,
    {
        pairs::pairs_map(self.pairs())
    }

    #[verifier::type_invariant]
    spec fn sorted(&self) -> bool {
        pairs::keys_ascend(self.pairs())
    }
}

impl JsonObject {
    /// The object without members.
    pub fn new() -> (r: JsonObject)
        ensures
            r@ == Map::<Seq<char>, JsonModel>::empty(),
    {
        let entries: Vec<(String, JsonValue)> = Vec::new();
        let r = JsonObject { entries };
        assert(r.pairs() =~= Seq::<(Seq<char>, JsonModel)>::empty());
        r
    }

    /// Where `key` stands, or where it would have to be put.
    fn position(&self, key: &str) -> (r: (usize, bool))
        ensures
            pairs::keys_ascend(self.pairs()),
            self.pairs().len() == self.entries@.len(),
            r.0 <= self.pairs().len(),
            forall|j: int| 0 <= j < r.0 ==> text::text_before((#[trigger] self.pairs()[j]).0, key@),
            r.1 ==> r.0 < self.pairs().len() && self.pairs()[r.0 as int].0 == key@,
            !r.1 ==> forall|j: int|
                r.0 <= j < self.pairs().len() ==> text::text_before(
                    key@,
                    (#[trigger] self.pairs()[j]).0,
                ),
            self@.contains_key(key@) == r.1,
    {
        proof {
            use_type_invariant(self);
        }
        let mut i: usize = 0;
        while i < self.entries.len() && text::comes_before(&self.entries[i].0, key)
            invariant
                i <= self.entries@.len(),
                self.pairs().len() == self.entries@.len(),
                forall|j: int| 0 <= j < i ==> text::text_before((#[trigger] self.pairs()[j]).0, key@),
            decreases self.entries@.len() - i,
        {
            assert(self.pairs()[i as int].0 == self.entries@[i as int].0@);
            i += 1;
        }
        let found: bool = i < self.entries.len() && text::same_text(&self.entries[i].0, key);
        proof {
            pairs::pairs_map_keys(self.pairs(), key@);
            if found {
                assert(self.pairs()[i as int].0 == key@);
            } else {
                if i < self.entries@.len() {
                    assert(self.pairs()[i as int].0 == self.entries@[i as int].0@);
                    text::text_before_total(self.pairs()[i as int].0, key@);
                }
                assert forall|j: int| i <= j < self.pairs().len() implies text::text_before(
                    key@,
                    (#[trigger] self.pairs()[j]).0,
                ) by {
                    if j > i {
                        text::text_before_transitive(
                            key@,
                            self.pairs()[i as int].0,
                            self.pairs()[j].0,
                        );
                    }
                }
                if self@.contains_key(key@) {
                    let h = choose|h: int|
                        0 <= h < self.pairs().len() && (#[trigger] self.pairs()[h]).0 == key@;
                    text::text_before_irreflexive(key@);
                }
            }
        }
        (i, found)
    }

    /// The value of the member `key`, where there is one.
    pub fn get(&self, key: &str) -> (r: Option<&JsonValue>)
        ensures
            r is Some <==> self@.contains_key(key@),
            r matches Some(v) ==> v@ == self@[key@],
    {
        let (at, found) = self.position(key);
        if found {
            proof {
                pairs::pairs_map_value(self.pairs(), at as int);
            }
            Some(&self.entries[at].1)
        } else {
            None
        }
    }

    /// Whether there is a member `key`.
    pub fn contains_key(&self, key: &str) -> (r: bool)
        ensures
            r == self@.contains_key(key@),
    {
        let (at, found) = self.position(key);
        found
    }

    /// The number of members. The pairs of key and value in ascending order of
    /// the keys spell the object.
    pub fn len(&self) -> (r: usize)
        ensures
            r == self.pairs().len(),
            pairs::keys_ascend(self.pairs()),
            self@ == pairs::pairs_map(self.pairs()),
    {
        proof {
            use_type_invariant(self);
        }
        self.entries.len()
    }

    /// The key of the `i`-th member in ascending order of the keys.
    pub fn key_at(&self, i: usize) -> (r: &String)
        requires
            i < self.pairs().len(),
        ensures
            r@ == self.pairs()[i as int].0,
    {
        &self.entries[i].0
    }

    /// The value of the `i`-th member in ascending order of the keys.
    pub fn value_at(&self, i: usize) -> (r: &JsonValue)
        requires
            i < self.pairs().len(),
        ensures
            r@ == self.pairs()[i as int].1,
    {
        &self.entries[i].1
    }

    /// Sets the member `key` to `value`.
    pub fn insert(&mut self, key: String, value: JsonValue)
        ensures
            final(self)@ == old(self)@.insert(key@, value@),
    {
        let (at, found) = self.position(&key);
        let ghost before = self.pairs();
        let mut entries: Vec<(String, JsonValue)> = Vec::new();
        std::mem::swap(&mut entries, &mut self.entries);
        let ghost model = value@;
        let ghost name = key@;
        if found {
            entries.set(at, (key, value));
            proof {
                pairs::pairs_map_update(before, at as int, model);
                let now = JsonObject { entries };
                assert(now.pairs() =~= before.update(at as int, (name, model)));
            }
        } else {
            entries.insert(at, (key, value));
            proof {
                pairs::pairs_map_insert(before, at as int, name, model);
                let now = JsonObject { entries };
                assert(now.pairs() =~= before.insert(at as int, (name, model)));
            }
        }
        self.entries = entries;
    }

    /// Removes the member `key`, where there is one.
    pub fn remove(&mut self, key: &str)
        ensures
            final(self)@ == old(self)@.remove(key@),
    {
        let (at, found) = self.position(key);
        if found {
            let ghost before = self.pairs();
            let mut entries: Vec<(String, JsonValue)> = Vec::new();
            std::mem::swap(&mut entries, &mut self.entries);
            let gone = entries.remove(at);
            proof {
                pairs::pairs_map_remove(before, at as int);
                let now = JsonObject { entries };
                assert(now.pairs() =~= before.remove(at as int));
            }
            self.entries = entries;
        } else {
            assert(self@.remove(key@) =~= self@);
        }
    }
}

impl JsonValue {
    /// The same value once more.
    pub fn duplicate(&self) -> (r: JsonValue)
        ensures
            r@ == self@,
        decreases *self,
    {
        match self {
            JsonValue::Null => JsonValue::Null,
            JsonValue::Bool(b) => JsonValue::Bool(*b),
            JsonValue::Number(n) => JsonValue::Number(n.duplicate()),
            JsonValue::Text(s) => JsonValue::Text(s.clone()),
            JsonValue::Array(items) => {
                let mut copies: Vec<JsonValue> = Vec::new();
                let mut i: usize = 0;
                while i < items.len()
                    invariant
                        i <= items@.len(),
                        copies@.len() == i,
                        forall|j: int| 0 <= j < i ==> (#[trigger] copies@[j])@ == items@[j]@,
                        decreases_to!(*self => items@),
                    decreases items@.len() - i,
                {
                    assert(decreases_to!(items@ => items@[i as int]));
                    copies.push(items[i].duplicate());
                    i += 1;
                }
                let r = JsonValue::Array(copies);
                assert(r@->Array_0 =~= self@->Array_0);
                r
            },
            JsonValue::Object(o) => JsonValue::Object(o.duplicate()),
        }
    }

    /// Whether the value is null.
    pub fn is_null(&self) -> (r: bool)
        ensures
            r == (self@ is Null),
    {
        matches!(self, JsonValue::Null)
    }
}

impl JsonObject {
    /// The same object once more.
    pub fn duplicate(&self) -> (r: JsonObject)
        ensures
            r@ == self@,
        decreases *self,
    {
        proof {
            use_type_invariant(self);
        }
        let mut copies: Vec<(String, JsonValue)> = Vec::new();
        let mut i: usize = 0;
        while i < self.entries.len()
            invariant
                i <= self.entries@.len(),
                copies@.len() == i,
                forall|j: int|
                    0 <= j < i ==> (#[trigger] copies@[j]).0@ == self.entries@[j].0@
                        && copies@[j].1@ == self.entries@[j].1@,
            decreases self.entries@.len() - i,
        {
            assert(decreases_to!(*self => self.entries@));
            assert(decreases_to!(self.entries@ => self.entries@[i as int]));
            assert(decreases_to!(self.entries@[i as int] => self.entries@[i as int].1));
            let entry: &(String, JsonValue) = &self.entries[i];
            copies.push((entry.0.clone(), entry.1.duplicate()));
            i += 1;
        }
        proof {
            let copy = JsonObject { entries: copies };
            assert(copy.pairs() =~= self.pairs());
        }
        JsonObject { entries: copies }
    }
}

/// `serde_json::Number`: nothing is known of it but what [`number_held`] names.
#[verifier::external_type_specification]
#[verifier::external_body]
pub struct ExNumber(serde_json::Number);

/// `serde_json::Value`: nothing is known of it but what [`value_held`] names.
#[verifier::external_type_specification]
#[verifier::external_body]
pub struct ExValue(serde_json::Value);

/// What a `serde_json::Number` is.
pub uninterp spec fn number_held(n: serde_json::Number) -> NumberModel;

/// What a `serde_json::Value` holds.
pub uninterp spec fn value_held(v: serde_json::Value) -> JsonModel;

/// The text that `serde_json::to_string` writes for a value.
pub uninterp spec fn json_text(value: JsonModel) -> Seq<char>;

/// The text that `serde_json::to_string_pretty` writes for a value.
pub uninterp spec fn json_pretty_text(value: JsonModel) -> Seq<char>;

/// What `serde_json::from_str` reads from a text, or the text of its error.
pub uninterp spec fn json_read(text: Seq<char>) -> Result<JsonModel, Seq<char>>;

/// `serde_json::Number::clone` (derived): the copy is the same number.
pub assume_specification[ <serde_json::Number as Clone>::clone ](n: &serde_json::Number) -> (r: serde_json::Number)
    ensures
        number_held(r) == number_held(*n),
;

/// The outermost layer of a `serde_json::Value`.
pub enum JsonLayer {
    Null,
    Bool(bool),
    Number(JsonNumber),
    Text(String),
    Array(Vec<serde_json::Value>),
    Object(Vec<(String, serde_json::Value)>),
}

impl JsonLayer {
    /// The members of an object layer as key and value, in the order given.
    pub open spec fn pairs(members: Seq<(String, serde_json::Value)>) -> Seq<
        (Seq<char>, JsonModel),
    > {
        members.map_values(|e: (String, serde_json::Value)| (e.0@, value_held(e.1)))
    }

    pub open spec fn model(&self) -> JsonModel {
        match self {
            JsonLayer::Null => JsonModel::Null,
            JsonLayer::Bool(b) => JsonModel::Bool(*b),
            JsonLayer::Number(n) => JsonModel::Number(n.model()),
            JsonLayer::Text(s) => JsonModel::Text(s@),
            JsonLayer::Array(items) => JsonModel::Array(
                items@.map_values(|v: serde_json::Value| value_held(v)),
            ),
            JsonLayer::Object(members) => JsonModel::Object(
                pairs::pairs_map(JsonLayer::pairs(members@)),
            ),
        }
    }
}

/// Takes the outermost layer off a `serde_json::Value`: its variants, told
/// apart one by one. The members of its `Map`, a `BTreeMap`, come in ascending
/// order of their keys (`into_iter`). `Number::as_u64` and `Number::as_i64` give
/// the number where it is an integer of that type.
#[verifier::external_body]
fn take_apart(value: serde_json::Value) -> (r: JsonLayer)
    ensures
        r.model() == value_held(value),
        r matches JsonLayer::Object(members) ==> pairs::keys_ascend(JsonLayer::pairs(members@)),
{
    match value {
        serde_json::Value::Null => JsonLayer::Null,
        serde_json::Value::Bool(b) => JsonLayer::Bool(b),
        serde_json::Value::Number(n) => JsonLayer::Number(match (n.as_u64(), n.as_i64()) {
            (Some(u), _) => JsonNumber::Unsigned(u),
            (None, Some(i)) => JsonNumber::Signed(i),
            (None, None) => JsonNumber::Float(n),
        }),
        serde_json::Value::String(s) => JsonLayer::Text(s),
        serde_json::Value::Array(items) => JsonLayer::Array(items),
        serde_json::Value::Object(members) => JsonLayer::Object(members.into_iter().collect()),
    }
}

/// Builds a `serde_json::Value` from its outermost layer, variant by variant.
/// Collecting pairs into a `Map` keeps the last value of a key that comes twice;
/// `Number::from` holds the integer that it is given.
#[verifier::external_body]
fn put_together(layer: JsonLayer) -> (r: serde_json::Value)
    ensures
        value_held(r) == layer.model(),
{
    match layer {
        JsonLayer::Null => serde_json::Value::Null,
        JsonLayer::Bool(b) => serde_json::Value::Bool(b),
        JsonLayer::Number(JsonNumber::Unsigned(n)) => serde_json::Value::Number(n.into()),
        JsonLayer::Number(JsonNumber::Signed(i)) => serde_json::Value::Number(i.into()),
        JsonLayer::Number(JsonNumber::Float(n)) => serde_json::Value::Number(n),
        JsonLayer::Text(s) => serde_json::Value::String(s),
        JsonLayer::Array(items) => serde_json::Value::Array(items),
        JsonLayer::Object(members) => serde_json::Value::Object(members.into_iter().collect()),
    }
}

/// Whether a value holds no floating-point number and nests arrays and objects
/// at most `depth` deep.
pub open spec fn plain_within(value: JsonModel, depth: nat) -> bool
    decreases depth,
{
    match value {
        JsonModel::Number(n) => n is Integer,
        JsonModel::Array(items) => depth > 0 && forall|i: int|
            0 <= i < items.len() ==> plain_within(#[trigger] items[i], (depth - 1) as nat),
        JsonModel::Object(members) => depth > 0 && forall|k: Seq<char>| #[trigger]
            members.contains_key(k) ==> plain_within(members[k], (depth - 1) as nat),
        _ => true,
    }
}

/// Whether a value is an object that has `member` under `key`.
pub open spec fn says(value: JsonModel, key: Seq<char>, member: JsonModel) -> bool {
    &&& value is Object
    &&& value->Object_0.contains_key(key)
    &&& value->Object_0[key] == member
}

/// Whether a value is an array of these texts, in order.
pub open spec fn lists(value: JsonModel, texts: Seq<Seq<char>>) -> bool {
    &&& value is Array
    &&& value->Array_0.len() == texts.len()
    &&& forall|i: int|
        0 <= i < texts.len() ==> #[trigger] value->Array_0[i] == JsonModel::Text(texts[i])
}

/// The text reads as `value`.
pub open spec fn reads_as(text: Seq<char>, value: JsonModel) -> bool {
    json_read(text) == Ok::<JsonModel, Seq<char>>(value)
}

/// Reading the text fails with the message `error`.
pub open spec fn fails_as(text: Seq<char>, error: Seq<char>) -> bool {
    json_read(text) == Err::<JsonModel, Seq<char>>(error)
}

/// The outcome of reading a text: what the value holds, or the error's text.
pub open spec fn read_outcome(r: Result<serde_json::Value, String>) -> Result<
    JsonModel,
    Seq<char>,
> {
    match r {
        Ok(v) => Ok(value_held(v)),
        Err(e) => Err(e@),
    }
}

/// The depth of nesting up to which `serde_json` reads a text.
pub open spec fn depth_limit() -> nat {
    127
}

/// `serde_json::to_string` on a `serde_json::Value`, whose serialization never
/// fails. What is written reads back as the same value, as far as the value
/// holds integers only (a floating-point number may come back as its neighbour)
/// and nests no deeper than the reader's recursion limit.
#[verifier::external_body]
fn write_value(value: &serde_json::Value) -> (r: String)
    ensures
        r@ == json_text(value_held(*value)),
        plain_within(value_held(*value), depth_limit()) ==> reads_as(r@, value_held(*value)),
{
    serde_json::to_string(value).expect("a JSON value always serializes")
}

/// `serde_json::to_string_pretty` on a `serde_json::Value`, whose serialization
/// never fails: the same JSON spread over lines.
#[verifier::external_body]
fn write_value_pretty(value: &serde_json::Value) -> (r: String)
    ensures
        r@ == json_pretty_text(value_held(*value)),
{
    serde_json::to_string_pretty(value).expect("a JSON value always serializes")
}

/// `serde_json::from_str` into a `serde_json::Value`; an error comes as its
/// text.
#[verifier::external_body]
fn read_value(text: &str) -> (r: Result<serde_json::Value, String>)
    ensures
        json_read(text@) == read_outcome(r),
{
    serde_json::from_str(text).map_err(|e: serde_json::Error| e.to_string())
}

/// The value that a `serde_json::Value` holds.
pub fn from_serde(value: serde_json::Value) -> (r: JsonValue)
    ensures
        r@ == value_held(value),
    decreases value_held(value),
{
    let ghost held = value_held(value);
    match take_apart(value) {
        JsonLayer::Null => JsonValue::Null,
        JsonLayer::Bool(b) => JsonValue::Bool(b),
        JsonLayer::Number(n) => JsonValue::Number(n),
        JsonLayer::Text(s) => JsonValue::Text(s),
        JsonLayer::Array(items) => {
            let ghost given = items@;
            let mut taken: Vec<JsonValue> = Vec::new();
            for item in it: items
                invariant
                    it.seq() == given,
                    held == value_held(value),
                    held == JsonModel::Array(
                        given.map_values(|v: serde_json::Value| value_held(v)),
                    ),
                    taken@.len() == it.index(),
                    forall|j: int|
                        0 <= j < it.index() ==> (#[trigger] taken@[j])@ == value_held(given[j]),
            {
                assert(value_held(item) == held->Array_0[it.index() as int]);
                assert(decreases_to!(held => held->Array_0));
                assert(decreases_to!(held->Array_0 => held->Array_0[it.index() as int]));
                taken.push(from_serde(item));
            }
            let r = JsonValue::Array(taken);
            assert(r@->Array_0 =~= held->Array_0);
            r
        },
        JsonLayer::Object(members) => {
            let ghost given = members@;
            let ghost pairs = JsonLayer::pairs(given);
            let mut taken: Vec<(String, JsonValue)> = Vec::new();
            for member in it: members
                invariant
                    it.seq() == given,
                    held == value_held(value),
                    pairs == JsonLayer::pairs(given),
                    pairs::keys_ascend(pairs),
                    held == JsonModel::Object(pairs::pairs_map(pairs)),
                    taken@.len() == it.index(),
                    forall|j: int|
                        0 <= j < it.index() ==> (#[trigger] taken@[j]).0@ == pairs[j].0
                            && taken@[j].1@ == pairs[j].1,
            {
                proof {
                    let i = it.index() as int;
                    assert(pairs[i] == (member.0@, value_held(member.1)));
                    pairs::pairs_map_value(pairs, i);
                    pairs::pairs_map_finite(pairs);
                    assert(decreases_to!(held => held->Object_0));
                    assert(decreases_to!(held->Object_0 => held->Object_0[pairs[i].0]));
                }
                taken.push((member.0, from_serde(member.1)));
            }
            proof {
                let object = JsonObject { entries: taken };
                assert(object.pairs() =~= pairs);
            }
            let object = JsonObject { entries: taken };
            assert(object.members() == pairs::pairs_map(object.pairs()));
            JsonValue::Object(object)
        },
    }
}

/// The `serde_json::Value` that holds `value`.
pub fn to_serde(value: &JsonValue) -> (r: serde_json::Value)
    ensures
        value_held(r) == value@,
    decreases *value,
{
    match value {
        JsonValue::Null => put_together(JsonLayer::Null),
        JsonValue::Bool(b) => put_together(JsonLayer::Bool(*b)),
        JsonValue::Number(n) => put_together(JsonLayer::Number(n.duplicate())),
        JsonValue::Text(s) => put_together(JsonLayer::Text(s.clone())),
        JsonValue::Array(items) => {
            let mut given: Vec<serde_json::Value> = Vec::new();
            let mut i: usize = 0;
            while i < items.len()
                invariant
                    i <= items@.len(),
                    given@.len() == i,
                    forall|j: int|
                        0 <= j < i ==> value_held(#[trigger] given@[j]) == items@[j]@,
                    decreases_to!(*value => items@),
                decreases items@.len() - i,
            {
                assert(decreases_to!(items@ => items@[i as int]));
                given.push(to_serde(&items[i]));
                i += 1;
            }
            let layer = JsonLayer::Array(given);
            assert(layer.model()->Array_0 =~= value@->Array_0);
            put_together(layer)
        },
        JsonValue::Object(o) => {
            let mut given: Vec<(String, serde_json::Value)> = Vec::new();
            let mut i: usize = 0;
            while i < o.entries.len()
                invariant
                    i <= o.entries@.len(),
                    given@.len() == i,
                    forall|j: int|
                        0 <= j < i ==> (#[trigger] given@[j]).0@ == o.entries@[j].0@
                            && value_held(given@[j].1) == o.entries@[j].1@,
                    decreases_to!(*value => o),
                decreases o.entries@.len() - i,
            {
                let entry: &(String, JsonValue) = &o.entries[i];
                assert(decreases_to!(o => o.entries@));
                assert(decreases_to!(o.entries@ => o.entries@[i as int]));
                assert(decreases_to!(o.entries@[i as int] => o.entries@[i as int].1));
                given.push((entry.0.clone(), to_serde(&entry.1)));
                i += 1;
            }
            let layer = JsonLayer::Object(given);
            assert(JsonLayer::pairs(given@) =~= o.pairs());
            assert(o.members() == pairs::pairs_map(o.pairs()));
            put_together(layer)
        },
    }
}

/// Reads a JSON text; the error is the text of what `serde_json` reports.
pub fn parse(text: &str) -> (r: Result<JsonValue, String>)
    ensures
        match r {
            Ok(v) => reads_as(text@, v@),
            Err(e) => fails_as(text@, e@),
        },
{
    match read_value(text) {
        Ok(v) => Ok(from_serde(v)),
        Err(e) => Err(e),
    }
}

impl JsonValue {
    /// Writes the value as a JSON text. A value with integers only that nests no
    /// deeper than the reader goes reads back as the same value.
    pub fn to_text(&self) -> (r: String)
        ensures
            r@ == json_text(self@),
            plain_within(self@, depth_limit()) ==> reads_as(r@, self@),
    {
        write_value(&to_serde(self))
    }

    /// Writes the value as a JSON text spread over lines.
    pub fn to_pretty_text(&self) -> (r: String)
        ensures
            r@ == json_pretty_text(self@),
    {
        write_value_pretty(&to_serde(self))
    }
}

/// A JSON value is what it holds.
pub proof fn values_are_what_they_hold(v: JsonValue, values: Seq<JsonValue>, i: int)
    ensures
        v is Null <==> v@ is Null,
        v matches JsonValue::Bool(b) ==> v@ == JsonModel::Bool(b),
        v matches JsonValue::Number(JsonNumber::Unsigned(n)) ==> v@ == JsonModel::Number(
            NumberModel::Integer(n as int),
        ),
        v matches JsonValue::Number(JsonNumber::Signed(n)) ==> v@ == JsonModel::Number(
            NumberModel::Integer(n as int),
        ),
        v matches JsonValue::Text(s) ==> v@ == JsonModel::Text(s@),
        v matches JsonValue::Array(items) ==> (v@ matches JsonModel::Array(held) && held.len()
            == items@.len() && forall|k: int|
            0 <= k < held.len() ==> #[trigger] held[k] == items@[k]@),
        v matches JsonValue::Object(o) ==> v@ == JsonModel::Object(o@),
        value_models(values).len() == values.len(),
        0 <= i < values.len() ==> value_models(values)[i] == values[i]@,
{
}

} // verus!
