//! Texts of JSON objects whose members stand in a given order.
//!
//! The texts of keys and values come from `serde_json`; what is written here is
//! what stands between them.

use vstd::prelude::*;
use vstd::string::*;

use crate::json;
use crate::json::JsonModel;
use crate::json::JsonValue;
use crate::text;

verus! {

/// Members as pairs of the key and the text of the value.
pub open spec fn member_texts(members: Seq<(String, String)>) -> Seq<(Seq<char>, Seq<char>)> {
    members.map_values(|m: (String, String)| (m.0@, m.1@))
}

/// The text of each member, with something before the key, and something between
/// the key and the value.
pub open spec fn entries(
    members: Seq<(Seq<char>, Seq<char>)>,
    before: Seq<char>,
    between: Seq<char>,
) -> Seq<Seq<char>> {
    members.map_values(
        |m: (Seq<char>, Seq<char>)|
            before + json::json_text(JsonModel::Text(m.0)) + between + m.1,
    )
}

/// The text of an object on one line.
pub open spec fn object_text(members: Seq<(Seq<char>, Seq<char>)>) -> Seq<char> {
    "{"@ + text::joined(entries(members, ""@, ":"@), ","@) + "}"@
}

/// The text of an array on one line, from the texts of its items.
pub open spec fn array_text(items: Seq<Seq<char>>) -> Seq<char> {
    "["@ + text::joined(items, ","@) + "]"@
}

/// The text of an object with each member on a line of its own, two spaces deeper
/// than the margin.
pub open spec fn object_lines(
    members: Seq<(Seq<char>, Seq<char>)>,
    margin: Seq<char>,
) -> Seq<char> {
    if members.len() == 0 {
        "{}"@
    } else {
        "{\n"@ + text::joined(entries(members, margin + "  "@, ": "@), ",\n"@) + "\n"@ + margin
            + "}"@
    }
}

/// The text of an array with each item on a line of its own, two spaces deeper
/// than the margin, from the texts of the items.
pub open spec fn array_lines(items: Seq<Seq<char>>, margin: Seq<char>) -> Seq<char> {
    if items.len() == 0 {
        "[]"@
    } else {
        "[\n"@ + text::joined(
            items.map_values(|item: Seq<char>| margin + "  "@ + item),
            ",\n"@,
        ) + "\n"@ + margin + "]"@
    }
}

fn entry_texts(members: &Vec<(String, String)>, before: &str, between: &str) -> (r: Vec<String>)
    ensures
        text::texts(r@) == entries(member_texts(members@), before@, between@),
{
    let mut r: Vec<String> = Vec::new();
    let mut i: usize = 0;
    while i < members.len()
        invariant
            i <= members@.len(),
            r@.len() == i,
            forall|j: int|
                0 <= j < i ==> (#[trigger] r@[j])@ == before@ + json::json_text(
                    JsonModel::Text(members@[j].0@),
                ) + between@ + members@[j].1@,
        decreases members@.len() - i,
    {
        let key: String = JsonValue::Text(members[i].0.clone()).to_text();
        r.push(
            before.to_owned().concat(key.as_str()).concat(between).concat(members[i].1.as_str()),
        );
        i += 1;
    }
    assert(text::texts(r@) =~= entries(member_texts(members@), before@, between@));
    r
}

/// Writes an object on one line.
pub fn write_object(members: &Vec<(String, String)>) -> (r: String)
    ensures
        r@ == object_text(member_texts(members@)),
{
    let inner: String = text::join(&entry_texts(members, "", ":"), ",");
    "{".to_owned().concat(inner.as_str()).concat("}")
}

/// Writes an array on one line.
pub fn write_array(items: &Vec<String>) -> (r: String)
    ensures
        r@ == array_text(text::texts(items@)),
{
    let inner: String = text::join(items, ",");
    "[".to_owned().concat(inner.as_str()).concat("]")
}

/// Writes an object over several lines.
pub fn write_object_lines(members: &Vec<(String, String)>, margin: &str) -> (r: String)
    ensures
        r@ == object_lines(member_texts(members@), margin@),
{
    if members.len() == 0 {
        return "{}".to_owned();
    }
    let deeper: String = margin.to_owned().concat("  ");
    let inner: String = text::join(&entry_texts(members, deeper.as_str(), ": "), ",\n");
    "{\n".to_owned().concat(inner.as_str()).concat("\n").concat(margin).concat("}")
}

/// Writes an array over several lines.
pub fn write_array_lines(items: &Vec<String>, margin: &str) -> (r: String)
    ensures
        r@ == array_lines(text::texts(items@), margin@),
{
    if items.len() == 0 {
        return "[]".to_owned();
    }
    let deeper: String = margin.to_owned().concat("  ");
    let mut lines: Vec<String> = Vec::new();
    let mut i: usize = 0;
    while i < items.len()
        invariant
            i <= items@.len(),
            deeper@ == margin@ + "  "@,
            lines@.len() == i,
            forall|j: int|
                0 <= j < i ==> (#[trigger] lines@[j])@ == margin@ + "  "@ + items@[j]@,
        decreases items@.len() - i,
    {
        lines.push(deeper.clone().concat(items[i].as_str()));
        i += 1;
    }
    assert(text::texts(lines@) =~= text::texts(items@).map_values(
        |item: Seq<char>| margin@ + "  "@ + item,
    ));
    let inner: String = text::join(&lines, ",\n");
    "[\n".to_owned().concat(inner.as_str()).concat("\n").concat(margin).concat("]")
}

/// An object on one line is its members in their order: a member more comes after the
/// others, behind a comma, with its key before its value.
pub proof fn objects_are_their_members(
    members: Seq<(Seq<char>, Seq<char>)>,
    key: Seq<char>,
    value: Seq<char>,
)
    ensures
        object_text(Seq::empty()) == "{"@ + "}"@,
        object_text(seq![(key, value)]) == "{"@ + json::json_text(JsonModel::Text(key)) + ":"@
            + value + "}"@,
        members.len() > 0 ==> object_text(members.push((key, value))) == object_text(
            members,
        ).take(object_text(members).len() - "}"@.len()) + ","@ + json::json_text(
            JsonModel::Text(key),
        ) + ":"@ + value + "}"@,
        array_text(Seq::empty()) == "["@ + "]"@,
        array_text(seq![value]) == "["@ + value + "]"@,
{
    reveal_strlit("");
    assert(""@.len() == 0);
    let none = Seq::<(Seq<char>, Seq<char>)>::empty();
    assert(entries(none, ""@, ":"@) =~= Seq::<Seq<char>>::empty());
    assert(object_text(none) =~= "{"@ + "}"@);
    let entry = ""@ + json::json_text(JsonModel::Text(key)) + ":"@ + value;
    assert(entry =~= json::json_text(JsonModel::Text(key)) + ":"@ + value);
    assert(entries(seq![(key, value)], ""@, ":"@) =~= seq![entry]);
    text::joined_texts_keep_their_order(entries(members, ""@, ":"@), entry, ","@);
    assert(object_text(seq![(key, value)]) =~= "{"@ + json::json_text(JsonModel::Text(key)) + ":"@
        + value + "}"@);
    assert(entries(members.push((key, value)), ""@, ":"@) =~= entries(members, ""@, ":"@).push(
        entry,
    ));
    if members.len() > 0 {
        let inner = text::joined(entries(members, ""@, ":"@), ","@);
        assert(object_text(members).take(object_text(members).len() - "}"@.len()) =~= "{"@ + inner);
        assert(object_text(members.push((key, value))) =~= "{"@ + inner + ","@ + json::json_text(
            JsonModel::Text(key),
        ) + ":"@ + value + "}"@);
    }
    text::joined_texts_keep_their_order(Seq::empty(), value, ","@);
    assert(array_text(Seq::empty()) =~= "["@ + "]"@);
}

/// An object on several lines has one member to a line, two spaces deeper than the
/// margin, with its key before its value, in the order of the members; an array has
/// one item to a line. Without members or items they are written on one line.
pub proof fn objects_have_a_line_for_each_member(
    members: Seq<(Seq<char>, Seq<char>)>,
    key: Seq<char>,
    value: Seq<char>,
    items: Seq<Seq<char>>,
    margin: Seq<char>,
)
    ensures
        object_lines(Seq::empty(), margin) == "{}"@,
        object_lines(seq![(key, value)], margin) == "{\n"@ + margin + "  "@ + json::json_text(
            JsonModel::Text(key),
        ) + ": "@ + value + "\n"@ + margin + "}"@,
        members.len() > 0 ==> object_lines(members.push((key, value)), margin) == object_lines(
            members,
            margin,
        ).take(object_lines(members, margin).len() - ("\n"@ + margin + "}"@).len()) + ",\n"@
            + margin + "  "@ + json::json_text(JsonModel::Text(key)) + ": "@ + value + "\n"@
            + margin + "}"@,
        array_lines(Seq::empty(), margin) == "[]"@,
        array_lines(seq![value], margin) == "[\n"@ + margin + "  "@ + value + "\n"@ + margin
            + "]"@,
        items.len() > 0 ==> array_lines(items.push(value), margin) == array_lines(
            items,
            margin,
        ).take(array_lines(items, margin).len() - ("\n"@ + margin + "]"@).len()) + ",\n"@ + margin
            + "  "@ + value + "\n"@ + margin + "]"@,
{
    let entry = margin + "  "@ + json::json_text(JsonModel::Text(key)) + ": "@ + value;
    let lines = entries(members, margin + "  "@, ": "@);
    assert(entries(seq![(key, value)], margin + "  "@, ": "@) =~= seq![entry]);
    text::joined_texts_keep_their_order(lines, entry, ",\n"@);
    assert(object_lines(seq![(key, value)], margin) =~= "{\n"@ + margin + "  "@ + json::json_text(
        JsonModel::Text(key),
    ) + ": "@ + value + "\n"@ + margin + "}"@);
    assert(entries(members.push((key, value)), margin + "  "@, ": "@) =~= lines.push(entry));
    if members.len() > 0 {
        let inner = text::joined(lines, ",\n"@);
        assert(object_lines(members, margin).take(
            object_lines(members, margin).len() - ("\n"@ + margin + "}"@).len(),
        ) =~= "{\n"@ + inner);
        assert(object_lines(members.push((key, value)), margin) =~= "{\n"@ + inner + ",\n"@
            + margin + "  "@ + json::json_text(JsonModel::Text(key)) + ": "@ + value + "\n"@
            + margin + "}"@);
    }
    let deeper = |item: Seq<char>| margin + "  "@ + item;
    let item = margin + "  "@ + value;
    assert(seq![value].map_values(deeper) =~= seq![item]);
    text::joined_texts_keep_their_order(items.map_values(deeper), item, ",\n"@);
    assert(array_lines(seq![value], margin) =~= "[\n"@ + margin + "  "@ + value + "\n"@ + margin
        + "]"@);
    assert(items.push(value).map_values(deeper) =~= items.map_values(deeper).push(item));
    if items.len() > 0 {
        let inner = text::joined(items.map_values(deeper), ",\n"@);
        assert(array_lines(items, margin).take(
            array_lines(items, margin).len() - ("\n"@ + margin + "]"@).len(),
        ) =~= "[\n"@ + inner);
        assert(array_lines(items.push(value), margin) =~= "[\n"@ + inner + ",\n"@ + margin
            + "  "@ + value + "\n"@ + margin + "]"@);
    }
}

} // verus!
