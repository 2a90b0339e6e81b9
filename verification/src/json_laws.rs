//! What holds of JSON values and of reading and setting their fields.

use crate::json;
use crate::json::{Json, JsonView};
use vstd::prelude::*;

verus! {

/// Whether a value is an object with a field of this value.
pub open spec fn has(value: JsonView, key: Seq<char>, found: JsonView) -> bool {
    &&& value matches JsonView::Object(fields)
    &&& fields.contains_key(key)
    &&& fields[key] == found
}

/// Whether a value is no object with this field.
pub open spec fn lacks(value: JsonView, key: Seq<char>) -> bool {
    value matches JsonView::Object(fields) ==> !fields.contains_key(key)
}

/// Whether a value is an object whose field at a key is a string.
pub open spec fn has_text(value: JsonView, key: Seq<char>) -> bool {
    exists|s: Seq<char>| #[trigger] has(value, key, JsonView::Str(s))
}

/// Whether a value is an object whose field at a key is an array.
pub open spec fn has_row(value: JsonView, key: Seq<char>) -> bool {
    exists|row: Seq<JsonView>| #[trigger] has(value, key, JsonView::Array(row))
}

/// Reading a field is reading what an object has at its key.
pub proof fn law_reading_is_having(
    value: JsonView,
    key: Seq<char>,
    found: JsonView,
    s: Seq<char>,
    row: Seq<JsonView>,
)
    ensures
        value.get(key) == Some(found) <==> has(value, key, found),
        value.get(key) is None <==> lacks(value, key),
        value.text_at(key) == Some(s) <==> has(value, key, JsonView::Str(s)),
        value.text_at(key) is Some <==> has_text(value, key),
        value.items_at(key) == Some(row) <==> has(value, key, JsonView::Array(row)),
        value.items_at(key) is Some <==> has_row(value, key),
{
    if let Some(t) = value.text_at(key) {
        assert(has(value, key, JsonView::Str(t)));
    }
    if let Some(items) = value.items_at(key) {
        assert(has(value, key, JsonView::Array(items)));
    }
}

/// A field is read of an object that has it, and of nothing else.
pub proof fn law_fields_are_read_of_objects(value: JsonView, key: Seq<char>, found: JsonView)
    ensures
        value.get(key) == Some(found) <==> (value matches JsonView::Object(fields)
            && fields.contains_key(key) && fields[key] == found),
{
}

/// An item is read of an array that is long enough, and of nothing else.
pub proof fn law_items_are_read_of_arrays(value: JsonView, i: int, found: JsonView)
    ensures
        value.at(i) == Some(found) <==> (value matches JsonView::Array(items) && 0 <= i
            < items.len() && items[i] == found),
{
}

/// A text is read of a string, and items of an array, and of nothing else.
pub proof fn law_contents_are_read_as_they_are(
    value: JsonView,
    key: Seq<char>,
    s: Seq<char>,
    row: Seq<JsonView>,
)
    ensures
        value.text() == Some(s) <==> value == JsonView::Str(s),
        value.items() == Some(row) <==> value == JsonView::Array(row),
        value.text_at(key) == Some(s) <==> value.get(key) == Some(JsonView::Str(s)),
        value.items_at(key) == Some(row) <==> value.get(key) == Some(JsonView::Array(row)),
{
}

/// A field that is set is read back, and every other field stays as it was.
pub proof fn law_set_field_is_read_back(
    value: JsonView,
    key: Seq<char>,
    field: JsonView,
    other: Seq<char>,
)
    requires
        other != key,
    ensures
        value.with(key, field).get(key) == Some(field),
        value.with(key, field).get(other) == value.get(other),
        value.with(key, field) is Object,
        json::empty_object().get(key) is None,
        json::empty_object() is Object,
        value.takes_fields() <==> value is Object || value is Null,
{
}

/// Two objects with the same fields are the same.
pub proof fn law_objects_are_their_fields(a: Map<Seq<char>, JsonView>, b: Map<Seq<char>, JsonView>)
    requires
        forall|key: Seq<char>|
            #[trigger] JsonView::Object(a).get(key) == JsonView::Object(b).get(key),
    ensures
        a == b,
{
    assert forall|key: Seq<char>| a.contains_key(key) <==> #[trigger] b.contains_key(key) by {
        assert(JsonView::Object(a).get(key) == JsonView::Object(b).get(key));
    }
    assert forall|key: Seq<char>| a.contains_key(key) implies #[trigger] a[key] == b[key] by {
        assert(JsonView::Object(a).get(key) == JsonView::Object(b).get(key));
    }
    assert(a =~= b);
}

/// What a value stands for is what it holds. Of the entries with one key in an object the last one
/// counts.
pub proof fn law_values_stand_for_what_they_hold(
    b: bool,
    number: serde_json::Number,
    content: String,
    items: Vec<Json>,
    fields: Vec<(String, Json)>,
    i: int,
)
    ensures
        Json::Null@ == JsonView::Null,
        Json::Bool(b)@ == JsonView::Bool(b),
        Json::Number(number)@ == JsonView::Number(number),
        Json::Str(content)@ == JsonView::Str(content@),
        Json::Array(items)@ matches JsonView::Array(row) && row.len() == items@.len() && (0 <= i
            < items@.len() ==> row[i] == items@[i]@),
        Json::Object(fields)@ is Object,
        0 <= i < fields@.len() && (forall|j: int|
            i < j < fields@.len() ==> (#[trigger] fields@[j]).0@ != fields@[i].0@) ==> Json::Object(
            fields,
        )@.get(fields@[i].0@) == Some(fields@[i].1@),
{
    let row = json::fields_view(fields@);
    if 0 <= i < fields@.len() && (forall|j: int|
        i < j < fields@.len() ==> (#[trigger] fields@[j]).0@ != fields@[i].0@) {
        assert forall|j: int| i < j < row.len() implies (#[trigger] row[j]).0 != row[i].0 by {
            assert(fields@[j].0@ != fields@[i].0@);
        }
        json::lemma_last_entry(row, row[i].0, i);
    }
}

/// An object has a field only where one of its entries has the key.
pub proof fn law_fields_come_from_entries(fields: Vec<(String, Json)>, key: Seq<char>) -> (i: int)
    requires
        Json::Object(fields)@.get(key) is Some,
    ensures
        0 <= i < fields@.len(),
        fields@[i].0@ == key,
{
    json::lemma_key_has_entry(json::fields_view(fields@), key)
}

}
