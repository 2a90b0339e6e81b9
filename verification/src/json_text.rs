//! The text of JSON values: reading a text into a value and writing a value as text. Both are the
//! work of the `serde_json` crate; this module carries values over to it and back.

use crate::json::{Json, JsonView};
use crate::{json, text};
use vstd::prelude::*;

verus! {

/// The JSON value of the `serde_json` crate.
#[verifier::external_type_specification]
#[verifier::external_body]
pub struct ExValue(serde_json::Value);

/// What a value of the `serde_json` crate holds.
pub uninterp spec fn json_of(value: serde_json::Value) -> JsonView;

/// The value that a text holds, or the message that says why it holds none.
pub uninterp spec fn parsed_json(text: Seq<char>) -> Result<JsonView, Seq<char>>;

/// The compact text of a value.
pub uninterp spec fn printed_json(json: JsonView) -> Seq<char>;

/// The number that a text holds, where it holds a JSON number and nothing else.
pub uninterp spec fn number_from_text(text: Seq<char>) -> Option<serde_json::Number>;

/// The number that stands for an integer.
pub uninterp spec fn integer_number(n: i64) -> serde_json::Number;

/// Whether a text is a row of decimal digits without a needless zero at its start.
pub open spec fn plain_integer(text: Seq<char>) -> bool {
    &&& text.len() > 0
    &&& text::all_digits(text)
    &&& text.len() > 1 ==> text[0] != '0'
}

/// Whether a text is a short decimal number: digits, and perhaps a point and further digits.
pub open spec fn plain_number(text: Seq<char>) -> bool {
    &&& text.len() <= 15
    &&& plain_integer(text) || exists|i: int|
        0 < i < text.len() - 1 && #[trigger] text[i] == '.' && plain_integer(text.take(i))
            && text::all_digits(text.skip(i + 1))
}

/// A value of the `serde_json` crate, opened by one level.
enum Shape {
    Null,
    Bool(bool),
    Number(serde_json::Number),
    Str(String),
    Array(Vec<serde_json::Value>),
    Object(Vec<(String, serde_json::Value)>),
}

/// What the values of a row hold.
spec fn row_view(items: Seq<serde_json::Value>) -> Seq<JsonView> {
    Seq::new(items.len(), |i: int| json_of(items[i]))
}

/// What the entries of a row hold.
spec fn entries_view(entries: Seq<(String, serde_json::Value)>) -> Seq<(Seq<char>, JsonView)> {
    Seq::new(entries.len(), |i: int| (entries[i].0@, json_of(entries[i].1)))
}

/// What an opened value holds.
spec fn shape_view(shape: Shape) -> JsonView {
    match shape {
        Shape::Null => JsonView::Null,
        Shape::Bool(b) => JsonView::Bool(b),
        Shape::Number(number) => JsonView::Number(number),
        Shape::Str(text) => JsonView::Str(text@),
        Shape::Array(items) => JsonView::Array(row_view(items@)),
        Shape::Object(entries) => JsonView::Object(json::fields_map(entries_view(entries@))),
    }
}

/// Whether no key stands twice in a row of entries.
spec fn distinct_keys(entries: Seq<(String, serde_json::Value)>) -> bool {
    forall|i: int, j: int|
        0 <= i < j < entries.len() ==> (#[trigger] entries[i]).0@ != (#[trigger] entries[j]).0@
}

/// Copying a `serde_json::Number` (`Clone::clone`) gives an equal number.
pub assume_specification[ <serde_json::Number as Clone>::clone ](
    number: &serde_json::Number,
) -> (result: serde_json::Number)
    ensures
        result == *number,
;

/// Calls `serde_json::from_str` for a `serde_json::Value`. What it reads, or the text of the error
/// that it gives, depends on the text alone and is named `parsed_json`.
#[verifier::external_body]
fn parse_value(text: &str) -> (result: Result<serde_json::Value, String>)
    ensures
        match result {
            Ok(value) => parsed_json(text@) == Ok::<JsonView, Seq<char>>(json_of(value)),
            Err(message) => parsed_json(text@) == Err::<JsonView, Seq<char>>(message@),
        },
{
    serde_json::from_str::<serde_json::Value>(text).map_err(|error| error.to_string())
}

/// Calls `Display` of `serde_json::Value`, which writes the compact text of a value. The text
/// depends on what the value holds alone and is named `printed_json`: without the feature
/// `preserve_order` the crate keeps the entries of an object in the order of their keys.
#[verifier::external_body]
fn print_value(value: &serde_json::Value) -> (result: String)
    ensures
        result@ == printed_json(json_of(*value)),
{
    value.to_string()
}

/// Calls `FromStr` of `serde_json::Number`. Its result depends on the text alone and is named
/// `number_from_text`. It reads every plain number.
#[verifier::external_body]
fn parse_number(text: &str) -> (result: Option<serde_json::Number>)
    ensures
        result == number_from_text(text@),
        plain_number(text@) ==> result is Some,
{
    text.parse::<serde_json::Number>().ok()
}

/// Calls `serde_json::Number::from` for an `i64`. The number depends on the integer alone and is
/// named `integer_number`.
#[verifier::external_body]
fn number_from_integer(n: i64) -> (result: serde_json::Number)
    ensures
        result == integer_number(n),
{
    serde_json::Number::from(n)
}

/// Opens a `serde_json::Value` by one level: the variant and its contents, of an object its
/// entries, which have distinct keys.
#[verifier::external_body]
fn open_value(value: serde_json::Value) -> (result: Shape)
    ensures
        shape_view(result) == json_of(value),
        result matches Shape::Object(entries) ==> distinct_keys(entries@),
{
    match value {
        serde_json::Value::Null => Shape::Null,
        serde_json::Value::Bool(b) => Shape::Bool(b),
        serde_json::Value::Number(number) => Shape::Number(number),
        serde_json::Value::String(text) => Shape::Str(text),
        serde_json::Value::Array(items) => Shape::Array(items),
        serde_json::Value::Object(fields) => Shape::Object(fields.into_iter().collect()),
    }
}

/// Closes an opened value to a `serde_json::Value`. The map of an object is collected from its
/// entries, which have distinct keys.
#[verifier::external_body]
fn close_value(shape: Shape) -> (result: serde_json::Value)
    requires
        shape matches Shape::Object(entries) ==> distinct_keys(entries@),
    ensures
        json_of(result) == shape_view(shape),
{
    match shape {
        Shape::Null => serde_json::Value::Null,
        Shape::Bool(b) => serde_json::Value::Bool(b),
        Shape::Number(number) => serde_json::Value::Number(number),
        Shape::Str(text) => serde_json::Value::String(text),
        Shape::Array(items) => serde_json::Value::Array(items),
        Shape::Object(entries) => serde_json::Value::Object(entries.into_iter().collect()),
    }
}

/// The value that a `serde_json::Value` holds.
pub fn to_json(value: serde_json::Value) -> (result: Json)
    ensures
        result@ == json_of(value),
    decreases json_of(value),
{
    match open_value(value) {
        Shape::Null => Json::Null,
        Shape::Bool(b) => Json::Bool(b),
        Shape::Number(number) => Json::Number(number),
        Shape::Str(text) => Json::Str(text),
        Shape::Array(items) => {
            let ghost whole = items@;
            let mut converted: Vec<Json> = Vec::new();
            for item in it: items.into_iter()
                invariant
                    it.seq() == whole,
                    json_of(value) == JsonView::Array(row_view(whole)),
                    converted@.len() == it.index(),
                    forall|j: int|
                        0 <= j < converted@.len() ==> (#[trigger] converted@[j])@ == json_of(
                            whole[j],
                        ),
            {
                proof {
                    let row = row_view(whole);
                    assert(decreases_to!(json_of(value) => json_of(value)->Array_0));
                    assert(decreases_to!(row => row[it.index() as int]));
                }
                converted.push(to_json(item));
            }
            assert(json::items_view(converted@) =~= row_view(whole));
            Json::Array(converted)
        },
        Shape::Object(entries) => {
            let ghost whole = entries@;
            let mut converted: Vec<(String, Json)> = Vec::new();
            for entry in it: entries.into_iter()
                invariant
                    it.seq() == whole,
                    json_of(value) == JsonView::Object(json::fields_map(entries_view(whole))),
                    distinct_keys(whole),
                    converted@.len() == it.index(),
                    forall|j: int|
                        0 <= j < converted@.len() ==> (#[trigger] converted@[j]).0@ == whole[j].0@
                            && converted@[j].1@ == json_of(whole[j].1),
            {
                proof {
                    let row = entries_view(whole);
                    let i = it.index() as int;
                    assert forall|j: int| i < j < row.len() implies (#[trigger] row[j]).0
                        != row[i].0 by {
                        assert(whole[i].0@ != whole[j].0@);
                    }
                    json::lemma_last_entry(row, row[i].0, i);
                    json::lemma_fields_finite(row);
                    let fields = json::fields_map(row);
                    assert(decreases_to!(json_of(value) => json_of(value)->Object_0));
                    assert(decreases_to!(fields => fields[row[i].0]));
                }
                converted.push((entry.0, to_json(entry.1)));
            }
            assert(json::fields_view(converted@) =~= entries_view(whole));
            Json::Object(converted)
        },
    }
}

/// Whether no later entry has the key of the entry at a position.
spec fn last_of_key(fields: Seq<(String, Json)>, i: int) -> bool {
    forall|j: int| i < j < fields.len() ==> (#[trigger] fields[j]).0@ != fields[i].0@
}

/// Whether a row has the positions before `end` of the entries that are the last ones of their keys,
/// in order.
spec fn are_last_entries(fields: Seq<(String, Json)>, kept: Seq<int>, end: int) -> bool {
    &&& forall|j: int|
        0 <= j < kept.len() ==> 0 <= #[trigger] kept[j] < end && last_of_key(fields, kept[j])
    &&& forall|j: int, k: int| 0 <= j < k < kept.len() ==> #[trigger] kept[j] < #[trigger] kept[k]
    &&& forall|i: int| 0 <= i < end && last_of_key(fields, i) ==> #[trigger] kept.contains(i)
}

/// Whether no later entry has the key of the entry at a position.
fn is_last(fields: &Vec<(String, Json)>, i: usize) -> (result: bool)
    requires
        i < fields.len(),
    ensures
        result == last_of_key(fields@, i as int),
{
    let mut j: usize = i + 1;
    while j < fields.len()
        invariant
            i < j <= fields@.len(),
            forall|k: int| i < k < j ==> (#[trigger] fields@[k]).0@ != fields@[i as int].0@,
        decreases fields@.len() - j,
    {
        if text::same_text(&fields[j].0, &fields[i].0) {
            return false;
        }
        j = j + 1;
    }
    true
}

/// Of the entries with the key of the entry at a position there is a last one.
proof fn lemma_has_last(fields: Seq<(String, Json)>, i: int) -> (last: int)
    requires
        0 <= i < fields.len(),
    ensures
        i <= last < fields.len(),
        fields[last].0@ == fields[i].0@,
        last_of_key(fields, last),
    decreases fields.len() - i,
{
    if last_of_key(fields, i) {
        i
    } else {
        let j = choose|j: int| i < j < fields.len() && (#[trigger] fields[j]).0@ == fields[i].0@;
        lemma_has_last(fields, j)
    }
}

/// The last entries of the keys make the same object as all of the entries, and have distinct keys.
proof fn lemma_last_entries_suffice(
    fields: Seq<(String, Json)>,
    kept: Seq<int>,
    entries: Seq<(String, serde_json::Value)>,
)
    requires
        are_last_entries(fields, kept, fields.len() as int),
        entries.len() == kept.len(),
        forall|j: int|
            0 <= j < kept.len() ==> (#[trigger] entries[j]).0@ == fields[kept[j]].0@ && json_of(
                entries[j].1,
            ) == fields[kept[j]].1@,
    ensures
        distinct_keys(entries),
        json::fields_map(entries_view(entries)) == json::fields_map(json::fields_view(fields)),
{
    let all = json::fields_view(fields);
    let some = entries_view(entries);
    assert forall|i: int, j: int| 0 <= i < j < entries.len() implies (#[trigger] entries[i]).0@ != (
    #[trigger] entries[j]).0@ by {
        assert(kept[i] < kept[j]);
        assert(fields[kept[j]].0@ != fields[kept[i]].0@);
    }
    assert forall|j: int| 0 <= j < some.len() implies {
        &&& json::fields_map(some).contains_key((#[trigger] some[j]).0)
        &&& json::fields_map(all).contains_key(some[j].0)
        &&& json::fields_map(some)[some[j].0] == json::fields_map(all)[some[j].0]
    } by {
        let i = kept[j];
        assert forall|k: int| j < k < some.len() implies (#[trigger] some[k]).0 != some[j].0 by {
            assert(entries[j].0@ != entries[k].0@);
        }
        json::lemma_last_entry(some, some[j].0, j);
        assert(last_of_key(fields, i));
        assert forall|k: int| i < k < all.len() implies (#[trigger] all[k]).0 != all[i].0 by {
            assert(fields[k].0@ != fields[i].0@);
        }
        json::lemma_last_entry(all, all[i].0, i);
        assert(all[i] == some[j]);
    }
    assert forall|key: Seq<char>| #[trigger] json::fields_map(some).contains_key(
        key,
    ) implies json::fields_map(all).contains_key(key) && json::fields_map(some)[key]
        == json::fields_map(all)[key] by {
        let j = json::lemma_key_has_entry(some, key);
        assert(some[j].0 == key);
    }
    assert forall|key: Seq<char>| #[trigger] json::fields_map(all).contains_key(
        key,
    ) implies json::fields_map(some).contains_key(key) by {
        let i = json::lemma_key_has_entry(all, key);
        assert(fields[i].0@ == all[i].0);
        let last = lemma_has_last(fields, i);
        assert(kept.contains(last));
        let j = kept.index_of(last);
        assert(entries[j].0@ == fields[kept[j]].0@);
        assert(some[j].0 == key);
    }
    assert(json::fields_map(some) =~= json::fields_map(all));
}

/// The `serde_json::Value` that holds a value. Of the entries of a key in an object the last one is
/// handed over.
pub fn to_value(value: &Json) -> (result: serde_json::Value)
    ensures
        json_of(result) == value@,
    decreases value,
{
    match value {
        Json::Null => close_value(Shape::Null),
        Json::Bool(b) => close_value(Shape::Bool(*b)),
        Json::Number(number) => close_value(Shape::Number(number.clone())),
        Json::Str(text) => close_value(Shape::Str(text.clone())),
        Json::Array(items) => {
            let mut converted: Vec<serde_json::Value> = Vec::new();
            for i in 0..items.len()
                invariant
                    *value == Json::Array(*items),
                    converted@.len() == i,
                    forall|j: int|
                        0 <= j < i ==> json_of(#[trigger] converted@[j]) == items@[j]@,
            {
                proof {
                    assert(decreases_to!(*value => value->Array_0));
                    assert(decreases_to!(*items => items@));
                    assert(decreases_to!(items@ => items@[i as int]));
                }
                converted.push(to_value(&items[i]));
            }
            assert(row_view(converted@) =~= json::items_view(items@));
            close_value(Shape::Array(converted))
        },
        Json::Object(fields) => {
            let mut converted: Vec<(String, serde_json::Value)> = Vec::new();
            let ghost mut kept: Seq<int> = Seq::empty();
            for i in 0..fields.len()
                invariant
                    *value == Json::Object(*fields),
                    converted@.len() == kept.len(),
                    are_last_entries(fields@, kept, i as int),
                    forall|j: int|
                        0 <= j < kept.len() ==> (#[trigger] converted@[j]).0@ == fields@[kept[j]].0@
                            && json_of(converted@[j].1) == fields@[kept[j]].1@,
            {
                let ghost before = kept;
                if is_last(fields, i) {
                    proof {
                        assert(decreases_to!(*value => value->Object_0));
                        assert(decreases_to!(*fields => fields@));
                        assert(decreases_to!(fields@ => fields@[i as int]));
                        assert(decreases_to!(fields@[i as int] => fields@[i as int].1));
                        kept = kept.push(i as int);
                        assert(kept.last() == i);
                    }
                    converted.push((fields[i].0.clone(), to_value(&fields[i].1)));
                }
                assert(are_last_entries(fields@, kept, i + 1)) by {
                    assert forall|k: int| 0 <= k < i + 1 && last_of_key(
                        fields@,
                        k,
                    ) implies #[trigger] kept.contains(k) by {
                        if k < i {
                            assert(before.contains(k));
                            let j = before.index_of(k);
                            assert(kept[j] == k);
                        } else {
                            assert(kept[before.len() as int] == k);
                        }
                    }
                }
            }
            proof {
                lemma_last_entries_suffice(fields@, kept, converted@);
            }
            close_value(Shape::Object(converted))
        },
    }
}

/// The value that a text holds, or the message that says why it holds none.
pub fn read_json(text: &str) -> (result: Result<Json, String>)
    ensures
        match result {
            Ok(value) => parsed_json(text@) == Ok::<JsonView, Seq<char>>(value@),
            Err(message) => parsed_json(text@) == Err::<JsonView, Seq<char>>(message@),
        },
{
    match parse_value(text) {
        Ok(value) => Ok(to_json(value)),
        Err(message) => Err(message),
    }
}

/// The compact text of a value.
pub fn write_json(value: &Json) -> (result: String)
    ensures
        result@ == printed_json(value@),
{
    print_value(&to_value(value))
}

/// The number value written in a text.
pub open spec fn number_json(text: Seq<char>) -> JsonView {
    JsonView::Number(number_from_text(text)->0)
}

/// The number value written in a text.
pub fn number(text: &str) -> (result: Json)
    requires
        plain_number(text@),
    ensures
        result@ == number_json(text@),
{
    match parse_number(text) {
        Some(number) => Json::Number(number),
        None => Json::Null,
    }
}

/// The number value of an integer.
pub fn integer(n: i64) -> (result: Json)
    ensures
        result@ == JsonView::Number(integer_number(n)),
{
    Json::Number(number_from_integer(n))
}

}
