//! JSON values: the model that contracts speak of, reading a field, setting a field, and the text
//! of a value.

use vstd::prelude::*;

verus! {

/// A JSON value. Where a key stands more than once in an object, its last entry counts.
#[derive(Debug, PartialEq)]
pub enum Json {
    Null,
    Bool(bool),
    Number(serde_json::Number),
    Str(String),
    Array(Vec<Json>),
    Object(Vec<(String, Json)>),
}

/// What a JSON value is: an object is a map from keys to values.
pub enum JsonView {
    Null,
    Bool(bool),
    Number(serde_json::Number),
    Str(Seq<char>),
    Array(Seq<JsonView>),
    Object(Map<Seq<char>, JsonView>),
}

/// A number of a JSON text, an integer or a float, which is carried through and never read.
#[verifier::external_type_specification]
#[verifier::external_body]
pub struct ExNumber(serde_json::Number);

/// The map that a row of entries stands for: the last entry of a key counts.
pub open spec fn fields_map(fields: Seq<(Seq<char>, JsonView)>) -> Map<Seq<char>, JsonView>
    decreases fields.len(),
{
    if fields.len() == 0 {
        Map::empty()
    } else {
        fields_map(fields.drop_last()).insert(fields.last().0, fields.last().1)
    }
}

/// The model of a JSON value.
pub open spec fn json_view(json: Json) -> JsonView
    decreases json,
{
    match json {
        Json::Null => JsonView::Null,
        Json::Bool(b) => JsonView::Bool(b),
        Json::Number(number) => JsonView::Number(number),
        Json::Str(text) => JsonView::Str(text@),
        Json::Array(items) => JsonView::Array(items_view(items@)),
        Json::Object(fields) => JsonView::Object(fields_map(fields_view(fields@))),
    }
}

/// The models of a row of JSON values.
pub open spec fn items_view(items: Seq<Json>) -> Seq<JsonView>
    decreases items,
{
    Seq::new(
        items.len(),
        |i: int|
            if 0 <= i < items.len() {
                json_view(items[i])
            } else {
                JsonView::Null
            },
    )
}

/// The models of a row of entries.
pub open spec fn fields_view(fields: Seq<(String, Json)>) -> Seq<(Seq<char>, JsonView)>
    decreases fields,
{
    Seq::new(
        fields.len(),
        |i: int|
            if 0 <= i < fields.len() {
                (fields[i].0@, json_view(fields[i].1))
            } else {
                (Seq::empty(), JsonView::Null)
            },
    )
}

impl View for Json {
    type V = JsonView;

    open spec fn view(&self) -> JsonView {
        json_view(*self)
    }
}

impl JsonView {
    /// The value at a key of an object.
    pub open spec fn get(self, key: Seq<char>) -> Option<JsonView> {
        match self {
            JsonView::Object(fields) => if fields.contains_key(key) {
                Some(fields[key])
            } else {
                None
            },
            _ => None,
        }
    }

    /// The item of an array at a position.
    pub open spec fn at(self, i: int) -> Option<JsonView> {
        match self {
            JsonView::Array(items) => if 0 <= i < items.len() {
                Some(items[i])
            } else {
                None
            },
            _ => None,
        }
    }

    /// The text of a string value.
    pub open spec fn text(self) -> Option<Seq<char>> {
        match self {
            JsonView::Str(text) => Some(text),
            _ => None,
        }
    }

    /// The items of an array.
    pub open spec fn items(self) -> Option<Seq<JsonView>> {
        match self {
            JsonView::Array(items) => Some(items),
            _ => None,
        }
    }

    /// The text of the string value at a key of an object.
    pub open spec fn text_at(self, key: Seq<char>) -> Option<Seq<char>> {
        match self.get(key) {
            Some(value) => value.text(),
            None => None,
        }
    }

    /// The items of the array at a key of an object.
    pub open spec fn items_at(self, key: Seq<char>) -> Option<Seq<JsonView>> {
        match self.get(key) {
            Some(value) => value.items(),
            None => None,
        }
    }

    /// Whether a field can be set in this value: it is an object, or null, which then becomes one.
    pub open spec fn takes_fields(self) -> bool {
        self is Object || self is Null
    }

    /// The value with a field set.
    pub open spec fn with(self, key: Seq<char>, value: JsonView) -> JsonView {
        match self {
            JsonView::Object(fields) => JsonView::Object(fields.insert(key, value)),
            _ => JsonView::Object(Map::empty().insert(key, value)),
        }
    }
}

/// The empty object.
pub open spec fn empty_object() -> JsonView {
    JsonView::Object(Map::empty())
}

/// The last entry of a key is the one that the map holds.
pub proof fn lemma_last_entry(fields: Seq<(Seq<char>, JsonView)>, key: Seq<char>, i: int)
    requires
        0 <= i < fields.len(),
        fields[i].0 == key,
        forall|j: int| i < j < fields.len() ==> (#[trigger] fields[j]).0 != key,
    ensures
        fields_map(fields).contains_key(key),
        fields_map(fields)[key] == fields[i].1,
    decreases fields.len(),
{
    if i < fields.len() - 1 {
        assert(fields[fields.len() - 1].0 != key);
        assert forall|j: int| i < j < fields.drop_last().len() implies (
        #[trigger] fields.drop_last()[j]).0 != key by {
            assert(fields.drop_last()[j] == fields[j]);
        }
        lemma_last_entry(fields.drop_last(), key, i);
    }
}

/// The map of a row of entries has finitely many keys.
pub proof fn lemma_fields_finite(fields: Seq<(Seq<char>, JsonView)>)
    ensures
        fields_map(fields).dom().finite(),
    decreases fields.len(),
{
    if fields.len() > 0 {
        lemma_fields_finite(fields.drop_last());
    }
}

/// A key of the map has an entry.
pub proof fn lemma_key_has_entry(fields: Seq<(Seq<char>, JsonView)>, key: Seq<char>) -> (i: int)
    requires
        fields_map(fields).contains_key(key),
    ensures
        0 <= i < fields.len(),
        fields[i].0 == key,
    decreases fields.len(),
{
    if fields.len() == 0 || fields.last().0 == key {
        fields.len() - 1
    } else {
        lemma_key_has_entry(fields.drop_last(), key)
    }
}

/// A key without an entry is not in the map.
proof fn lemma_no_entry(fields: Seq<(Seq<char>, JsonView)>, key: Seq<char>)
    requires
        forall|j: int| 0 <= j < fields.len() ==> (#[trigger] fields[j]).0 != key,
    ensures
        !fields_map(fields).contains_key(key),
    decreases fields.len(),
{
    if fields.len() > 0 {
        assert(fields[fields.len() - 1].0 != key);
        assert forall|j: int| 0 <= j < fields.drop_last().len() implies (
        #[trigger] fields.drop_last()[j]).0 != key by {
            assert(fields.drop_last()[j] == fields[j]);
        }
        lemma_no_entry(fields.drop_last(), key);
    }
}

impl Json {
    /// The value at a key of an object.
    pub fn get(&self, key: &str) -> (result: Option<&Json>)
        ensures
            match result {
                Some(value) => self@.get(key@) == Some(value@),
                None => self@.get(key@) is None,
            },
    {
        match self {
            Json::Object(fields) => {
                let ghost entries = fields_view(fields@);
                let mut i: usize = fields.len();
                while i > 0
                    invariant
                        i <= fields@.len(),
                        entries == fields_view(fields@),
                        self@ == JsonView::Object(fields_map(entries)),
                        forall|j: int| i <= j < entries.len() ==> (#[trigger] entries[j]).0 != key@,
                    decreases i,
                {
                    i = i - 1;
                    if crate::text::same_text(&fields[i].0, key) {
                        proof {
                            lemma_last_entry(entries, key@, i as int);
                        }
                        return Some(&fields[i].1);
                    }
                }
                proof {
                    lemma_no_entry(entries, key@);
                }
                None
            },
            _ => None,
        }
    }

    /// The item of an array at a position.
    pub fn at(&self, i: usize) -> (result: Option<&Json>)
        ensures
            match result {
                Some(value) => self@.at(i as int) == Some(value@),
                None => self@.at(i as int) is None,
            },
    {
        match self {
            Json::Array(items) => {
                if i < items.len() {
                    Some(&items[i])
                } else {
                    None
                }
            },
            _ => None,
        }
    }

    /// The text of a string value.
    pub fn as_str(&self) -> (result: Option<&str>)
        ensures
            match result {
                Some(text) => self@.text() == Some(text@),
                None => self@.text() is None,
            },
    {
        match self {
            Json::Str(text) => Some(text.as_str()),
            _ => None,
        }
    }

    /// The items of an array.
    pub fn as_array(&self) -> (result: Option<&Vec<Json>>)
        ensures
            match result {
                Some(items) => self@.items() == Some(items_view(items@)),
                None => self@.items() is None,
            },
    {
        match self {
            Json::Array(items) => {
                Some(items)
            },
            _ => None,
        }
    }

    /// The text of the string value at a key of an object.
    pub fn text_at(&self, key: &str) -> (result: Option<&str>)
        ensures
            match result {
                Some(text) => self@.text_at(key@) == Some(text@),
                None => self@.text_at(key@) is None,
            },
    {
        match self.get(key) {
            Some(value) => value.as_str(),
            None => None,
        }
    }

    /// The items of the array at a key of an object.
    pub fn items_at(&self, key: &str) -> (result: Option<&Vec<Json>>)
        ensures
            match result {
                Some(items) => self@.items_at(key@) == Some(items_view(items@)),
                None => self@.items_at(key@) is None,
            },
    {
        match self.get(key) {
            Some(value) => value.as_array(),
            None => None,
        }
    }

    /// The empty object.
    pub fn object() -> (result: Json)
        ensures
            result@ == empty_object(),
    {
        let fields: Vec<(String, Json)> = Vec::new();
        proof {
            assert(fields_view(fields@) =~= Seq::empty());
        }
        Json::Object(fields)
    }

    /// A string value.
    pub fn string(text: &str) -> (result: Json)
        ensures
            result@ == JsonView::Str(text@),
    {
        Json::Str(text.to_owned())
    }

    /// An array of values.
    pub fn array(items: Vec<Json>) -> (result: Json)
        ensures
            result@ == JsonView::Array(items_view(items@)),
    {
        Json::Array(items)
    }

    /// The value with a field set.
    pub fn with(self, key: &str, value: Json) -> (result: Json)
        requires
            self@.takes_fields(),
        ensures
            result@ == self@.with(key@, value@),
    {
        match self {
            Json::Object(fields) => {
                let mut fields = fields;
                let ghost before = fields;
                fields.push((key.to_owned(), value));
                proof {
                    assert(fields_view(fields@).drop_last() =~= fields_view(before@));
                }
                Json::Object(fields)
            },
            _ => {
                let mut fields: Vec<(String, Json)> = Vec::new();
                fields.push((key.to_owned(), value));
                proof {
                    assert(fields_view(fields@).drop_last() =~= Seq::empty());
                    assert(fields_map(Seq::empty()) == Map::<Seq<char>, JsonView>::empty());
                }
                Json::Object(fields)
            },
        }
    }

    /// Sets a field of an object.
    pub fn set(&mut self, key: &str, value: Json)
        requires
            old(self)@.takes_fields(),
        ensures
            final(self)@ == old(self)@.with(key@, value@),
    {
        let mut taken = Json::Null;
        std::mem::swap(self, &mut taken);
        *self = taken.with(key, value);
    }

    /// A copy of the value.
    pub fn copy(&self) -> (result: Json)
        ensures
            result@ == self@,
        decreases self,
    {
        match self {
            Json::Null => Json::Null,
            Json::Bool(b) => Json::Bool(*b),
            Json::Number(number) => Json::Number(number.clone()),
            Json::Str(text) => Json::Str(text.clone()),
            Json::Array(items) => {
                let mut copies: Vec<Json> = Vec::new();
                for i in 0..items.len()
                    invariant
                        *self == Json::Array(*items),
                        copies@.len() == i,
                        forall|j: int| 0 <= j < i ==> (#[trigger] copies@[j])@ == items@[j]@,
                {
                    proof {
                        assert(decreases_to!(*self => self->Array_0));
                        assert(decreases_to!(*items => items@));
                        assert(decreases_to!(items@ => items@[i as int]));
                    }
                    copies.push(items[i].copy());
                }
                assert(items_view(copies@) =~= items_view(items@));
                Json::Array(copies)
            },
            Json::Object(fields) => {
                let mut copies: Vec<(String, Json)> = Vec::new();
                for i in 0..fields.len()
                    invariant
                        *self == Json::Object(*fields),
                        copies@.len() == i,
                        forall|j: int|
                            0 <= j < i ==> (#[trigger] copies@[j]).0@ == fields@[j].0@
                                && copies@[j].1@ == fields@[j].1@,
                {
                    proof {
                        assert(decreases_to!(*self => self->Object_0));
                        assert(decreases_to!(*fields => fields@));
                        assert(decreases_to!(fields@ => fields@[i as int]));
                        assert(decreases_to!(fields@[i as int] => fields@[i as int].1));
                    }
                    copies.push((fields[i].0.clone(), fields[i].1.copy()));
                }
                assert(fields_view(copies@) =~= fields_view(fields@));
                Json::Object(copies)
            },
        }
    }
}

}
