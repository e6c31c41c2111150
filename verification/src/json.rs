//! JSON documents: a plain data model, and its rendering by `serde_json`.
use vstd::prelude::*;

use crate::text::{optional, texts};

verus! {

/// A JSON value. In an object, the last of two fields with one name wins.
#[derive(Debug, PartialEq, Eq)]
pub enum Json {
    Null,
    Bool(bool),
    Signed(i64),
    Unsigned(u64),
    Text(String),
    Array(Vec<Json>),
    Object(Vec<(String, Json)>),
}

/// What a JSON value is: an object is the map from its names to their values.
pub enum JsonView {
    Null,
    Bool(bool),
    Number(int),
    Text(Seq<char>),
    Array(Seq<JsonView>),
    Object(Map<Seq<char>, JsonView>),
}

/// The map that a list of fields stands for.
pub open spec fn fields_map(fields: Seq<(Seq<char>, JsonView)>) -> Map<Seq<char>, JsonView>
    decreases fields.len(),
{
    if fields.len() == 0 {
        Map::empty()
    } else {
        fields_map(fields.drop_last()).insert(fields.last().0, fields.last().1)
    }
}

/// The object with the given fields.
pub open spec fn object(fields: Seq<(Seq<char>, JsonView)>) -> JsonView {
    JsonView::Object(fields_map(fields))
}

/// The value of a field of an object.
pub open spec fn field(value: JsonView, name: Seq<char>) -> Option<JsonView> {
    match value {
        JsonView::Object(fields) if fields.dom().contains(name) => Some(fields[name]),
        _ => None,
    }
}

/// A field has its value where no later field has its name.
pub proof fn lemma_field(fields: Seq<(Seq<char>, JsonView)>, i: int)
    requires
        0 <= i < fields.len(),
        forall|j: int| i < j < fields.len() ==> (#[trigger] fields[j]).0 != fields[i].0,
    ensures
        field(object(fields), fields[i].0) == Some(fields[i].1),
    decreases fields.len(),
{
    if i < fields.len() - 1 {
        lemma_field(fields.drop_last(), i);
        assert(fields.last().0 != fields[i].0);
    }
}

/// The text itself, or null where there is none.
pub open spec fn optional_text(value: Option<Seq<char>>) -> JsonView {
    match value {
        Some(text) => JsonView::Text(text),
        None => JsonView::Null,
    }
}

/// A list of texts.
pub open spec fn text_array(items: Seq<Seq<char>>) -> JsonView {
    JsonView::Array(items.map_values(|item: Seq<char>| JsonView::Text(item)))
}

/// The number itself, or null where there is none.
pub open spec fn optional_number(value: Option<i64>) -> JsonView {
    match value {
        Some(number) => JsonView::Number(number as int),
        None => JsonView::Null,
    }
}

/// The values of a list of items.
pub open spec fn items_view(items: Seq<Json>) -> Seq<JsonView>
    decreases items,
{
    Seq::new(
        items.len(),
        |i: int| if 0 <= i < items.len() { items[i]@ } else { JsonView::Null },
    )
}

/// The names and values of a list of fields.
pub open spec fn fields_view(fields: Seq<(String, Json)>) -> Seq<(Seq<char>, JsonView)>
    decreases fields,
{
    Seq::new(
        fields.len(),
        |i: int|
            if 0 <= i < fields.len() {
                (fields[i].0@, fields[i].1@)
            } else {
                (Seq::empty(), JsonView::Null)
            },
    )
}

impl View for Json {
    type V = JsonView;

    open spec fn view(&self) -> JsonView
        decreases self,
    {
        match self {
            Json::Null => JsonView::Null,
            Json::Bool(value) => JsonView::Bool(*value),
            Json::Signed(number) => JsonView::Number(*number as int),
            Json::Unsigned(number) => JsonView::Number(*number as int),
            Json::Text(text) => JsonView::Text(text@),
            Json::Array(items) => JsonView::Array(items_view(items@)),
            Json::Object(fields) => JsonView::Object(fields_map(fields_view(fields@))),
        }
    }
}

#[verifier::external_type_specification]
#[verifier::external_body]
pub struct ExValue(serde_json::Value);

#[verifier::external_type_specification]
#[verifier::external_body]
#[verifier::reject_recursive_types(K)]
#[verifier::reject_recursive_types(V)]
pub struct ExMap<K, V>(serde_json::Map<K, V>);

/// What a `serde_json::Value` holds.
pub uninterp spec fn value_content(value: serde_json::Value) -> JsonView;

/// What a `serde_json::Map` holds.
pub uninterp spec fn map_content(map: serde_json::Map<String, serde_json::Value>) -> Map<
    Seq<char>,
    JsonView,
>;

/// The text that `serde_json` gives for a value with this content when it is displayed.
pub uninterp spec fn compact_json(content: JsonView) -> Seq<char>;

/// The text that `serde_json::to_string_pretty` gives for a value with this content.
pub uninterp spec fn pretty_json(content: JsonView) -> Seq<char>;

/// The contents of a list of values.
pub open spec fn contents(values: Seq<serde_json::Value>) -> Seq<JsonView> {
    values.map_values(|value: serde_json::Value| value_content(value))
}

/// `serde_json::Value::Null` holds null.
#[verifier::external_body]
fn null_value() -> (value: serde_json::Value)
    ensures
        value_content(value) == JsonView::Null,
{
    serde_json::Value::Null
}

/// `serde_json::Value::from` of a `bool` holds that truth value.
#[verifier::external_body]
fn bool_value(truth: bool) -> (value: serde_json::Value)
    ensures
        value_content(value) == JsonView::Bool(truth),
{
    serde_json::Value::from(truth)
}

/// `serde_json::Value::from` of an `i64` holds that number.
#[verifier::external_body]
fn signed_value(number: i64) -> (value: serde_json::Value)
    ensures
        value_content(value) == JsonView::Number(number as int),
{
    serde_json::Value::from(number)
}

/// `serde_json::Value::from` of a `u64` holds that number.
#[verifier::external_body]
fn unsigned_value(number: u64) -> (value: serde_json::Value)
    ensures
        value_content(value) == JsonView::Number(number as int),
{
    serde_json::Value::from(number)
}

/// `serde_json::Value::from` of a string slice holds that text.
#[verifier::external_body]
fn text_value(text: &str) -> (value: serde_json::Value)
    ensures
        value_content(value) == JsonView::Text(text@),
{
    serde_json::Value::from(text)
}

/// `serde_json::Value::from` of a vector of values holds the array of what they hold, in order.
#[verifier::external_body]
fn array_value(values: Vec<serde_json::Value>) -> (value: serde_json::Value)
    ensures
        value_content(value) == JsonView::Array(contents(values@)),
{
    serde_json::Value::from(values)
}

/// `serde_json::Map::new` holds nothing.
#[verifier::external_body]
fn empty_map() -> (map: serde_json::Map<String, serde_json::Value>)
    ensures
        map_content(map) == fields_map(Seq::empty()),
{
    serde_json::Map::new()
}

/// `serde_json::Map::insert` gives a name its value, in place of any that it had.
#[verifier::external_body]
fn put_field(
    map: &mut serde_json::Map<String, serde_json::Value>,
    name: String,
    value: serde_json::Value,
)
    ensures
        map_content(*final(map)) == map_content(*old(map)).insert(name@, value_content(value)),
{
    map.insert(name, value);
}

/// `serde_json::Value::from` of a map holds the object that the map holds.
#[verifier::external_body]
fn object_value(map: serde_json::Map<String, serde_json::Value>) -> (value: serde_json::Value)
    ensures
        value_content(value) == JsonView::Object(map_content(map)),
{
    serde_json::Value::from(map)
}

/// `serde_json::Value::to_string`: the text depends on what the value holds alone. A map keeps
/// its fields sorted by name, so the order in which they were put in does not matter.
#[verifier::external_body]
fn compact_text(value: &serde_json::Value) -> (text: String)
    ensures
        text@ == compact_json(value_content(*value)),
{
    value.to_string()
}

/// `serde_json::to_string_pretty` of a value: it succeeds, since every key is a string and the
/// output goes to memory, and the text depends on what the value holds alone.
#[verifier::external_body]
fn pretty_text(value: &serde_json::Value) -> (text: Result<String, String>)
    ensures
        text matches Ok(text) && text@ == pretty_json(value_content(*value)),
{
    serde_json::to_string_pretty(value).map_err(|error| error.to_string())
}

impl Json {
    /// The `serde_json` value with the same content.
    fn to_value(&self) -> (value: serde_json::Value)
        ensures
            value_content(value) == self@,
        decreases self,
    {
        match self {
            Json::Null => null_value(),
            Json::Bool(truth) => bool_value(*truth),
            Json::Signed(number) => signed_value(*number),
            Json::Unsigned(number) => unsigned_value(*number),
            Json::Text(text) => text_value(text.as_str()),
            Json::Array(items) => {
                let mut values: Vec<serde_json::Value> = Vec::new();
                for i in 0..items.len()
                    invariant
                        self matches Json::Array(held) && held == items,
                        values.len() == i,
                        forall|j: int| 0 <= j < i ==> value_content(#[trigger] values[j]) == items[j]@,
                {
                    assert(decreases_to!(self => items@[i as int]));
                    values.push(items[i].to_value());
                }
                assert(contents(values@) =~= items_view(items@));
                array_value(values)
            },
            Json::Object(fields) => {
                let mut map = empty_map();
                for i in 0..fields.len()
                    invariant
                        self matches Json::Object(held) && held == fields,
                        map_content(map) == fields_map(fields_view(fields@).take(i as int)),
                {
                    assert(decreases_to!(self => fields@[i as int]));
                    assert(decreases_to!(fields@[i as int] => fields@[i as int].1));
                    put_field(&mut map, fields[i].0.clone(), fields[i].1.to_value());
                    let ghost seen = fields_view(fields@).take(i + 1);
                    assert(seen.drop_last() =~= fields_view(fields@).take(i as int));
                }
                assert(fields_view(fields@).take(fields@.len() as int) =~= fields_view(fields@));
                object_value(map)
            },
        }
    }

    /// A text.
    pub(crate) fn text(text: &str) -> (value: Json)
        ensures
            value@ == JsonView::Text(text@),
    {
        Json::Text(text.to_string())
    }

    /// A text, or null where there is none.
    pub(crate) fn optional_text(text: &Option<String>) -> (value: Json)
        ensures
            value@ == optional_text(optional(*text)),
    {
        match text {
            Some(text) => Json::Text(text.clone()),
            None => Json::Null,
        }
    }

    /// A number, or null where there is none.
    pub(crate) fn optional_number(number: Option<i64>) -> (value: Json)
        ensures
            value@ == optional_number(number),
    {
        match number {
            Some(number) => Json::Signed(number),
            None => Json::Null,
        }
    }

    /// An array of texts.
    pub(crate) fn texts(items: &Vec<String>) -> (value: Json)
        ensures
            value@ == text_array(texts(items@)),
    {
        let mut values: Vec<Json> = Vec::new();
        for i in 0..items.len()
            invariant
                values.len() == i,
                forall|j: int|
                    0 <= j < i ==> (#[trigger] values@[j])@ == JsonView::Text(items@[j]@),
        {
            values.push(Json::Text(items[i].clone()));
        }
        assert(items_view(values@) =~= texts(items@).map_values(
            |item: Seq<char>| JsonView::Text(item),
        ));
        Json::Array(values)
    }

    /// The document on one line.
    pub fn to_string(&self) -> (text: String)
        ensures
            text@ == compact_json(self@),
    {
        let value = self.to_value();
        compact_text(&value)
    }

    /// The document over several lines, indented.
    pub fn to_string_pretty(&self) -> (text: Result<String, String>)
        ensures
            text matches Ok(text) && text@ == pretty_json(self@),
    {
        let value = self.to_value();
        pretty_text(&value)
    }
}

} // verus!
