//! JSON values as the hub carries them: opaque to its logic, except that a
//! JSON string (a compact JWS, most often) is read by its content.

use vstd::prelude::*;

use crate::text::holds_run;

verus! {

/// A JSON value.
#[derive(Debug, PartialEq, Eq)]
pub enum JsonValue {
    /// A JSON string, by its content.
    Text(String),
    /// Any other JSON value, by its compact serialization.
    Json(String),
}

/// What a [`JsonValue`] holds.
pub enum JsonView {
    Text(Seq<char>),
    Json(Seq<char>),
}

impl View for JsonValue {
    type V = JsonView;

    open spec fn view(&self) -> JsonView {
        match self {
            JsonValue::Text(s) => JsonView::Text(s@),
            JsonValue::Json(s) => JsonView::Json(s@),
        }
    }
}

/// What `serde_json` writes for a JSON string with this content.
pub uninterp spec fn quoted(content: Seq<char>) -> Seq<char>;

/// The value that `serde_json` reads in a text, `None` where the text is not
/// JSON. A value that is not a string is given by its own serialization.
pub uninterp spec fn parsed(text: Seq<char>) -> Option<JsonView>;

/// The text that stands for a value in the graph.
pub open spec fn encoded(value: JsonView) -> Seq<char> {
    match value {
        JsonView::Text(s) => quoted(s),
        JsonView::Json(s) => s,
    }
}

/// The value that a text of the graph stands for: the JSON value it parses to,
/// or else a JSON string of the text itself.
pub open spec fn decoded(text: Seq<char>) -> JsonView {
    match parsed(text) {
        Some(value) => value,
        None => JsonView::Text(text),
    }
}

/// Whether reading the value's own text gives back the value.
pub open spec fn canonical(value: JsonView) -> bool {
    decoded(encoded(value)) == value
}

/// Whether a number with a fraction or an exponent stands in a compact JSON text
/// from position `i` on. `inside` says whether `i` is inside a JSON string.
pub open spec fn float_from(text: Seq<char>, i: int, inside: bool) -> bool
    decreases text.len() - i + 1,
{
    if i >= text.len() {
        false
    } else if inside {
        if text[i] == '\\' {
            float_from(text, i + 2, true)
        } else {
            float_from(text, i + 1, text[i] != '"')
        }
    } else {
        ||| '0' <= text[i] <= '9' && i + 1 < text.len() && (text[i + 1] == '.' || text[i + 1]
            == 'e')
        ||| float_from(text, i + 1, text[i] == '"')
    }
}

/// Whether a value holds a number with a fraction or an exponent.
pub open spec fn holds_float(value: JsonView) -> bool {
    value matches JsonView::Json(text) && float_from(text, 0, false)
}

/// Whether arrays and objects stand more than `room` deep in a compact JSON text
/// from position `i` on. `inside` says whether `i` is inside a JSON string.
pub open spec fn deeper_from(text: Seq<char>, i: int, inside: bool, room: int) -> bool
    decreases text.len() - i + 1,
{
    if i >= text.len() {
        false
    } else if inside {
        if text[i] == '\\' {
            deeper_from(text, i + 2, true, room)
        } else {
            deeper_from(text, i + 1, text[i] != '"', room)
        }
    } else if text[i] == '[' || text[i] == '{' {
        room <= 0 || deeper_from(text, i + 1, false, room - 1)
    } else if text[i] == ']' || text[i] == '}' {
        deeper_from(text, i + 1, false, room + 1)
    } else {
        deeper_from(text, i + 1, text[i] == '"', room)
    }
}

/// How deep arrays and objects may stand in each other for `serde_json` to read
/// them.
pub const MAX_DEPTH: u32 = 127;

/// Whether a value is nested deeper than `serde_json` reads.
pub open spec fn is_too_deep(value: JsonView) -> bool {
    value matches JsonView::Json(text) && deeper_from(text, 0, false, MAX_DEPTH as int)
}

/// How an object starts that `serde_json` takes for a raw value.
pub const RAW_VALUE_START: &'static str = "{\"$serde_json::private::RawValue\":";

/// Whether a value holds an object that `serde_json` takes for a raw value.
pub open spec fn holds_raw(value: JsonView) -> bool {
    value matches JsonView::Json(text) && holds_run(text, RAW_VALUE_START@)
}

/// Whether `serde_json` reads a value that it wrote as that value: every number
/// in it is an integer, it is not nested too deep, and no object in it starts
/// with the name that stands for a raw value.
pub open spec fn reads_exactly(value: JsonView) -> bool {
    !holds_float(value) && !is_too_deep(value) && !holds_raw(value)
}

/// Calls `to_string` on a `serde_json::Value::String`. It writes the JSON
/// string with that content, and `serde_json::from_str` reads that content back
/// out of it.
#[verifier::external_body]
fn quote(content: &str) -> (res: String)
    ensures
        res@ == quoted(content@),
        parsed(res@) == Some(JsonView::Text(content@)),
{
    serde_json::Value::String(content.to_string()).to_string()
}

/// Calls `serde_json::from_str` for a `serde_json::Value`: `None` where it
/// reports an error, the content of a JSON string, and the serialization of any
/// other value. What it read it reads again out of the value's serialization,
/// with three reservations. A number with a fraction or an exponent may change in
/// its last digit. An object whose first name is the one that `serde_json` keeps
/// for a raw value is read as that raw value (its feature `raw_value` is on,
/// `arbitrary_precision`, which keeps another name, is off). And what nests deeper
/// than its limit is an error; only a raw value can bring a value that does.
#[verifier::external_body]
fn parse(text: &str) -> (res: Option<JsonValue>)
    ensures
        res is Some == parsed(text@) is Some,
        res matches Some(value) ==> parsed(text@) == Some(value@),
        res matches Some(value) ==> (reads_exactly(value@) ==> canonical(value@)),
{
    match serde_json::from_str::<serde_json::Value>(text) {
        Ok(serde_json::Value::String(content)) => Some(JsonValue::Text(content)),
        Ok(value) => Some(JsonValue::Json(value.to_string())),
        Err(_) => None,
    }
}

/// The text that stands for `value` in the graph. A JSON string always reads
/// back as itself.
pub fn encode_payload(value: &JsonValue) -> (res: String)
    ensures
        res@ == encoded(value@),
        value is Text ==> canonical(value@),
{
    match value {
        JsonValue::Text(content) => quote(content.as_str()),
        JsonValue::Json(text) => text.clone(),
    }
}

/// The value that a text of the graph stands for. A text that is not JSON is
/// kept as a JSON string rather than dropped. What was decoded is decoded again
/// out of its own text.
pub fn decode_payload(literal: String) -> (res: JsonValue)
    ensures
        res@ == decoded(literal@),
        parsed(literal@) is Some && reads_exactly(res@) ==> canonical(res@),
{
    match parse(literal.as_str()) {
        Some(value) => value,
        None => JsonValue::Text(literal),
    }
}

/// Whether a value is an object with at least one member: the only value whose
/// compact serialization starts with a brace and is longer than the two of an
/// empty object.
pub open spec fn is_nonempty_object(value: JsonView) -> bool {
    value matches JsonView::Json(text) && text.len() > 2 && text[0] == '{'
}

impl JsonValue {
    /// The value that a JSON text holds, `None` where the text is not JSON.
    pub fn from_text(text: &str) -> (res: Option<Self>)
        ensures
            res is Some == parsed(text@) is Some,
            res matches Some(value) ==> parsed(text@) == Some(value@),
            res matches Some(value) ==> (reads_exactly(value@) ==> canonical(value@)),
    {
        parse(text)
    }

    /// Whether the graph gives the value back as it is.
    pub fn reads_back(&self) -> (res: bool)
        ensures
            res == canonical(self@),
            self is Text ==> res,
    {
        let literal = encode_payload(self);
        match (parse(literal.as_str()), self) {
            (Some(JsonValue::Text(a)), JsonValue::Text(b)) => a == *b,
            (Some(JsonValue::Json(a)), JsonValue::Json(b)) => a == *b,
            (None, JsonValue::Text(b)) => literal == *b,
            _ => false,
        }
    }

    /// Whether the value is an object with at least one member.
    pub fn nonempty_object(&self) -> (res: bool)
        ensures
            res == is_nonempty_object(self@),
    {
        match self {
            JsonValue::Text(_) => false,
            JsonValue::Json(text) => text.as_str().unicode_len() > 2 && text.as_str().get_char(0)
                == '{',
        }
    }

    /// The content, where the value is a JSON string.
    pub fn as_str(&self) -> (res: Option<&str>)
        ensures
            res is Some == self is Text,
            res matches Some(s) ==> self@ == JsonView::Text(s@),
    {
        match self {
            JsonValue::Text(content) => Some(content.as_str()),
            JsonValue::Json(_) => None,
        }
    }
}

impl Clone for JsonValue {
    fn clone(&self) -> (res: Self)
        ensures
            res@ == self@,
            res is Text == self is Text,
    {
        match self {
            JsonValue::Text(content) => JsonValue::Text(content.clone()),
            JsonValue::Json(text) => JsonValue::Json(text.clone()),
        }
    }
}

/// How a value stands in the graph and is read out of it: as its JSON text, and as
/// the value that the text parses to, or as a JSON string of a text that is not
/// JSON.
pub proof fn law_values_stand_as_json(text: Seq<char>)
    ensures
        encoded(JsonView::Text(text)) == quoted(text),
        encoded(JsonView::Json(text)) == text,
        parsed(text) matches Some(value) ==> decoded(text) == value,
        parsed(text) is None ==> decoded(text) == JsonView::Text(text),
{
}

/// Only a value whose compact text starts with a brace and is longer than the two
/// of an empty object is an object with a member; a JSON string never is.
pub proof fn law_objects_with_members(text: Seq<char>)
    ensures
        !is_nonempty_object(JsonView::Text(text)),
        is_nonempty_object(JsonView::Json(text)) <==> text.len() > 2 && text[0] == '{',
{
}

/// Values read as they stand.
pub proof fn law_values_read_as_they_stand(value: JsonValue)
    ensures
        value matches JsonValue::Text(x) ==> value@ == JsonView::Text(x@),
        value matches JsonValue::Json(x) ==> value@ == JsonView::Json(x@),
{
}

/// A value reads back where its own text gives it back.
pub proof fn law_values_that_read_back(value: JsonView)
    ensures
        canonical(value) <==> decoded(encoded(value)) == value,
{
}

} // verus!
