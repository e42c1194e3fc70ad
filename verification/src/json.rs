//! JSON, read one level at a time.
//!
//! A JSON value is held as its compact text. [`read_json`] opens one level of it: the entries of a
//! list or a table come back as compact texts again.

use vstd::prelude::*;

verus! {

/// One level of a JSON value.
#[derive(Debug, PartialEq, Eq)]
pub enum Json {
    Null,
    Bool(bool),
    /// The number as JSON writes it.
    Number(String),
    Text(String),
    /// Each item's compact text.
    List(Vec<String>),
    /// Each entry's key and its value's compact text.
    Table(Vec<(String, String)>),
}

/// What a [`Json`] says.
pub enum JsonView {
    Null,
    Bool(bool),
    Number(Seq<char>),
    Text(Seq<char>),
    List(Seq<Seq<char>>),
    Table(Seq<(Seq<char>, Seq<char>)>),
}

/// The texts of a list of string pairs.
pub open spec fn pairs(list: Seq<(String, String)>) -> Seq<(Seq<char>, Seq<char>)> {
    Seq::new(list.len(), |i: int| (list[i].0@, list[i].1@))
}

impl View for Json {
    type V = JsonView;

    open spec fn view(&self) -> JsonView {
        match *self {
            Json::Null => JsonView::Null,
            Json::Bool(b) => JsonView::Bool(b),
            Json::Number(n) => JsonView::Number(n@),
            Json::Text(t) => JsonView::Text(t@),
            Json::List(items) => JsonView::List(crate::text::strings(items@)),
            Json::Table(entries) => JsonView::Table(pairs(entries@)),
        }
    }
}

/// What `serde_json::from_str` reads in a text, opened one level; `None` for a text that is not
/// JSON.
pub uninterp spec fn json_level(text: Seq<char>) -> Option<JsonView>;

/// The text `serde_json` writes for the value it reads in `text`; `None` for a text that is not
/// JSON.
pub uninterp spec fn compact_json(text: Seq<char>) -> Option<Seq<char>>;

/// The JSON string literal `serde_json` writes for a text.
pub uninterp spec fn json_literal(text: Seq<char>) -> Seq<char>;

/// Calls `serde_json::from_str` for a `serde_json::Value` and hands out its variant; a nested value
/// is written back as text by its `Display`. The result is a function of the text.
#[verifier::external_body]
pub(crate) fn read_json(text: &str) -> (level: Option<Json>)
    ensures
        json_level(text@) == (match level {
            Some(json) => Some(json@),
            None => None,
        }),
{
    Some(match serde_json::from_str::<serde_json::Value>(text).ok()? {
        serde_json::Value::Null => Json::Null,
        serde_json::Value::Bool(b) => Json::Bool(b),
        serde_json::Value::Number(n) => Json::Number(n.to_string()),
        serde_json::Value::String(s) => Json::Text(s),
        serde_json::Value::Array(a) => Json::List(a.iter().map(serde_json::Value::to_string).collect()),
        serde_json::Value::Object(o) => Json::Table(o.into_iter().map(|(k, v)| (k, v.to_string())).collect()),
    })
}

/// Calls `serde_json::from_str` for a `serde_json::Value` and writes it back with its `Display`,
/// which is compact. The result is a function of the text.
#[verifier::external_body]
pub(crate) fn compact(text: &str) -> (out: Option<String>)
    ensures
        compact_json(text@) == crate::text::optional(out),
{
    serde_json::from_str::<serde_json::Value>(text).ok().map(|value| value.to_string())
}

/// Writes a `serde_json::Value::String` with its `Display`. The literal is a function of the text,
/// and reading it gives the text back.
#[verifier::external_body]
pub(crate) fn literal(text: &str) -> (out: String)
    ensures
        out@ == json_literal(text@),
        json_level(out@) == Some(JsonView::Text(text@)),
{
    serde_json::Value::String(text.to_owned()).to_string()
}

/// Why `serde_json::from_str` reads no value in a text; `None` where it reads one.
pub uninterp spec fn json_error(text: Seq<char>) -> Option<Seq<char>>;

/// Calls `serde_json::from_str` for a `serde_json::Value` and hands out the error's `Display`. The
/// result is a function of the text, and there is an error exactly where no value is read.
#[verifier::external_body]
pub(crate) fn error_of(text: &str) -> (error: Option<String>)
    ensures
        json_error(text@) == crate::text::optional(error),
        error is None <==> json_level(text@) is Some,
{
    serde_json::from_str::<serde_json::Value>(text).err().map(|error| error.to_string())
}

/// The text `serde_json::to_string_pretty` writes for an object; `None` where a value is no JSON.
pub uninterp spec fn pretty_json(entries: Seq<(Seq<char>, Seq<char>)>) -> Option<Seq<char>>;

/// Whether a value is written as `serde_json` writes it.
pub open spec fn is_compact(value: Seq<char>) -> bool {
    compact_json(value) == Some(value)
}

/// Calls `serde_json::to_string_pretty` on the object of the entries, whose values `serde_json`
/// reads. The result is a function of the entries, and there is none exactly where a value is not
/// read. Reading what was written, with a newline behind it, gives the entries back where their
/// values are compact; it may fail to read only by nesting too deep, since the object adds a level.
#[verifier::external_body]
pub(crate) fn pretty(entries: &Vec<(String, String)>) -> (out: Option<String>)
    ensures
        pretty_json(pairs(entries@)) == crate::text::optional(out),
        out is None ==> exists|i: int|
            0 <= i < entries@.len() && compact_json((#[trigger] entries@[i]).1@) is None,
        out is Some ==> forall|i: int|
            0 <= i < entries@.len() ==> compact_json((#[trigger] entries@[i]).1@) is Some,
        out matches Some(text) ==> (forall|i: int|
            0 <= i < entries@.len() ==> is_compact((#[trigger] entries@[i]).1@)) ==> match json_level(
            text@ + "\n"@,
        ) {
            Some(JsonView::Table(read)) => crate::table::map_of(read) == crate::table::map_of(pairs(entries@)),
            Some(_) => false,
            None => true,
        },
{
    let object: Option<serde_json::Map<String, serde_json::Value>> =
        entries.iter().map(|(key, value)| Some((key.clone(), serde_json::from_str(value).ok()?))).collect();
    serde_json::to_string_pretty(&object?).ok()
}

/// Whether `serde_json` holds the values it reads in two texts equal; `None` where one is no JSON.
pub uninterp spec fn json_equal(a: Seq<char>, b: Seq<char>) -> Option<bool>;

/// Whether a text may write the float zero with a minus sign, the one value that has two writings.
pub open spec fn may_hold_minus_zero(text: Seq<char>) -> bool {
    crate::text::contains(text, "-0.0"@)
}

/// Calls `serde_json::from_str` for two values of `serde_json::Value` and compares them with `==`. The
/// result is a function of the two texts, and there is one exactly where both are JSON. Values that
/// are written alike are equal, and values that are written otherwise are not, where neither writing
/// may hold a minus zero, which equals zero.
#[verifier::external_body]
pub(crate) fn equal(a: &str, b: &str) -> (verdict: Option<bool>)
    ensures
        verdict == json_equal(a@, b@),
        verdict is Some <==> (compact_json(a@) is Some && compact_json(b@) is Some),
        verdict is Some && compact_json(a@) == compact_json(b@) ==> verdict == Some(true),
        verdict is Some && compact_json(a@) != compact_json(b@) && !may_hold_minus_zero(compact_json(a@)->Some_0)
            && !may_hold_minus_zero(compact_json(b@)->Some_0) ==> verdict == Some(false),
{
    let a: serde_json::Value = serde_json::from_str(a).ok()?;
    let b: serde_json::Value = serde_json::from_str(b).ok()?;
    Some(a == b)
}

/// Whether two texts are the same JSON value; a text that is no JSON is only the same as itself.
pub open spec fn same_json(a: Seq<char>, b: Seq<char>) -> bool {
    a == b || json_equal(a, b) == Some(true)
}

/// Compares two JSON values.
pub fn same_value(a: &str, b: &str) -> (same: bool)
    ensures
        same == same_json(a@, b@),
        is_compact(a@) && is_compact(b@) && !may_hold_minus_zero(a@) && !may_hold_minus_zero(b@) ==> same == (a@
            == b@),
{
    crate::text::same(a, b) || match equal(a, b) {
        Some(equal) => equal,
        None => false,
    }
}

/// Whether two objects hold the same keys with the same values.
pub open spec fn same_object(a: Map<Seq<char>, Seq<char>>, b: Map<Seq<char>, Seq<char>>) -> bool {
    &&& a.dom() == b.dom()
    &&& forall|k: Seq<char>| #[trigger] a.contains_key(k) ==> same_json(a[k], b[k])
}

/// A word from a command line as a JSON value: JSON when it parses, a string otherwise.
pub open spec fn word_value(text: Seq<char>) -> Seq<char> {
    match compact_json(text) {
        Some(value) => value,
        None => json_literal(text),
    }
}

/// The word's value, given what reading it as JSON and quoting it gave.
pub fn choose_value(parsed: Option<String>, quoted: String) -> (value: String)
    ensures
        value@ == (match parsed {
            Some(json) => json@,
            None => quoted@,
        }),
{
    match parsed {
        Some(json) => json,
        None => quoted,
    }
}

/// Reads a word from a command line as a JSON value.
pub fn value_of_word(text: &str) -> (value: String)
    ensures
        value@ == word_value(text@),
{
    choose_value(compact(text), literal(text))
}

/// A word is the JSON it reads as, and a text where it reads as none.
pub proof fn a_word_is_json_or_a_text(word: Seq<char>, value: Seq<char>)
    ensures
        compact_json(word) == Some(value) ==> word_value(word) == value,
        compact_json(word) is None ==> word_value(word) == json_literal(word),
{
}

/// An object is the same as itself, and not as one with another key or with a value that is another.
pub proof fn an_object_is_its_keys_and_values(
    a: Map<Seq<char>, Seq<char>>,
    b: Map<Seq<char>, Seq<char>>,
    key: Seq<char>,
)
    ensures
        same_object(a, a),
        same_object(a, b) ==> (a.contains_key(key) <==> b.contains_key(key)),
        same_object(a, b) && a.contains_key(key) ==> a[key] == b[key] || json_equal(a[key], b[key]) == Some(true),
{
    if same_object(a, b) {
        assert(a.dom().contains(key) == b.dom().contains(key));
    }
}

} // verus!
