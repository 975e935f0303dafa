//! What the library has from `serde_json`: the reading of an array of strings,
//! the writing of a string literal, and the reading of one place of a document.

use crate::text::{chars_of, opt_chars, parse_decimal, parse_i64, parse_signed, parse_u64, strings_view};
use serde_json::Value;
use vstd::prelude::*;
use vstd::string::*;

verus! {

/// The error of `serde_json`, carried through and never looked into.
#[verifier::external_type_specification]
#[verifier::external_body]
pub struct ExJsonError(serde_json::Error);

/// The strings of `text` read as a JSON array of strings, if it is one.
pub uninterp spec fn json_string_array(text: Seq<char>) -> Option<Seq<Seq<char>>>;

/// `serde_json::from_str::<Vec<String>>`: whether `text` is a JSON array of
/// strings, and its strings if so, are what [`json_string_array`] names. Nothing
/// else is claimed of the grammar.
#[verifier::external_body]
pub(crate) fn read_json_string_array(text: &str) -> (r: Result<Vec<String>, serde_json::Error>)
    ensures
        match r {
            Ok(v) => json_string_array(text@) == Some(strings_view(v@)),
            Err(_) => json_string_array(text@) is None,
        },
{
    serde_json::from_str::<Vec<String>>(text)
}

/// The JSON string literal of `s`, quotes included, where one can be written.
pub uninterp spec fn json_string_literal(s: Seq<char>) -> Option<Seq<char>>;

/// `serde_json::to_string` of a string: it writes into memory and does not fail,
/// and the literal it writes is what [`json_string_literal`] names. Nothing is
/// claimed of how the characters are escaped.
#[verifier::external_body]
pub(crate) fn write_json_string(s: &str) -> (r: Result<String, serde_json::Error>)
    ensures
        r is Ok,
        match r {
            Ok(literal) => json_string_literal(s@) == Some(literal@),
            Err(_) => json_string_literal(s@) is None,
        },
{
    serde_json::to_string(s)
}

/// The literal that stands for a string in generated script: its JSON string
/// literal, or the empty literal where none can be written.
pub open spec fn quoted(literal: Option<Seq<char>>) -> Seq<char> {
    match literal {
        Some(l) => l,
        None => "\"\""@,
    }
}

/// The literal that stands for a string in generated script, given the outcome of
/// writing it as JSON.
pub fn literal_or_empty(written: Option<String>) -> (l: String)
    ensures
        l@ == quoted(
            match written {
                Some(w) => Some(w@),
                None => None,
            },
        ),
{
    match written {
        Some(w) => w,
        None => String::from_str("\"\""),
    }
}

/// Writes a string as a literal for generated script, so that no character of it
/// can end the literal: its JSON string literal, which every string has.
pub fn json_quote(s: &str) -> (l: String)
    ensures
        l@ == quoted(json_string_literal(s@)),
        json_string_literal(s@) == Some(l@),
{
    let written = match write_json_string(s) {
        Ok(w) => Some(w),
        Err(_) => None,
    };
    literal_or_empty(written)
}

// ---------------------------------------------------------------------------
// Places of a document
// ---------------------------------------------------------------------------

/// What stands at one place of a JSON document.
#[derive(Debug, Clone)]
pub enum JsonItem {
    /// The text is no JSON document.
    NotJson,
    /// The document has nothing at the place.
    Missing,
    /// The value `null`.
    Null,
    /// A truth value.
    Bool(bool),
    /// A number, in the text that the reader of the document gives it.
    Number(String),
    /// A string, its escapes resolved.
    Text(String),
    /// An array, with the number of its elements.
    Array(usize),
    /// An object.
    Object,
}

/// A [`JsonItem`], its strings as sequences of characters.
pub enum JsonItemView {
    NotJson,
    Missing,
    Null,
    Bool(bool),
    Number(Seq<char>),
    Text(Seq<char>),
    Array(nat),
    Object,
}

impl View for JsonItem {
    type V = JsonItemView;

    open spec fn view(&self) -> JsonItemView {
        match *self {
            JsonItem::NotJson => JsonItemView::NotJson,
            JsonItem::Missing => JsonItemView::Missing,
            JsonItem::Null => JsonItemView::Null,
            JsonItem::Bool(b) => JsonItemView::Bool(b),
            JsonItem::Number(n) => JsonItemView::Number(n@),
            JsonItem::Text(t) => JsonItemView::Text(t@),
            JsonItem::Array(n) => JsonItemView::Array(n as nat),
            JsonItem::Object => JsonItemView::Object,
        }
    }
}

/// What stands in the JSON document `document` at the place that the JSON pointer
/// `pointer` names.
pub uninterp spec fn json_item(document: Seq<char>, pointer: Seq<char>) -> JsonItemView;

/// `serde_json::from_str` for a `Value`, then `Value::pointer`: what stands at
/// the place is what [`json_item`] names. The variants of the value are told
/// apart and nothing more: a number is handed on as `Number`'s `Display` writes
/// it, a string as it is, an array by its length.
#[verifier::external_body]
pub(crate) fn read_json_item(document: &str, pointer: &str) -> (item: JsonItem)
    ensures
        item@ == json_item(document@, pointer@),
{
    let Ok(root) = serde_json::from_str::<Value>(document) else {
        return JsonItem::NotJson;
    };
    match root.pointer(pointer) {
        None => JsonItem::Missing,
        Some(Value::Null) => JsonItem::Null,
        Some(Value::Bool(b)) => JsonItem::Bool(*b),
        Some(Value::Number(n)) => JsonItem::Number(n.to_string()),
        Some(Value::String(s)) => JsonItem::Text(s.clone()),
        Some(Value::Array(a)) => JsonItem::Array(a.len()),
        Some(Value::Object(_)) => JsonItem::Object,
    }
}

/// The string that an item is, if it is one.
pub open spec fn item_text(item: JsonItemView) -> Option<Seq<char>> {
    match item {
        JsonItemView::Text(t) => Some(t),
        _ => None,
    }
}

/// The text of an item that is a string or a number.
pub open spec fn item_scalar(item: JsonItemView) -> Option<Seq<char>> {
    match item {
        JsonItemView::Text(t) => Some(t),
        JsonItemView::Number(n) => Some(n),
        _ => None,
    }
}

/// The integer that an item is, if it is a number written as a signed decimal
/// numeral that fits in 64 bits.
pub open spec fn item_signed(item: JsonItemView) -> Option<i64> {
    match item {
        JsonItemView::Number(n) => match parse_signed(n) {
            Some(v) => if i64::MIN <= v <= i64::MAX {
                Some(v as i64)
            } else {
                None
            },
            None => None,
        },
        _ => None,
    }
}

/// The integer that an item is, if it is a number written as an unsigned decimal
/// numeral that fits in 64 bits.
pub open spec fn item_unsigned(item: JsonItemView) -> Option<u64> {
    match item {
        JsonItemView::Number(n) => match parse_decimal(n) {
            Some(v) => if v <= u64::MAX {
                Some(v as u64)
            } else {
                None
            },
            None => None,
        },
        _ => None,
    }
}

/// Reads the string at a place of a document.
pub fn text_at(document: &str, pointer: &str) -> (r: Option<String>)
    ensures
        opt_chars(r) == item_text(json_item(document@, pointer@)),
{
    match read_json_item(document, pointer) {
        JsonItem::Text(t) => Some(t),
        _ => None,
    }
}

/// Reads the string or the number at a place of a document, as text.
pub fn scalar_at(document: &str, pointer: &str) -> (r: Option<String>)
    ensures
        opt_chars(r) == item_scalar(json_item(document@, pointer@)),
{
    match read_json_item(document, pointer) {
        JsonItem::Text(t) => Some(t),
        JsonItem::Number(n) => Some(n),
        _ => None,
    }
}

/// Reads the signed integer at a place of a document.
pub fn signed_at(document: &str, pointer: &str) -> (r: Option<i64>)
    ensures
        r == item_signed(json_item(document@, pointer@)),
{
    match read_json_item(document, pointer) {
        JsonItem::Number(n) => {
            let digits = chars_of(n.as_str());
            parse_i64(&digits)
        },
        _ => None,
    }
}

/// Reads the unsigned integer at a place of a document.
pub fn unsigned_at(document: &str, pointer: &str) -> (r: Option<u64>)
    ensures
        r == item_unsigned(json_item(document@, pointer@)),
{
    match read_json_item(document, pointer) {
        JsonItem::Number(n) => {
            let digits = chars_of(n.as_str());
            parse_u64(&digits)
        },
        _ => None,
    }
}

} // verus!
