//! The configuration document: a TOML text, parsed by the `toml` crate.
//!
//! A parsed value stays a `toml::Value`. What the contracts say of it they
//! say of its `Node`, the part of a value that configuration looks at.

use vstd::prelude::*;

verus! {

#[verifier::external_type_specification]
#[verifier::external_body]
pub struct ExValue(toml::Value);

#[verifier::external_type_specification]
#[verifier::external_body]
pub struct ExError(toml::de::Error);

/// A TOML value as configuration sees it.
pub enum Node {
    /// A string, with what it holds.
    Text(Seq<char>),
    /// A table, with the value under each of its keys.
    Table(Map<Seq<char>, Node>),
    /// Anything else: a number, a boolean, a date or an array.
    Other,
}

impl Node {
    /// The value under `key`, where this is a table that has the key.
    pub open spec fn entry(self, key: Seq<char>) -> Option<Node> {
        if self is Table && self->Table_0.contains_key(key) {
            Some(self->Table_0[key])
        } else {
            None
        }
    }

    /// What the string holds, where this is a string.
    pub open spec fn text(self) -> Option<Seq<char>> {
        if self is Text {
            Some(self->Text_0)
        } else {
            None
        }
    }

    /// The string under `key`, where this is a table that has the key with a
    /// string under it.
    pub open spec fn text_entry(self, key: Seq<char>) -> Option<Seq<char>> {
        match self.entry(key) {
            Some(node) => node.text(),
            None => None,
        }
    }
}

/// What `value` holds: a string's characters, a table's entries.
pub uninterp spec fn node_of(value: toml::Value) -> Node;

/// The message of `error`, as it is displayed.
pub uninterp spec fn error_text(error: toml::de::Error) -> Seq<char>;

/// What parsing `text` as a TOML document gives: the document, or the
/// message of the error.
pub uninterp spec fn parse_outcome(text: Seq<char>) -> Result<Node, Seq<char>>;

/// Calls `toml::from_str` for a `toml::Value`. Trusted: the value or the
/// error that comes back depends on `text` alone, so it is the one that
/// `parse_outcome` names.
#[verifier::external_body]
pub(crate) fn parse(text: &str) -> (r: Result<toml::Value, toml::de::Error>)
    ensures
        match r {
            Ok(value) => parse_outcome(text@) == Ok::<Node, Seq<char>>(node_of(value)),
            Err(error) => parse_outcome(text@) == Err::<Node, Seq<char>>(error_text(error)),
        },
{
    toml::from_str::<toml::Value>(text)
}

/// Calls `toml::Value::get` with a string key. Trusted: it returns the
/// value under `key` if `value` is a table that has the key, and nothing
/// if `value` is no table or lacks the key.
#[verifier::external_body]
pub(crate) fn entry<'a>(value: &'a toml::Value, key: &str) -> (r: Option<&'a toml::Value>)
    ensures
        match r {
            Some(found) => node_of(*value).entry(key@) == Some(node_of(*found)),
            None => node_of(*value).entry(key@) is None,
        },
{
    value.get(key)
}

/// Calls `toml::Value::as_str`. Trusted: it returns what the string holds if
/// `value` is a string, and nothing if it is anything else.
#[verifier::external_body]
pub(crate) fn text<'a>(value: &'a toml::Value) -> (r: Option<&'a str>)
    ensures
        match r {
            Some(held) => node_of(*value).text() == Some(held@),
            None => node_of(*value).text() is None,
        },
{
    value.as_str()
}

/// Calls `to_string` on a `toml::de::Error`. Trusted: it returns the
/// error's message as it is displayed.
#[verifier::external_body]
pub(crate) fn message(error: &toml::de::Error) -> (r: String)
    ensures
        r@ == error_text(*error),
{
    error.to_string()
}

/// The string under `key` in `value`.
pub fn text_entry<'a>(value: &'a toml::Value, key: &str) -> (r: Option<&'a str>)
    ensures
        match r {
            Some(held) => node_of(*value).text_entry(key@) == Some(held@),
            None => node_of(*value).text_entry(key@) is None,
        },
{
    match entry(value, key) {
        Some(found) => text(found),
        None => None,
    }
}

} // verus!
