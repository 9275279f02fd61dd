//! TOML documents as the `toml` crate parses them, and the model of them
//! that the contracts of this library speak of.

use vstd::prelude::*;

verus! {

/// What a TOML value holds, as far as this library reads it: text, an array,
/// a table, or a scalar of another kind (integer, float, boolean, datetime)
/// whose content is never looked at.
pub enum Tree {
    Text(Seq<char>),
    Array(Seq<Tree>),
    Table(Map<Seq<char>, Tree>),
    Scalar,
}

impl Tree {
    /// The entry under `key` where this is a table that has one.
    pub open spec fn child(self, key: Seq<char>) -> Option<Tree> {
        match self {
            Tree::Table(entries) if entries.contains_key(key) => Some(entries[key]),
            _ => None,
        }
    }

    /// The characters where this is text.
    pub open spec fn text(self) -> Option<Seq<char>> {
        match self {
            Tree::Text(chars) => Some(chars),
            _ => None,
        }
    }

    /// The elements where this is an array.
    pub open spec fn items(self) -> Option<Seq<Tree>> {
        match self {
            Tree::Array(elements) => Some(elements),
            _ => None,
        }
    }
}

/// The value type of the `toml` crate. Verus sees nothing inside it; what it
/// holds is named by `tree_of`.
#[verifier::external_type_specification]
#[verifier::external_body]
pub struct ExTomlValue(toml::Value);

/// The error that the `toml` crate reports for text that is not a TOML
/// document.
#[verifier::external_type_specification]
#[verifier::external_body]
pub struct ExTomlError(toml::de::Error);

/// What a `toml::Value` holds.
pub uninterp spec fn tree_of(value: toml::Value) -> Tree;

/// The document that the `toml` crate reads from `text`, or `None` where it
/// rejects the text.
pub uninterp spec fn toml_document(text: Seq<char>) -> Option<Tree>;

/// The models of the values of an array, in order.
pub open spec fn trees_of(values: Seq<toml::Value>) -> Seq<Tree> {
    values.map_values(|value: toml::Value| tree_of(value))
}

/// `<toml::Value as FromStr>::from_str`: parses `text` as a TOML document.
/// The outcome depends on the text alone: either the document named
/// `toml_document(text)`, or an error where that is `None`.
#[verifier::external_body]
fn toml_from_str(text: &str) -> (r: Result<toml::Value, toml::de::Error>)
    ensures
        match r {
            Ok(value) => toml_document(text@) == Some(tree_of(value)),
            Err(_) => toml_document(text@) is None,
        },
{
    text.parse::<toml::Value>()
}

/// `toml::Value::get` with a string index: the entry under `key` where the
/// value is a table that has one, `None` for a missing key and for a value of
/// any other kind.
#[verifier::external_body]
pub(crate) fn toml_get<'a>(value: &'a toml::Value, key: &str) -> (r: Option<&'a toml::Value>)
    ensures
        match r {
            Some(entry) => tree_of(*value).child(key@) == Some(tree_of(*entry)),
            None => tree_of(*value).child(key@) is None,
        },
{
    value.get(key)
}

/// `toml::Value::as_str`: the string of a string value, `None` for any other
/// kind.
pub assume_specification<'a>[ toml::Value::as_str ](value: &'a toml::Value) -> (r: Option<&'a str>)
    ensures
        match r {
            Some(chars) => tree_of(*value).text() == Some(chars@),
            None => tree_of(*value).text() is None,
        },
;

/// `toml::Value::as_array`: the elements of an array value, `None` for any
/// other kind.
pub assume_specification<'a>[ toml::Value::as_array ](value: &'a toml::Value) -> (r: Option<
    &'a Vec<toml::Value>,
>)
    ensures
        match r {
            Some(elements) => tree_of(*value).items() == Some(trees_of(elements@)),
            None => tree_of(*value).items() is None,
        },
;

/// `toml::Value::is_table`: whether the value is a table.
pub assume_specification[ toml::Value::is_table ](value: &toml::Value) -> (r: bool)
    ensures
        r == (tree_of(*value) is Table),
;

/// Text that is not a well-formed TOML document.
#[derive(Clone, Copy, Debug, PartialEq, Eq, Structural)]
pub struct ParseError;

/// Parses `text` as a TOML document.
pub fn parse_document(text: &str) -> (r: Result<toml::Value, ParseError>)
    ensures
        match r {
            Ok(document) => toml_document(text@) == Some(tree_of(document)),
            Err(_) => toml_document(text@) is None,
        },
{
    match toml_from_str(text) {
        Ok(document) => Ok(document),
        Err(_) => Err(ParseError),
    }
}

} // verus!
