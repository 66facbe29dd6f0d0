//! The settings store: the one value that is kept across restarts, the path
//! of the project opened last, and what the commands ask of the store.

use vstd::prelude::*;

verus! {

/// The file that holds the settings.
pub const STORE_FILE: &'static str = "settings.json";

/// The key under which the path of the last project is kept.
pub const LAST_PROJECT_KEY: &'static str = "last_project_path";

/// `serde_json::Value`, a JSON value, carried as it is.
#[verifier::external_type_specification]
#[verifier::external_body]
pub struct ExJsonValue(serde_json::Value);

/// `serde_json::Error`, carried as it is.
#[verifier::external_type_specification]
#[verifier::external_body]
pub struct ExJsonError(serde_json::Error);

/// What a command asks of the settings store. The store is served as well as
/// it can be: a command's result never depends on whether the store obeyed.
#[derive(Clone, Debug, PartialEq, Eq)]
pub enum StoreAction {
    /// Leave the store as it is.
    Keep,
    /// Keep this path as that of the last project.
    Save(String),
    /// Forget the last project.
    Delete,
}

/// A `StoreAction` with its path as a sequence of characters.
pub enum StoreActionModel {
    Keep,
    Save(Seq<char>),
    Delete,
}

impl View for StoreAction {
    type V = StoreActionModel;

    open spec fn view(&self) -> StoreActionModel {
        match self {
            StoreAction::Keep => StoreActionModel::Keep,
            StoreAction::Save(p) => StoreActionModel::Save(p@),
            StoreAction::Delete => StoreActionModel::Delete,
        }
    }
}

impl StoreActionModel {
    /// The path that the store holds once it has obeyed, where it held
    /// `stored` before.
    pub open spec fn applied(self, stored: Option<Seq<char>>) -> Option<Seq<char>> {
        match self {
            StoreActionModel::Keep => stored,
            StoreActionModel::Save(p) => Some(p),
            StoreActionModel::Delete => None,
        }
    }
}

/// The text that a JSON value holds, where it is a string.
pub uninterp spec fn json_text(value: serde_json::Value) -> Option<Seq<char>>;

/// Calls `serde_json::to_value` on a string slice, which gives the JSON
/// string of that text and does not fail.
#[verifier::external_body]
fn json_of_text(text: &str) -> (r: Result<serde_json::Value, serde_json::Error>)
    ensures
        r is Ok,
        r matches Ok(v) ==> json_text(v) == Some(text@),
{
    serde_json::to_value(text)
}

/// `Value::as_str` gives the text of a JSON string, and nothing for any
/// other value.
pub assume_specification[ serde_json::Value::as_str ](value: &serde_json::Value) -> (r: Option<
    &str,
>)
    ensures
        match r {
            Some(s) => json_text(*value) == Some(s@),
            None => json_text(*value) is None,
        },
;

impl StoreAction {
    /// The value that the store is to keep under `LAST_PROJECT_KEY`, where
    /// this action saves one: the path as a JSON string.
    pub fn value(&self) -> (r: Option<serde_json::Value>)
        ensures
            match self@ {
                StoreActionModel::Save(p) => r matches Some(v) && json_text(v) == Some(p),
                _ => r is None,
            },
    {
        match self {
            StoreAction::Save(path) => match json_of_text(path.as_str()) {
                Ok(v) => Some(v),
                Err(_) => None,
            },
            _ => None,
        }
    }
}

/// The path of the last project as the store holds it: the text of the
/// value found under `LAST_PROJECT_KEY`, if one was found and is a string.
pub fn stored_path(found: Option<&serde_json::Value>) -> (r: Option<String>)
    ensures
        match found {
            Some(v) => match json_text(*v) {
                Some(p) => r matches Some(s) && s@ == p,
                None => r is None,
            },
            None => r is None,
        },
{
    match found {
        Some(v) => match v.as_str() {
            Some(s) => Some(s.to_owned()),
            None => None,
        },
        None => None,
    }
}

} // verus!
