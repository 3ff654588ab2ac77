//! JSON values as trees, and the outside calls that read them.

use json_dotpath::DotPaths;
use vstd::prelude::*;

verus! {

/// A JSON value. An object keeps its members in the order in which the
/// parsed value yields them; a number that is no unsigned 64-bit integer
/// is kept without its magnitude.
pub enum JsonTree {
    Null,
    Bool(bool),
    Unsigned(u64),
    OtherNumber,
    Text(Seq<char>),
    Array(Seq<JsonTree>),
    Object(Seq<(Seq<char>, JsonTree)>),
}

/// Why a dotted path could not be followed through a document.
#[derive(Clone, Debug, PartialEq, Eq)]
pub enum PathFault {
    /// The path continues below a scalar, or reaches nothing.
    BadPathElement,
    /// An array index beyond the end of the array: the index.
    BadIndex(usize),
    /// An empty key, or a key into an array that is no index: the key.
    InvalidKey(String),
    /// The value reached has not the shape that was asked for.
    WrongShape,
}

/// The mathematical value of such a fault.
pub enum PathFaultView {
    BadPathElement,
    BadIndex(usize),
    InvalidKey(Seq<char>),
    WrongShape,
}

impl View for PathFault {
    type V = PathFaultView;

    open spec fn view(&self) -> PathFaultView {
        match self {
            PathFault::BadPathElement => PathFaultView::BadPathElement,
            PathFault::BadIndex(index) => PathFaultView::BadIndex(*index),
            PathFault::InvalidKey(key) => PathFaultView::InvalidKey(key@),
            PathFault::WrongShape => PathFaultView::WrongShape,
        }
    }
}

/// `serde_json::Value`: a parsed JSON value. What it holds is known only
/// through `json_tree`.
#[verifier::external_type_specification]
#[verifier::external_body]
pub struct ExValue(serde_json::Value);

/// `serde_json::Error`: why a text is not JSON. Nothing is known of it.
#[verifier::external_type_specification]
#[verifier::external_body]
pub struct ExJsonError(serde_json::Error);

/// The tree that a parsed value holds.
pub uninterp spec fn json_tree(value: serde_json::Value) -> JsonTree;

/// The document that a text denotes; `None` where the text is not JSON.
pub uninterp spec fn json_document(text: Seq<char>) -> Option<JsonTree>;

/// What a dotted path reaches in a tree: a subtree, nothing (`Ok(None)`, also
/// for `null`), or a fault on the way.
pub uninterp spec fn dot_path_target(tree: JsonTree, path: Seq<char>) -> Result<
    Option<JsonTree>,
    PathFaultView,
>;

/// The text of a string.
pub open spec fn text_of(tree: JsonTree) -> Option<Seq<char>> {
    match tree {
        JsonTree::Text(s) => Some(s),
        _ => None,
    }
}

/// The worth of a number that is an integer from 0 to `u64::MAX`.
pub open spec fn unsigned_of(tree: JsonTree) -> Option<u64> {
    match tree {
        JsonTree::Unsigned(n) => Some(n),
        _ => None,
    }
}

/// The truth value of a boolean.
pub open spec fn bool_of(tree: JsonTree) -> Option<bool> {
    match tree {
        JsonTree::Bool(b) => Some(b),
        _ => None,
    }
}

/// The elements of an array.
pub open spec fn elements_of(tree: JsonTree) -> Option<Seq<JsonTree>> {
    match tree {
        JsonTree::Array(items) => Some(items),
        _ => None,
    }
}

/// The members of an object.
pub open spec fn members_of(tree: JsonTree) -> Option<Seq<(Seq<char>, JsonTree)>> {
    match tree {
        JsonTree::Object(members) => Some(members),
        _ => None,
    }
}

/// The trees of the elements of an array, in order.
pub open spec fn element_trees(items: Seq<serde_json::Value>) -> Seq<JsonTree> {
    items.map_values(|item: serde_json::Value| json_tree(item))
}

/// The members of an object as they were handed out: each key with the tree
/// of its value.
pub open spec fn member_trees<'a>(members: Seq<(&'a str, &'a serde_json::Value)>) -> Seq<
    (Seq<char>, JsonTree),
> {
    members.map_values(|member: (&'a str, &'a serde_json::Value)| (member.0@, json_tree(*member.1)))
}

/// Whether no two rows of a table have the same key.
pub open spec fn distinct_keys<T>(rows: Seq<(Seq<char>, T)>) -> bool {
    forall|i: int, j: int|
        0 <= i < j < rows.len() ==> (#[trigger] rows[i]).0 != (#[trigger] rows[j]).0
}

/// `serde_json::from_str` at `serde_json::Value`: the parsed document, or an
/// error exactly where the text is not JSON.
#[verifier::external_body]
pub(crate) fn json_from_str(text: &str) -> (r: Result<serde_json::Value, serde_json::Error>)
    ensures
        match r {
            Ok(value) => json_document(text@) == Some(json_tree(value)),
            Err(_) => json_document(text@) is None,
        },
{
    serde_json::from_str::<serde_json::Value>(text)
}

/// `json_dotpath::DotPaths::dot_get` at `serde_json::Value`: a copy of the
/// subtree that the path reaches, with each error variant told apart.
#[verifier::external_body]
pub(crate) fn json_dot_get(value: &serde_json::Value, path: &str) -> (r: Result<
    Option<serde_json::Value>,
    PathFault,
>)
    ensures
        match r {
            Ok(Some(found)) => dot_path_target(json_tree(*value), path@) == Ok::<
                Option<JsonTree>,
                PathFaultView,
            >(Some(json_tree(found))),
            Ok(None) => dot_path_target(json_tree(*value), path@) == Ok::<
                Option<JsonTree>,
                PathFaultView,
            >(None),
            Err(fault) => dot_path_target(json_tree(*value), path@) == Err::<
                Option<JsonTree>,
                PathFaultView,
            >(fault@),
        },
{
    match value.dot_get::<serde_json::Value>(path) {
        Ok(found) => Ok(found),
        Err(json_dotpath::Error::BadPathElement) => Err(PathFault::BadPathElement),
        Err(json_dotpath::Error::BadIndex(index)) => Err(PathFault::BadIndex(index)),
        Err(json_dotpath::Error::InvalidKey(key)) => Err(PathFault::InvalidKey(key)),
        Err(json_dotpath::Error::SerdeError(_)) => Err(PathFault::WrongShape),
    }
}

/// `serde_json::Value::as_str`: the text of a string value, `None` for any
/// other value.
pub assume_specification<'a>[ serde_json::Value::as_str ](value: &'a serde_json::Value) -> (r:
    Option<&'a str>)
    ensures
        match r {
            Some(s) => text_of(json_tree(*value)) == Some(s@),
            None => text_of(json_tree(*value)) is None,
        },
;

/// `serde_json::Value::as_u64`: the number where the value is an integer
/// from 0 to `u64::MAX`, `None` otherwise.
pub assume_specification[ serde_json::Value::as_u64 ](value: &serde_json::Value) -> (r: Option<
    u64,
>)
    ensures
        r == unsigned_of(json_tree(*value)),
;

/// `serde_json::Value::as_bool`: the boolean of a boolean value.
pub assume_specification[ serde_json::Value::as_bool ](value: &serde_json::Value) -> (r: Option<
    bool,
>)
    ensures
        r == bool_of(json_tree(*value)),
;

/// `serde_json::Value::as_array`: the elements of an array value, in order.
pub assume_specification<'a>[ serde_json::Value::as_array ](value: &'a serde_json::Value) -> (r:
    Option<&'a Vec<serde_json::Value>>)
    ensures
        match r {
            Some(items) => elements_of(json_tree(*value)) == Some(element_trees(items@)),
            None => elements_of(json_tree(*value)) is None,
        },
;

/// `serde_json::Value::as_object` and `serde_json::Map::iter`: the members of
/// an object value, each key with its value, in the order of the iteration.
/// A map holds each key once, so no key comes twice.
#[verifier::external_body]
pub(crate) fn json_members<'a>(value: &'a serde_json::Value) -> (r: Option<
    Vec<(&'a str, &'a serde_json::Value)>,
>)
    ensures
        match r {
            Some(members) => members_of(json_tree(*value)) == Some(member_trees(members@))
                && distinct_keys(member_trees(members@)),
            None => members_of(json_tree(*value)) is None,
        },
{
    value.as_object().map(|object| object.iter().map(|(key, child)| (key.as_str(), child)).collect())
}

} // verus!
