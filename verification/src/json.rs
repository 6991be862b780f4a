//! JSON documents, as far as a session is read from them.
//!
//! A document is a `serde_json::Value`. What it holds is a map from paths to nodes: a path is
//! the object keys that lead from the document to one of its values, and the node is what a
//! reader can learn of that value without going deeper.

use crate::text;
use vstd::prelude::*;

verus! {

/// The type of JSON documents, `serde_json::Value`.
#[verifier::external_type_specification]
#[verifier::external_body]
pub struct ExValue(serde_json::Value);

/// What can be read of one value of a document.
pub struct Node {
    /// The characters of the value, if it is a string.
    pub string: Option<Seq<char>>,
    /// The number, if the value is one that is held as an integer within the range of `i64`.
    /// A number that is written with a fraction or an exponent, or as `-0`, is not.
    pub integer: Option<i64>,
    /// The value written as JSON text, unless writing it fails.
    pub written: Option<Seq<char>>,
}

/// What a document holds: the node of each value that object keys lead to. The document itself
/// stands at the empty path.
pub uninterp spec fn contents(document: serde_json::Value) -> Map<Seq<Seq<char>>, Node>;

/// What the document holds that is written in `text`, if `text` is one JSON document.
pub uninterp spec fn parsed(text: Seq<char>) -> Option<Map<Seq<Seq<char>>, Node>>;

/// What is held under `key`.
pub open spec fn under(held: Map<Seq<Seq<char>>, Node>, key: Seq<char>) -> Map<
    Seq<Seq<char>>,
    Node,
> {
    Map::new(
        |path: Seq<Seq<char>>| held.contains_key(seq![key] + path),
        |path: Seq<Seq<char>>| held[seq![key] + path],
    )
}

/// The string at `path`, if there is one.
pub open spec fn string_at(held: Map<Seq<Seq<char>>, Node>, path: Seq<Seq<char>>) -> Option<
    Seq<char>,
> {
    if held.contains_key(path) {
        held[path].string
    } else {
        None
    }
}

/// The `i64` at `path`, if there is one.
pub open spec fn integer_at(held: Map<Seq<Seq<char>>, Node>, path: Seq<Seq<char>>) -> Option<i64> {
    if held.contains_key(path) {
        held[path].integer
    } else {
        None
    }
}

/// A value as a reader sees it: a string by its characters, anything else as JSON text.
pub open spec fn shown(node: Node) -> Seq<char> {
    match (node.string, node.written) {
        (Some(string), _) => string,
        (None, Some(text)) => text,
        (None, None) => Seq::empty(),
    }
}

/// The value at `path` as a reader sees it, if there is one.
pub open spec fn shown_at(held: Map<Seq<Seq<char>>, Node>, path: Seq<Seq<char>>) -> Option<
    Seq<char>,
> {
    if held.contains_key(path) {
        Some(shown(held[path]))
    } else {
        None
    }
}

/// Every string that is held stands in `text`, character by character.
pub open spec fn strings_stand_in(held: Map<Seq<Seq<char>>, Node>, text: Seq<char>) -> bool {
    forall|path: Seq<Seq<char>>|
        string_at(held, path) is Some ==> text::is_infix(
            (#[trigger] string_at(held, path))->0,
            text,
        )
}

/// Unless something is escaped in `text`, the strings of its document stand in it.
pub open spec fn keeps_strings(text: Seq<char>) -> bool {
    parsed(text) is Some && !text.contains('\\') ==> strings_stand_in(parsed(text)->0, text)
}

/// Calls `serde_json::from_str` for a `serde_json::Value`.
///
/// What is claimed of it: whether the text is one JSON document, and what that document
/// holds, rest on the text alone. A text without a backslash escapes nothing, so that the
/// strings of its document stand in it as they are.
#[verifier::external_body]
pub(crate) fn parse(text: &str) -> (document: Option<serde_json::Value>)
    ensures
        match document {
            Some(document) => parsed(text@) == Some(contents(document)),
            None => parsed(text@) is None,
        },
        document is Some && !text@.contains('\\') ==> strings_stand_in(
            contents(document->0),
            text@,
        ),
{
    serde_json::from_str(text).ok()
}

/// Calls `serde_json::Value::get` with a string.
///
/// What is claimed of it: it gives the member of an object that stands under the key, if
/// the document is an object and has one. If not, nothing is held under the key.
#[verifier::external_body]
pub(crate) fn get<'a>(document: &'a serde_json::Value, key: &str) -> (member: Option<
    &'a serde_json::Value,
>)
    ensures
        match member {
            Some(member) => {
                &&& contents(*document).contains_key(seq![key@])
                &&& contents(*member) == under(contents(*document), key@)
            },
            None => {
                &&& !contents(*document).contains_key(seq![key@])
                &&& under(contents(*document), key@) == Map::<Seq<Seq<char>>, Node>::empty()
            },
        },
{
    document.get(key)
}

/// Calls `serde_json::Value::as_str`.
///
/// What is claimed of it: it gives the characters of the document if that is a string, and
/// nothing else.
#[verifier::external_body]
pub(crate) fn as_str<'a>(document: &'a serde_json::Value) -> (string: Option<&'a str>)
    ensures
        match string {
            Some(string) => contents(*document)[Seq::empty()].string == Some(string@),
            None => contents(*document)[Seq::empty()].string is None,
        },
{
    document.as_str()
}

/// Calls `serde_json::Value::as_i64`.
///
/// What is claimed of it: it gives the number that the document is, if that is held as an
/// integer within the range of `i64`, and nothing else.
#[verifier::external_body]
pub(crate) fn as_i64(document: &serde_json::Value) -> (integer: Option<i64>)
    ensures
        integer == contents(*document)[Seq::empty()].integer,
{
    document.as_i64()
}

/// Calls `serde_json::to_string`.
///
/// What is claimed of it: the text, and whether there is one, rest on the document alone.
#[verifier::external_body]
pub(crate) fn write(document: &serde_json::Value) -> (text: Option<String>)
    ensures
        match text {
            Some(text) => contents(*document)[Seq::empty()].written == Some(text@),
            None => contents(*document)[Seq::empty()].written is None,
        },
{
    serde_json::to_string(document).ok()
}

/// The string under `key`, if there is one.
pub(crate) fn get_string(document: &serde_json::Value, key: &str) -> (string: Option<String>)
    ensures
        string.deep_view() == string_at(contents(*document), seq![key@]),
{
    match get(document, key) {
        Some(member) => {
            assert(seq![key@] + Seq::<Seq<char>>::empty() =~= seq![key@]);
            match as_str(member) {
                Some(string) => Some(string.to_owned()),
                None => None,
            }
        },
        None => None,
    }
}

/// The `i64` under `key`, if there is one.
pub(crate) fn get_integer(document: &serde_json::Value, key: &str) -> (integer: Option<i64>)
    ensures
        integer == integer_at(contents(*document), seq![key@]),
{
    match get(document, key) {
        Some(member) => {
            assert(seq![key@] + Seq::<Seq<char>>::empty() =~= seq![key@]);
            as_i64(member)
        },
        None => None,
    }
}

/// The document as a reader sees it.
pub(crate) fn show(document: &serde_json::Value) -> (text: String)
    ensures
        text@ == shown(contents(*document)[Seq::empty()]),
{
    match as_str(document) {
        Some(string) => string.to_owned(),
        None => match write(document) {
            Some(text) => text,
            None => String::new(),
        },
    }
}

/// The value under `key` as a reader sees it, if there is one.
pub(crate) fn get_shown(document: &serde_json::Value, key: &str) -> (text: Option<String>)
    ensures
        text.deep_view() == shown_at(contents(*document), seq![key@]),
{
    match get(document, key) {
        Some(member) => {
            assert(seq![key@] + Seq::<Seq<char>>::empty() =~= seq![key@]);
            Some(show(member))
        },
        None => None,
    }
}

/// What is found under a key is what is found along the path that begins with the key.
pub proof fn law_keys_lead_along_the_path(
    held: Map<Seq<Seq<char>>, Node>,
    key: Seq<char>,
    path: Seq<Seq<char>>,
)
    ensures
        under(held, key).contains_key(path) <==> held.contains_key(seq![key] + path),
        string_at(under(held, key), path) == string_at(held, seq![key] + path),
        integer_at(under(held, key), path) == integer_at(held, seq![key] + path),
        shown_at(under(held, key), path) == shown_at(held, seq![key] + path),
{
}

/// A value is found by its path as what it is: its string, its number, and as a reader sees it.
/// That is the string if it is one, else its JSON text, and an empty text if it has none.
pub proof fn law_values_are_found_by_their_path(
    held: Map<Seq<Seq<char>>, Node>,
    path: Seq<Seq<char>>,
    node: Node,
)
    ensures
        string_at(held.insert(path, node), path) == node.string,
        integer_at(held.insert(path, node), path) == node.integer,
        node.string is Some ==> shown_at(held.insert(path, node), path) == node.string,
        node.string is None && node.written is Some ==> shown_at(held.insert(path, node), path)
            == node.written,
        node.string is None && node.written is None ==> shown_at(held.insert(path, node), path)
            == Some(Seq::<char>::empty()),
        !held.contains_key(path) ==> string_at(held, path) is None && integer_at(held, path) is None
            && shown_at(held, path) is None,
{
}

/// Other values do not matter for what is found at a path.
pub proof fn law_other_values_do_not_matter(
    held: Map<Seq<Seq<char>>, Node>,
    path: Seq<Seq<char>>,
    other: Seq<Seq<char>>,
    node: Node,
)
    requires
        path != other,
    ensures
        string_at(held.insert(other, node), path) == string_at(held, path),
        integer_at(held.insert(other, node), path) == integer_at(held, path),
        shown_at(held.insert(other, node), path) == shown_at(held, path),
{
}

} // verus!
