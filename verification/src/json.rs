//! JSON documents as text. Reading and writing them is the work of
//! `serde_json`; this module names what it returns so that the rest of the
//! crate can say exactly which document it stores or sends.

use vstd::prelude::*;

verus! {

/// The compact rendering of the document that `text` holds, if it holds one.
pub uninterp spec fn canonical_of(text: Seq<char>) -> Option<Seq<char>>;

/// The compact rendering of the member `name` of the object that `text` holds.
pub uninterp spec fn member_of(text: Seq<char>, name: Seq<char>) -> Option<Seq<char>>;

/// The string that `text` holds, if it holds a JSON string.
pub uninterp spec fn string_in(text: Seq<char>) -> Option<Seq<char>>;

/// The integer that `text` holds, if it holds one that fits 64 signed bits.
pub uninterp spec fn integer_in(text: Seq<char>) -> Option<i64>;

/// The compact renderings of the items of the array that `text` holds.
pub uninterp spec fn items_in(text: Seq<char>) -> Option<Seq<Seq<char>>>;

/// The compact rendering of the object with the given members.
pub uninterp spec fn object_text(members: Seq<(Seq<char>, Seq<char>)>) -> Seq<char>;

/// The compact rendering of the array with the given items.
pub uninterp spec fn array_text(items: Seq<Seq<char>>) -> Seq<char>;

/// The JSON string literal for `s`.
pub uninterp spec fn string_text(s: Seq<char>) -> Seq<char>;

/// The document `text` with its member `name` set to `value`; `text` itself
/// where it holds no object.
pub uninterp spec fn with_member(text: Seq<char>, name: Seq<char>, value: Seq<char>) -> Seq<char>;

/// The views of a list of members.
pub open spec fn member_views(members: Seq<(String, String)>) -> Seq<(Seq<char>, Seq<char>)> {
    Seq::new(members.len(), |i: int| (members[i].0@, members[i].1@))
}

/// `serde_json::from_str` into a `Value`, rendered again with `Value::to_string`.
/// `None` where the parser rejects `text`.
#[verifier::external_body]
pub(crate) fn canonical(text: &str) -> (r: Option<String>)
    ensures
        r.deep_view() == canonical_of(text@),
{
    let value: serde_json::Value = serde_json::from_str(text).ok()?;
    Some(value.to_string())
}

/// `Value::get` with a member's name on the parsed `text`, the member rendered
/// with `Value::to_string`. `None` where `text` is no object or has no such member.
#[verifier::external_body]
pub(crate) fn member(text: &str, name: &str) -> (r: Option<String>)
    ensures
        r.deep_view() == member_of(text@, name@),
{
    let value: serde_json::Value = serde_json::from_str(text).ok()?;
    value.get(name).map(|m| m.to_string())
}

/// `Value::as_str` on the parsed `text`.
#[verifier::external_body]
pub(crate) fn string_value(text: &str) -> (r: Option<String>)
    ensures
        r.deep_view() == string_in(text@),
{
    let value: serde_json::Value = serde_json::from_str(text).ok()?;
    value.as_str().map(|s| s.to_string())
}

/// `Value::as_i64` on the parsed `text`.
#[verifier::external_body]
pub(crate) fn integer_value(text: &str) -> (r: Option<i64>)
    ensures
        r == integer_in(text@),
{
    let value: serde_json::Value = serde_json::from_str(text).ok()?;
    value.as_i64()
}

/// `Value::as_array` on the parsed `text`, each item rendered with `Value::to_string`.
#[verifier::external_body]
pub(crate) fn items(text: &str) -> (r: Option<Vec<String>>)
    ensures
        r.deep_view() == items_in(text@),
{
    let value: serde_json::Value = serde_json::from_str(text).ok()?;
    value.as_array().map(|a| a.iter().map(|item| item.to_string()).collect())
}

/// `Value::Object` of a `serde_json::Map` filled with `Map::insert`, rendered with
/// `Value::to_string`. A member whose text the parser rejects is entered as `null`.
#[verifier::external_body]
pub(crate) fn object(members: &Vec<(String, String)>) -> (r: String)
    ensures
        r@ == object_text(member_views(members@)),
{
    let mut map = serde_json::Map::new();
    for (name, value) in members.iter() {
        map.insert(name.clone(), serde_json::from_str(value).unwrap_or(serde_json::Value::Null));
    }
    serde_json::Value::Object(map).to_string()
}

/// `Value::Array` of the parsed items, rendered with `Value::to_string`.
/// An item whose text the parser rejects is entered as `null`.
#[verifier::external_body]
pub(crate) fn array(items: &Vec<String>) -> (r: String)
    ensures
        r@ == array_text(items.deep_view()),
{
    let values = items.iter().map(|i| serde_json::from_str(i).unwrap_or(serde_json::Value::Null));
    serde_json::Value::Array(values.collect()).to_string()
}

/// `Value::String`, rendered with `Value::to_string`.
#[verifier::external_body]
pub(crate) fn string(s: &str) -> (r: String)
    ensures
        r@ == string_text(s@),
{
    serde_json::Value::String(s.to_string()).to_string()
}

/// `Map::insert` on the object that the parsed `text` holds (`Value::as_object_mut`),
/// rendered with `Value::to_string`; `text` is handed back where it holds no object.
#[verifier::external_body]
pub(crate) fn set_member(text: &str, name: &str, value: &str) -> (r: String)
    ensures
        r@ == with_member(text@, name@, value@),
{
    let mut doc: serde_json::Value = match serde_json::from_str(text) {
        Ok(doc) => doc,
        Err(_) => return text.to_string(),
    };
    match doc.as_object_mut() {
        Some(map) => map.insert(name.to_string(), serde_json::from_str(value).unwrap_or(serde_json::Value::Null)),
        None => return text.to_string(),
    };
    doc.to_string()
}

/// The text of an optional string: a string literal, or `null`.
pub open spec fn optional_string_text(s: Option<Seq<char>>) -> Seq<char> {
    match s {
        Some(s) => string_text(s),
        None => "null"@,
    }
}

pub(crate) fn optional_string(s: &Option<String>) -> (r: String)
    ensures
        r@ == optional_string_text(s.deep_view()),
{
    match s {
        Some(s) => string(s.as_str()),
        None => "null".to_string(),
    }
}

/// The string held by the member `name` of `text`, if there is one.
pub open spec fn string_member(text: Seq<char>, name: Seq<char>) -> Option<Seq<char>> {
    match member_of(text, name) {
        Some(m) => string_in(m),
        None => None,
    }
}

/// The integer held by the member `name` of `text`, if there is one.
pub open spec fn integer_member(text: Seq<char>, name: Seq<char>) -> Option<i64> {
    match member_of(text, name) {
        Some(m) => integer_in(m),
        None => None,
    }
}

/// The strings among the items of the array held by the member `name` of `text`.
pub open spec fn string_items(items: Seq<Seq<char>>) -> Seq<Seq<char>>
    decreases items.len(),
{
    if items.len() == 0 {
        Seq::empty()
    } else {
        match string_in(items.last()) {
            Some(s) => string_items(items.drop_last()).push(s),
            None => string_items(items.drop_last()),
        }
    }
}

/// The strings of the array held by the member `name` of `text`, if there is one.
pub open spec fn string_list_member(text: Seq<char>, name: Seq<char>) -> Option<Seq<Seq<char>>> {
    match member_of(text, name) {
        Some(m) => match items_in(m) {
            Some(items) => Some(string_items(items)),
            None => None,
        },
        None => None,
    }
}

pub(crate) fn get_string(text: &str, name: &str) -> (r: Option<String>)
    ensures
        r.deep_view() == string_member(text@, name@),
{
    match member(text, name) {
        Some(m) => string_value(m.as_str()),
        None => None,
    }
}

pub(crate) fn get_integer(text: &str, name: &str) -> (r: Option<i64>)
    ensures
        r == integer_member(text@, name@),
{
    match member(text, name) {
        Some(m) => integer_value(m.as_str()),
        None => None,
    }
}

/// The strings among `list`, in order.
pub(crate) fn strings_among(list: &Vec<String>) -> (r: Vec<String>)
    ensures
        r.deep_view() == string_items(list.deep_view()),
{
    let mut out: Vec<String> = Vec::new();
    let mut i: usize = 0;
    assert(list.deep_view().take(0) =~= Seq::empty());
    while i < list.len()
        invariant
            i <= list.len(),
            out.deep_view() == string_items(list.deep_view().take(i as int)),
        decreases list.len() - i,
    {
        let ghost before = out.deep_view();
        assert(list.deep_view().take(i + 1).drop_last() =~= list.deep_view().take(i as int));
        assert(list.deep_view().take(i + 1).last() == list[i as int]@);
        match string_value(list[i].as_str()) {
            Some(s) => {
                out.push(s);
                assert(out.deep_view() =~= before.push(s@));
            },
            None => {},
        }
        i += 1;
    }
    assert(list.deep_view().take(i as int) =~= list.deep_view());
    out
}

pub(crate) fn get_string_list(text: &str, name: &str) -> (r: Option<Vec<String>>)
    ensures
        r.deep_view() == string_list_member(text@, name@),
{
    match member(text, name) {
        Some(m) => match items(m.as_str()) {
            Some(list) => Some(strings_among(&list)),
            None => None,
        },
        None => None,
    }
}

} // verus!
