//! JSON texts, read and written through `serde_json`.

use matrix_sdk_common::ruma::serde::Raw;
use vstd::prelude::*;

use crate::text::{decimal, same_text};

verus! {

/// A member of a JSON object: its name, and its value as JSON text.
pub struct Member {
    pub name: String,
    pub json: String,
}

/// What a list of members says, by name. Of two members with one name the later
/// one counts.
pub open spec fn members(list: Seq<Member>) -> Map<Seq<char>, Seq<char>>
    decreases list.len(),
{
    if list.len() == 0 {
        Map::empty()
    } else {
        members(list.drop_last()).insert(list.last().name@, list.last().json@)
    }
}

/// What is said under a name is said by one of the members.
pub(crate) proof fn lemma_members_listed(list: Seq<Member>, name: Seq<char>)
    ensures
        members(list).contains_key(name) == exists|i: int|
            0 <= i < list.len() && (#[trigger] list[i]).name@ == name,
    decreases list.len(),
{
    if list.len() > 0 {
        let shorter = list.drop_last();
        lemma_members_listed(shorter, name);
        if exists|i: int| 0 <= i < shorter.len() && (#[trigger] shorter[i]).name@ == name {
            let i = choose|i: int| 0 <= i < shorter.len() && (#[trigger] shorter[i]).name@ == name;
            assert(list[i].name@ == name);
        }
        if exists|i: int| 0 <= i < list.len() && (#[trigger] list[i]).name@ == name {
            let i = choose|i: int| 0 <= i < list.len() && (#[trigger] list[i]).name@ == name;
            if i < shorter.len() {
                assert(shorter[i].name@ == name);
            }
        }
        if list.last().name@ == name {
            assert(list[list.len() - 1].name@ == name);
        }
    }
}

/// The last member of a name is what counts.
pub(crate) proof fn lemma_members_last(list: Seq<Member>, at: int)
    requires
        0 <= at < list.len(),
        forall|i: int| at < i < list.len() ==> (#[trigger] list[i]).name@ != list[at].name@,
    ensures
        members(list).contains_key(list[at].name@),
        members(list)[list[at].name@] == list[at].json@,
    decreases list.len(),
{
    if at < list.len() - 1 {
        let shorter = list.drop_last();
        assert(shorter[at] == list[at]);
        assert(list[list.len() - 1] == list.last());
        lemma_members_last(shorter, at);
    }
}

/// The JSON text of the member of a name.
pub(crate) fn member<'a>(list: &'a Vec<Member>, name: &str) -> (json: Option<&'a String>)
    ensures
        match json {
            Some(json) => members(list@).contains_key(name@) && members(list@)[name@] == json@,
            None => !members(list@).contains_key(name@),
        },
{
    let mut i: usize = list.len();
    while i > 0
        invariant
            i <= list@.len(),
            forall|j: int| i <= j < list@.len() ==> (#[trigger] list@[j]).name@ != name@,
        decreases i,
    {
        if same_text(list[i - 1].name.as_str(), name) {
            proof {
                lemma_members_last(list@, i - 1);
            }
            return Some(&list[i - 1].json);
        }
        i = i - 1;
    }
    proof {
        lemma_members_listed(list@, name@);
    }
    None
}

/// Whether a member has one of the names.
pub(crate) fn has_one_of(list: &Vec<Member>, wanted: &[&str]) -> (answer: bool)
    ensures
        answer == exists|i: int|
            0 <= i < wanted@.len() && members(list@).contains_key((#[trigger] wanted@[i])@),
{
    let mut i: usize = 0;
    while i < wanted.len()
        invariant
            i <= wanted@.len(),
            forall|j: int|
                0 <= j < i ==> !members(list@).contains_key((#[trigger] wanted@[j])@),
        decreases wanted@.len() - i,
    {
        if member(list, wanted[i]).is_some() {
            assert(members(list@).contains_key(wanted@[i as int]@));
            return true;
        }
        i = i + 1;
    }
    false
}

/// There are no members when none is listed, and only then.
pub(crate) proof fn lemma_members_empty(list: Seq<Member>)
    ensures
        (members(list) == Map::<Seq<char>, Seq<char>>::empty()) == (list.len() == 0),
{
    if list.len() > 0 {
        assert(members(list).contains_key(list.last().name@));
    }
}

/// Whether the value of every listed member is a JSON text with nothing around it.
pub open spec fn all_json(list: Seq<Member>) -> bool {
    forall|i: int| 0 <= i < list.len() ==> is_json((#[trigger] list[i]).json@)
}

/// Whether the text is a JSON value with no space before or after it.
pub open spec fn is_json(text: Seq<char>) -> bool {
    raw_text(text) == Some(text)
}

/// The members of the object that `serde_json` reads from a text, the values as
/// the texts that it prints for them.
pub uninterp spec fn object_of(text: Seq<char>) -> Option<Map<Seq<char>, Seq<char>>>;

/// Reads a JSON object with `serde_json::from_str::<serde_json::Value>` and
/// `Value::as_object`.
///
/// Trusted: what is read is a function of the text alone, named [`object_of`].
/// There is none where the text is not JSON or is another value than an object.
/// The values of the members are given as the texts that `serde_json::Value`
/// prints for them, which are JSON texts with nothing around them.
#[verifier::external_body]
pub(crate) fn read_object(text: &str) -> (object: Option<Vec<Member>>)
    ensures
        match object {
            Some(list) => object_of(text@) == Some(members(list@)) && all_json(list@),
            None => object_of(text@) is None,
        },
{
    let value = serde_json::from_str::<serde_json::Value>(text).ok()?;
    let map = value.as_object()?.iter();
    Some(map.map(|(name, value)| Member { name: name.clone(), json: value.to_string() }).collect())
}

/// The string under a name of the object that `serde_json` reads from a text.
pub uninterp spec fn string_member(text: Seq<char>, name: Seq<char>) -> Option<Seq<char>>;

/// Reads the string under a name of a JSON object, in one reading, with
/// `serde_json::from_str::<serde_json::Value>`, `Value::get` and `Value::as_str`.
///
/// Trusted: what is read is a function of the text and of the name alone, named
/// [`string_member`]. There is none where the text is not JSON or no object, has
/// no such member, or has another value than a string there.
#[verifier::external_body]
pub(crate) fn read_string_member(text: &str, name: &str) -> (string: Option<String>)
    ensures
        match string {
            Some(string) => string_member(text@, name@) == Some(string@),
            None => string_member(text@, name@) is None,
        },
{
    let value = serde_json::from_str::<serde_json::Value>(text).ok()?;
    Some(value.get(name)?.as_str()?.to_owned())
}

/// The JSON text that `serde_json` keeps of a text that is to be carried on
/// unread.
pub uninterp spec fn raw_text(text: Seq<char>) -> Option<Seq<char>>;

/// Checks that a text is JSON with `serde_json::value::RawValue::from_string`.
///
/// Trusted: what is kept is a function of the text alone, named [`raw_text`].
/// What is kept has nothing around it, so checking it again changes nothing.
#[verifier::external_body]
pub(crate) fn read_raw(text: &str) -> (raw: Option<String>)
    ensures
        match raw {
            Some(raw) => raw_text(text@) == Some(raw@) && is_json(raw@),
            None => raw_text(text@) is None,
        },
{
    let raw = serde_json::value::RawValue::from_string(text.to_owned()).ok()?;
    Some(raw.get().to_owned())
}

/// The string that one field of a JSON object is.
pub uninterp spec fn string_field(text: Seq<char>, field: Seq<char>) -> Option<Seq<char>>;

/// Reads one field of a JSON object with `ruma`'s `Raw::get_field`, as a `String`.
///
/// Trusted: the string is a function of the text and of the field's name alone,
/// named [`string_field`]. There is none where the text is no object, has no such
/// field, or has one that is no string.
#[verifier::external_body]
pub(crate) fn read_string_field(text: &str, field: &str) -> (string: Option<String>)
    ensures
        match string {
            Some(string) => string_field(text@, field@) == Some(string@),
            None => string_field(text@, field@) is None,
        },
{
    let raw = Raw::<serde_json::Value>::from_json_string(text.to_owned()).ok()?;
    raw.get_field::<String>(field).ok()?
}

/// The string under a name of the object that one field of a JSON object is.
pub uninterp spec fn string_in_field(text: Seq<char>, field: Seq<char>, name: Seq<char>) -> Option<
    Seq<char>,
>;

/// Reads one field of a JSON object with `ruma`'s `Raw::get_field`, as a
/// `serde_json::Value`, and the string under a name of it with `Value::get` and
/// `Value::as_str`.
///
/// Trusted: the string is a function of the text and of the two names alone, named
/// [`string_in_field`]. There is none where the text is no object, has no such
/// field, or has one that cannot be read, that is no object, or that holds no
/// string under the name.
#[verifier::external_body]
pub(crate) fn read_string_in_field(text: &str, field: &str, name: &str) -> (string: Option<String>)
    ensures
        match string {
            Some(string) => string_in_field(text@, field@, name@) == Some(string@),
            None => string_in_field(text@, field@, name@) is None,
        },
{
    let raw = Raw::<serde_json::Value>::from_json_string(text.to_owned()).ok()?;
    let value = raw.get_field::<serde_json::Value>(field).ok()??;
    Some(value.get(name)?.as_str()?.to_owned())
}

/// The text of the object that `serde_json` writes with the given members.
pub uninterp spec fn object_text(members: Map<Seq<char>, Seq<char>>) -> Seq<char>;

/// Writes a JSON object with `serde_json::to_string`, the values of its members
/// carried over as they stand by `serde_json::value::RawValue`.
///
/// Trusted: there is a text when every listed value is JSON; it is JSON itself, and a
/// function of the members alone, named [`object_text`], whatever order they
/// were listed in.
#[verifier::external_body]
pub(crate) fn write_object(list: Vec<Member>) -> (text: Option<String>)
    requires
        all_json(list@),
    ensures
        text is Some,
        text->0@ == object_text(members(list@)),
        is_json(text->0@),
{
    let mut map = std::collections::BTreeMap::new();
    for Member { name, json } in list {
        map.insert(name, serde_json::value::RawValue::from_string(json).ok()?);
    }
    serde_json::to_string(&map).ok()
}

/// Writes a number with `serde_json::Value`.
///
/// Trusted: the text is the number's decimal digits, and it is JSON.
#[verifier::external_body]
pub(crate) fn write_number(number: u64) -> (text: String)
    ensures
        text@ == decimal(number as nat),
        is_json(text@),
{
    serde_json::Value::from(number).to_string()
}

} // verus!
