//! JSON text, as far as the store's rules look into it.

use crate::error::{answers, fault, ErrorCode, StoreError};
use crate::text::{decimal, texts};
use vstd::prelude::*;

verus! {

/// Whether `serde_json` reads a text as one JSON value.
pub uninterp spec fn is_json(text: Seq<char>) -> bool;

/// The text that `serde_json` reads as one JSON string value.
pub uninterp spec fn json_string(text: Seq<char>) -> Option<Seq<char>>;

/// The compact rendering of a member of the object that `serde_json` reads.
pub uninterp spec fn json_member(text: Seq<char>, key: Seq<char>) -> Option<Seq<char>>;

/// The compact renderings of the items of the array that `serde_json` reads.
pub uninterp spec fn json_items(text: Seq<char>) -> Option<Seq<Seq<char>>>;

/// The texts of the array of strings that `serde_json` reads.
pub uninterp spec fn json_strings(text: Seq<char>) -> Option<Seq<Seq<char>>>;

/// The compact rendering that `serde_json` writes for a list of strings.
pub uninterp spec fn json_listing(list: Seq<Seq<char>>) -> Option<Seq<char>>;

/// The compact rendering that `serde_json` writes for the object that it reads,
/// once a number was put into it under a key.
pub uninterp spec fn json_counted(text: Seq<char>, key: Seq<char>, count: u64) -> Option<Seq<char>>;

/// A text denotes a list of strings, and whoever reads it item by item finds the same
/// strings.
pub open spec fn is_string_list(text: Seq<char>) -> bool {
    &&& is_json(text)
    &&& json_strings(text) is Some
    &&& json_items(text) is Some
    &&& json_items(text)->Some_0.len() == json_strings(text)->Some_0.len()
    &&& forall|i: int|
        0 <= i < json_items(text)->Some_0.len() ==> json_string(
            #[trigger] json_items(text)->Some_0[i],
        ) == Some(json_strings(text)->Some_0[i])
}

/// `serde_json::from_str` for a JSON value: whether it accepts the text, which
/// rests on the text alone.
#[verifier::external_body]
pub(crate) fn json_is_valid(text: &str) -> (valid: bool)
    ensures
        valid == is_json(text@),
{
    serde_json::from_str::<serde_json::Value>(text).is_ok()
}

/// `serde_json::from_str` for a string: the string that the text denotes, or
/// nothing where the text is not one JSON string. The result rests on the text
/// alone.
#[verifier::external_body]
pub(crate) fn json_text(text: &str) -> (value: Option<String>)
    ensures
        crate::text::opt_text(value) == json_string(text@),
{
    serde_json::from_str::<String>(text).ok()
}

/// `serde_json::Value::get` with a key, on the value that the text denotes: the
/// member's compact rendering, or nothing where the text is no JSON object or
/// has no such member. The result rests on the text and the key alone.
#[verifier::external_body]
pub(crate) fn json_member_text(text: &str, key: &str) -> (member: Option<String>)
    ensures
        crate::text::opt_text(member) == json_member(text@, key@),
{
    let value: serde_json::Value = serde_json::from_str(text).ok()?;
    value.get(key).map(|member| member.to_string())
}

/// `serde_json::from_str` for a list of values: their compact renderings in
/// order, or nothing where the text is no JSON array. The result rests on the
/// text alone.
#[verifier::external_body]
pub(crate) fn json_item_texts(text: &str) -> (items: Option<Vec<String>>)
    ensures
        items is Some <==> json_items(text@) is Some,
        items is Some ==> crate::text::texts(items->Some_0@) == json_items(text@)->Some_0,
{
    let items: Vec<serde_json::Value> = serde_json::from_str(text).ok()?;
    Some(items.into_iter().map(|item| item.to_string()).collect())
}

/// `serde_json::from_str` for a list of strings: the strings in order, or
/// nothing where the text is no JSON array of strings. The result rests on the
/// text alone.
#[verifier::external_body]
pub(crate) fn json_string_list(text: &str) -> (list: Option<Vec<String>>)
    ensures
        list is Some <==> json_strings(text@) is Some,
        list is Some ==> crate::text::texts(list->Some_0@) == json_strings(text@)->Some_0,
{
    serde_json::from_str::<Vec<String>>(text).ok()
}

/// `serde_json::to_string` for a list of strings: its rendering, which rests on
/// the strings alone, and which `serde_json::from_str` reads as the same strings, as a
/// whole and item by item. That there is always a rendering is not claimed.
#[verifier::external_body]
pub(crate) fn json_list_text(list: &Vec<String>) -> (text: Option<String>)
    ensures
        crate::text::opt_text(text) == json_listing(texts(list@)),
        text is Some ==> json_strings(text->Some_0@) == Some(texts(list@)),
        text is Some ==> is_string_list(text->Some_0@),
{
    serde_json::to_string(list).ok()
}

/// `serde_json::Map::insert` of a number, on the object that the text denotes: the
/// object's compact rendering with the number under the key, or nothing where the
/// text is no JSON object. The result rests on the text, the key and the number
/// alone; what it holds under other keys is not claimed.
#[verifier::external_body]
pub(crate) fn json_with_count(text: &str, key: &str, count: u64) -> (extended: Option<String>)
    ensures
        crate::text::opt_text(extended) == json_counted(text@, key@, count),
        extended is Some ==> json_member(extended->Some_0@, key@) == Some(decimal(count as nat)),
{
    let mut value: serde_json::Value = serde_json::from_str(text).ok()?;
    value.as_object_mut()?.insert(key.to_owned(), serde_json::Value::from(count));
    Some(value.to_string())
}

/// The text of a list of strings, as a column holds it, or the error of a list
/// that has none. A list is read back from its text as it was.
pub fn list_text(list: &Vec<String>, failure: &str) -> (result: Result<String, StoreError>)
    ensures
        answers(
            result,
            if json_listing(texts(list@)) is None {
                fault(ErrorCode::InvalidPayload, failure@)
            } else {
                None
            },
        ),
        result is Ok ==> Some(result->Ok_0@) == json_listing(texts(list@)),
        result is Ok ==> json_strings(result->Ok_0@) == Some(texts(list@)),
        result is Ok ==> is_string_list(result->Ok_0@),
{
    match json_list_text(list) {
        Some(text) => Ok(text),
        None => Err(StoreError::new(ErrorCode::InvalidPayload, failure)),
    }
}

/// The strings among the items of an array, in order. Items that are no strings
/// are left out.
pub open spec fn string_items(items: Seq<Seq<char>>) -> Seq<Seq<char>>
    decreases items.len(),
{
    if items.len() == 0 {
        seq![]
    } else {
        let before = string_items(items.drop_last());
        match json_string(items.last()) {
            Some(text) => before.push(text),
            None => before,
        }
    }
}

/// The strings in the array that an object holds under a key. Where there is no
/// such array there are none.
pub open spec fn strings_under(text: Seq<char>, key: Seq<char>) -> Seq<Seq<char>> {
    match json_member(text, key) {
        None => seq![],
        Some(member) => match json_items(member) {
            None => seq![],
            Some(items) => string_items(items),
        },
    }
}

/// The strings in the array that an object holds under a key.
pub fn strings_at(text: &str, key: &str) -> (list: Vec<String>)
    ensures
        texts(list@) == strings_under(text@, key@),
{
    let mut list: Vec<String> = Vec::new();
    assert(texts(list@) =~= seq![]);
    let member: String = match json_member_text(text, key) {
        Some(member) => member,
        None => {
            return list;
        },
    };
    let items: Vec<String> = match json_item_texts(member.as_str()) {
        Some(items) => items,
        None => {
            return list;
        },
    };
    let mut i: usize = 0;
    while i < items.len()
        invariant
            i <= items.len(),
            texts(list@) == string_items(texts(items@).take(i as int)),
        decreases items.len() - i,
    {
        let ghost before = list@;
        assert(texts(items@).take(i + 1).drop_last() =~= texts(items@).take(i as int));
        assert(texts(items@).take(i + 1).last() == items@[i as int]@);
        match json_text(items[i].as_str()) {
            Some(value) => {
                list.push(value);
                assert(texts(list@) =~= texts(before).push(value@));
            },
            None => {},
        }
        i += 1;
    }
    assert(texts(items@).take(i as int) =~= texts(items@));
    list
}

/// What is read under a key are those items of a list there that are texts, and no others. A
/// member that is missing or is no list has none.
pub proof fn law_texts_under_a_key(text: Seq<char>, key: Seq<char>, found: Seq<char>)
    ensures
        json_member(text, key) is None ==> strings_under(text, key).len() == 0,
        json_member(text, key) is Some && json_items(json_member(text, key)->Some_0) is None
            ==> strings_under(text, key).len() == 0,
        json_member(text, key) is Some && json_items(json_member(text, key)->Some_0) is Some ==> {
            let items = json_items(json_member(text, key)->Some_0)->Some_0;
            strings_under(text, key).contains(found) <==> exists|i: int|
                0 <= i < items.len() && json_string(#[trigger] items[i]) == Some(found)
        },
{
    if json_member(text, key) is Some && json_items(json_member(text, key)->Some_0) is Some {
        lemma_string_items(json_items(json_member(text, key)->Some_0)->Some_0, found);
    }
}

/// The texts among some items.
proof fn lemma_string_items(items: Seq<Seq<char>>, found: Seq<char>)
    ensures
        string_items(items).contains(found) <==> exists|i: int|
            0 <= i < items.len() && json_string(#[trigger] items[i]) == Some(found),
    decreases items.len(),
{
    if items.len() > 0 {
        let head = items.drop_last();
        let end = items.len() - 1;
        lemma_string_items(head, found);
        assert forall|i: int| 0 <= i < head.len() implies head[i] == #[trigger] items[i] by {}
        match json_string(items.last()) {
            Some(text) => {
                crate::seqs::lemma_push_contains(string_items(head), text, found);
            },
            None => {},
        }
        if string_items(head).contains(found) {
            let i = choose|i: int|
                0 <= i < head.len() && json_string(#[trigger] head[i]) == Some(found);
            assert(json_string(items[i]) == Some(found));
        } else if string_items(items).contains(found) {
            assert(json_string(items[end]) == Some(found));
        }
        if exists|i: int| 0 <= i < items.len() && json_string(#[trigger] items[i]) == Some(found) {
            let i = choose|i: int|
                0 <= i < items.len() && json_string(#[trigger] items[i]) == Some(found);
            if i < end {
                assert(json_string(head[i]) == Some(found));
            }
        }
    }
}

} // verus!
