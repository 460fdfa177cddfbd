//! JSON values: what they mean, and how they are read, written and taken apart.

use vstd::prelude::*;
#[allow(unused_imports)]
use vstd::utf8::encode_utf8;
#[allow(unused_imports)]
use crate::json::{
    lemma_item_exact, lemma_item_models, lemma_member_counts, lemma_member_exact, Json, JsonError,
    JsonModel,
};
#[allow(unused_imports)]
use crate::promises::{has, lacks, lacks_text};
#[allow(unused_imports)]
use crate::serde_bridge::{is_exact, is_fraction, parsed_bytes, written_text};

verus! {

/// Plain values mean themselves, a text means its characters, and an array means its items
/// in order.
pub proof fn lemma_plain_values_mean_themselves(
    b: bool,
    number: serde_json::Number,
    text: String,
    items: Vec<Json>,
)
    ensures
        Json::Null@ == JsonModel::Null,
        Json::Bool(b)@ == JsonModel::Bool(b),
        Json::Number(number)@ == JsonModel::Number(number),
        Json::Text(text)@ == JsonModel::Text(text@),
        Json::Array(items)@ matches JsonModel::Array(models) && models.len() == items@.len() && (
        forall|i: int| 0 <= i < items@.len() ==> #[trigger] models[i] == items@[i]@),
{
    lemma_item_models(items@);
}

/// An object means its members by name: of those with one name the last one counts, and
/// there are no others.
pub proof fn lemma_the_last_member_of_a_name_counts(members: Vec<(String, Json)>, i: int)
    requires
        0 <= i < members@.len(),
        forall|k: int|
            i < k < members@.len() ==> (#[trigger] members@[k]).0@ != members@[i].0@,
    ensures
        has(Json::Object(members)@, members@[i].0@, members@[i].1@),
{
    lemma_member_counts(members@, i, Seq::empty());
}

/// A name that no member goes by is not there, and only an object has members.
pub proof fn lemma_no_other_members(members: Vec<(String, Json)>, name: Seq<char>)
    requires
        forall|k: int| 0 <= k < members@.len() ==> (#[trigger] members@[k]).0@ != name,
    ensures
        Json::Object(members)@ is Object,
        lacks(Json::Object(members)@, name),
{
    lemma_member_counts(members@, -1, name);
}

/// Reading bytes as JSON gives the value that they are parsed as, or what the parser says.
pub proof fn lemma_bytes_are_read(bytes: &[u8], read: Result<Json, JsonError>)
    requires
        call_ensures(Json::from_bytes, (bytes,), read),
    ensures
        match parsed_bytes(bytes@) {
            Ok(value) => read matches Ok(json) && json@ == value,
            Err(text) => read matches Err(error) && error.message@ == text,
        },
{
}

/// Reading a text as JSON is reading its bytes.
pub proof fn lemma_texts_are_read(text: &str, read: Result<Json, JsonError>)
    requires
        call_ensures(Json::from_text, (text,), read),
    ensures
        match parsed_bytes(encode_utf8(text@)) {
            Ok(value) => read matches Ok(json) && json@ == value,
            Err(reason) => read matches Err(error) && error.message@ == reason,
        },
{
}

/// A value is always written, and its bytes are those of its text.
pub proof fn lemma_values_are_written(
    json: &Json,
    text: Result<String, JsonError>,
    bytes: Result<Vec<u8>, JsonError>,
)
    requires
        call_ensures(Json::to_text, (json,), text),
        call_ensures(Json::to_bytes, (json,), bytes),
    ensures
        text matches Ok(written) && written@ == written_text(json@),
        bytes matches Ok(written) && written@ == encode_utf8(written_text(json@)),
{
}

/// What was written for a value that is said to read back is read as that value, both as
/// text and as bytes.
pub proof fn lemma_written_values_come_back(
    json: &Json,
    written: String,
    text: &str,
    bytes: &[u8],
    from_text: Result<Json, JsonError>,
    from_bytes: Result<Json, JsonError>,
)
    requires
        call_ensures(Json::reads_back, (json,), true),
        call_ensures(Json::to_text, (json,), Ok(written)),
        text@ == written@,
        bytes@ == encode_utf8(written@),
        call_ensures(Json::from_text, (text,), from_text),
        call_ensures(Json::from_bytes, (bytes,), from_bytes),
    ensures
        from_text matches Ok(again) && again@ == json@,
        from_bytes matches Ok(again) && again@ == json@,
{
}

/// A value reads back if and only if it is exact within 127 levels. What is no array and no
/// object is exact within any number of levels, unless it is a floating-point number.
pub proof fn lemma_plain_values_read_back(json: &Json, back: bool, depth: nat)
    requires
        call_ensures(Json::reads_back, (json,), back),
    ensures
        back == is_exact(json@, 127),
        json@ is Null || json@ is Bool || json@ is Text ==> is_exact(json@, depth),
        json@ matches JsonModel::Number(n) ==> is_exact(json@, depth) == !is_fraction(n),
{
}

/// An array is exact within one level more than its items are, and in no other case.
pub proof fn lemma_arrays_are_exact_by_item(items: Seq<JsonModel>, depth: nat)
    ensures
        !is_exact(JsonModel::Array(items), 0),
        is_exact(JsonModel::Array(items), depth + 1) <==> forall|i: int|
            0 <= i < items.len() ==> #[trigger] is_exact(items[i], depth),
{
    let array = JsonModel::Array(items);
    assert(array->Array_0 == items);
    if is_exact(array, depth + 1) {
        assert forall|i: int| 0 <= i < items.len() implies #[trigger] is_exact(items[i], depth) by {
            lemma_item_exact(items, depth + 1, i);
        }
    } else {
        if forall|i: int| 0 <= i < items.len() ==> #[trigger] is_exact(items[i], depth) {
            assert forall|i: int| 0 <= i < items.len() implies is_exact(
                #[trigger] items[i],
                (depth + 1 - 1) as nat,
            ) by {
                assert(is_exact(items[i], depth));
            }
            assert(is_exact(array, depth + 1));
        }
    }
}

/// An object of finitely many members is exact within one level more than they are, and in
/// no other case.
pub proof fn lemma_objects_are_exact_by_member(members: Map<Seq<char>, JsonModel>, depth: nat)
    requires
        members.dom().finite(),
    ensures
        !is_exact(JsonModel::Object(members), 0),
        is_exact(JsonModel::Object(members), depth + 1) <==> forall|name: Seq<char>|
            members.contains_key(name) ==> #[trigger] is_exact(members[name], depth),
{
    let object = JsonModel::Object(members);
    assert(object->Object_0 == members);
    if is_exact(object, depth + 1) {
        assert forall|name: Seq<char>| members.contains_key(name) implies #[trigger] is_exact(
            members[name],
            depth,
        ) by {
            lemma_member_exact(members, depth + 1, name);
        }
    } else {
        if forall|name: Seq<char>|
            members.contains_key(name) ==> #[trigger] is_exact(members[name], depth) {
            assert forall|name: Seq<char>| members.contains_key(name) implies is_exact(
                #[trigger] members[name],
                (depth + 1 - 1) as nat,
            ) by {
                assert(is_exact(members[name], depth));
            }
            assert(is_exact(object, depth + 1));
        }
    }
}

/// A member is found by its name, and is found nowhere else.
pub proof fn lemma_members_are_found(
    json: &Json,
    owned: Json,
    name: &str,
    member: Option<&Json>,
    text: Option<&str>,
    taken: Option<Json>,
)
    requires
        owned@ == json@,
        call_ensures(Json::member, (json, name), member),
        call_ensures(Json::member_text, (json, name), text),
        call_ensures(Json::into_member, (owned, name), taken),
    ensures
        match member {
            Some(found) => has(json@, name@, found@),
            None => lacks(json@, name@),
        },
        match text {
            Some(found) => has(json@, name@, JsonModel::Text(found@)),
            None => lacks_text(json@, name@),
        },
        match taken {
            Some(found) => has(json@, name@, found@),
            None => lacks(json@, name@),
        },
{
    if json@ is Object && json@->Object_0.contains_key(name@) {
        assert(has(json@, name@, json@->Object_0[name@]));
    }
}

/// A text is taken for one, and nothing else is.
pub proof fn lemma_texts_are_told(json: &Json, text: Option<&str>)
    requires
        call_ensures(Json::as_text, (json,), text),
    ensures
        match text {
            Some(found) => json@ == JsonModel::Text(found@),
            None => !(json@ is Text),
        },
{
}

/// A member that was set is found, and every other member is what it was. A value that is no
/// object stays as it is.
pub proof fn lemma_a_member_is_set(json: Json, name: &str, member: Json, set: Json)
    requires
        call_ensures(Json::set_member, (json, name, member), set),
    ensures
        match json@ {
            JsonModel::Object(_) => {
                &&& has(set@, name@, member@)
                &&& forall|other: Seq<char>, value: JsonModel|
                    other != name@ ==> #[trigger] has(set@, other, value) == has(
                        json@,
                        other,
                        value,
                    )
            },
            _ => set@ == json@,
        },
{
}

} // verus!
