//! JSON values as plain data.

use vstd::prelude::*;
#[allow(unused_imports)]
use vstd::utf8::encode_utf8;
use crate::serde_bridge::{
    close_value, copy_number, describe_error, is_float, members_of, no_members, open_value, parse_bytes,
    parse_text, put_member, write_bytes, write_text, Node, PARSER_DEPTH,
};
#[allow(unused_imports)]
use crate::serde_bridge::{
    error_text, is_exact, object_model, pair_models, parsed_bytes, parsed_text, reads_back, success,
    value_model, value_models, written_bytes, written_text,
};

verus! {

/// A JSON value.
///
/// The members of an object stand in the order in which they were put there;
/// where a name occurs more than once, the last occurrence counts.
#[derive(Debug)]
pub enum Json {
    Null,
    Bool(bool),
    Number(serde_json::Number),
    Text(String),
    Array(Vec<Json>),
    Object(Vec<(String, Json)>),
}

/// What a JSON value means: an object is a map from names to values.
pub enum JsonModel {
    Null,
    Bool(bool),
    Number(serde_json::Number),
    Text(Seq<char>),
    Array(Seq<JsonModel>),
    Object(Map<Seq<char>, JsonModel>),
}

impl Json {
    /// The meaning of this value.
    pub open spec fn model(self) -> JsonModel
        decreases self,
    {
        match self {
            Json::Null => JsonModel::Null,
            Json::Bool(b) => JsonModel::Bool(b),
            Json::Number(n) => JsonModel::Number(n),
            Json::Text(s) => JsonModel::Text(s@),
            Json::Array(items) => JsonModel::Array(item_models(items@)),
            Json::Object(members) => JsonModel::Object(member_models(members@)),
        }
    }
}

/// The meanings of the items of an array, in order.
pub open spec fn item_models(items: Seq<Json>) -> Seq<JsonModel>
    decreases items,
{
    if items.len() == 0 {
        Seq::empty()
    } else {
        item_models(items.drop_last()).push(items.last().model())
    }
}

/// The map that the members of an object amount to: of several members with
/// one name, the last one counts.
pub open spec fn member_models(members: Seq<(String, Json)>) -> Map<Seq<char>, JsonModel>
    decreases members,
{
    if members.len() == 0 {
        Map::empty()
    } else {
        member_models(members.drop_last()).insert(
            members.last().0@,
            members.last().1.model(),
        )
    }
}

impl View for Json {
    type V = JsonModel;

    open spec fn view(&self) -> JsonModel {
        self.model()
    }
}

/// The meaning of an array, item by item.
pub proof fn lemma_item_models(items: Seq<Json>)
    ensures
        item_models(items).len() == items.len(),
        forall|i: int| 0 <= i < items.len() ==> #[trigger] item_models(items)[i] == items[i]@,
    decreases items.len(),
{
    if items.len() > 0 {
        lemma_item_models(items.drop_last());
    }
}

/// The map that a longer list of members amounts to.
proof fn lemma_member_push(members: Seq<(String, Json)>, member: (String, Json))
    ensures
        member_models(members.push(member)) == member_models(members).insert(member.0@, member.1@),
{
    assert(members.push(member).drop_last() =~= members);
}

/// The map that the members amount to after the one that counts was replaced.
proof fn lemma_member_update(members: Seq<(String, Json)>, p: int, member: (String, Json))
    requires
        0 <= p < members.len(),
        members[p].0@ == member.0@,
        forall|k: int| p < k < members.len() ==> (#[trigger] members[k]).0@ != member.0@,
    ensures
        member_models(members.update(p, member)) == member_models(members).insert(
            member.0@,
            member.1@,
        ),
    decreases members.len(),
{
    let front = members.drop_last();
    if p == members.len() - 1 {
        assert(members.update(p, member).drop_last() =~= front);
        assert(member_models(members).insert(member.0@, member.1@) =~= member_models(front).insert(
            member.0@,
            member.1@,
        ));
    } else {
        assert(members.update(p, member).drop_last() =~= front.update(p, member));
        assert(members[members.len() - 1].0@ != member.0@);
        lemma_member_update(front, p, member);
        let last = members.last();
        assert(member_models(front).insert(member.0@, member.1@).insert(last.0@, last.1@)
            =~= member_models(front).insert(last.0@, last.1@).insert(member.0@, member.1@));
    }
}

/// The name of every member is a name of the object.
proof fn lemma_member_present(members: Seq<(String, Json)>, k: int)
    requires
        0 <= k < members.len(),
    ensures
        member_models(members).contains_key(members[k].0@),
    decreases members.len(),
{
    if k < members.len() - 1 {
        lemma_member_present(members.drop_last(), k);
        assert(members.drop_last()[k] == members[k]);
    }
}

/// Of the members with one name the last one counts, and a name that no member goes by is
/// not there.
pub(crate) proof fn lemma_member_counts(members: Seq<(String, Json)>, i: int, name: Seq<char>)
    ensures
        0 <= i < members.len() && (forall|k: int|
            i < k < members.len() ==> (#[trigger] members[k]).0@ != members[i].0@)
            ==> member_models(members).contains_key(members[i].0@) && member_models(
            members,
        )[members[i].0@] == members[i].1@,
        (forall|k: int| 0 <= k < members.len() ==> (#[trigger] members[k]).0@ != name)
            ==> !member_models(members).contains_key(name),
    decreases members.len(),
{
    if members.len() > 0 {
        let front = members.drop_last();
        lemma_member_counts(front, i, name);
        assert(forall|k: int| 0 <= k < front.len() ==> front[k] == #[trigger] members[k]);
        assert(forall|k: int| 0 <= k < front.len() ==> #[trigger] front[k] == members[k]);
        assert(members.last() == members[members.len() - 1]);
    }
}

/// The value of a pair is in the map that the pairs amount to, where no name
/// occurs twice.
proof fn lemma_pair_in_map(pairs: Seq<(String, serde_json::Value)>, k: int)
    requires
        0 <= k < pairs.len(),
        forall|i: int, j: int|
            0 <= i < j < pairs.len() ==> (#[trigger] pairs[i]).0@ != (#[trigger] pairs[j]).0@,
    ensures
        pair_models(pairs).contains_key(pairs[k].0@),
        pair_models(pairs)[pairs[k].0@] == value_model(pairs[k].1),
    decreases pairs.len(),
{
    if k < pairs.len() - 1 {
        lemma_pair_in_map(pairs.drop_last(), k);
        assert(pairs.drop_last()[k] == pairs[k]);
    }
}

/// Pairs amount to a finite map.
proof fn lemma_pairs_finite(pairs: Seq<(String, serde_json::Value)>)
    ensures
        pair_models(pairs).dom().finite(),
    decreases pairs.len(),
{
    if pairs.len() > 0 {
        lemma_pairs_finite(pairs.drop_last());
    }
}

impl Json {
    /// The value that `serde_json` parsed, as plain data.
    pub(crate) fn from_value(value: serde_json::Value) -> (json: Json)
        ensures
            json@ == value_model(value),
        decreases value_model(value),
    {
        match open_value(value) {
            Node::Null => Json::Null,
            Node::Bool(b) => Json::Bool(b),
            Node::Number(n) => Json::Number(n),
            Node::Text(s) => Json::Text(s),
            Node::Array(items) => {
                let mut out: Vec<Json> = Vec::new();
                let ghost all = items@;
                for item in it: items
                    invariant
                        it.seq() == all,
                        value_model(value) == JsonModel::Array(value_models(all)),
                        out@.len() == it.index(),
                        forall|i: int|
                            0 <= i < out@.len() ==> (#[trigger] out@[i])@ == value_model(all[i]),
                {
                    proof {
                        assert(value_models(all)[it.index()] == value_model(item));
                        assert(decreases_to!(value_model(value) => value_model(value)->Array_0));
                    }
                    out.push(Json::from_value(item));
                }
                proof {
                    lemma_item_models(out@);
                    assert(item_models(out@) =~= value_models(all));
                }
                Json::Array(out)
            },
            Node::Object(members) => {
                let pairs = members_of(members);
                let mut out: Vec<(String, Json)> = Vec::new();
                let ghost all = pairs@;
                for pair in it: pairs
                    invariant
                        it.seq() == all,
                        value_model(value) == JsonModel::Object(pair_models(all)),
                        forall|i: int, j: int|
                            0 <= i < j < all.len() ==> (#[trigger] all[i]).0@ != (
                            #[trigger] all[j]).0@,
                        member_models(out@) == pair_models(all.take(it.index())),
                {
                    proof {
                        lemma_pair_in_map(all, it.index());
                        lemma_pairs_finite(all);
                        assert(decreases_to!(value_model(value) => value_model(value)->Object_0));
                        assert(decreases_to!(pair_models(all) => pair_models(all)[pair.0@]));
                    }
                    let (name, inner) = pair;
                    let ghost before = out@;
                    let member = Json::from_value(inner);
                    out.push((name, member));
                    proof {
                        lemma_member_push(before, (name, member));
                        assert(all.take(it.index() + 1).drop_last() =~= all.take(it.index()));
                    }
                }
                assert(all.take(all.len() as int) =~= all);
                Json::Object(out)
            },
        }
    }

    /// This value as `serde_json` holds it.
    pub(crate) fn to_value(&self) -> (value: serde_json::Value)
        ensures
            value_model(value) == self@,
        decreases self,
    {
        match self {
            Json::Null => close_value(Node::Null),
            Json::Bool(b) => close_value(Node::Bool(*b)),
            Json::Number(n) => close_value(Node::Number(copy_number(n))),
            Json::Text(s) => close_value(Node::Text(s.clone())),
            Json::Array(items) => {
                let mut out: Vec<serde_json::Value> = Vec::new();
                let mut i: usize = 0;
                while i < items.len()
                    invariant
                        i <= items.len(),
                        self == Json::Array(*items),
                        out@.len() == i,
                        forall|k: int| 0 <= k < i ==> value_model(#[trigger] out@[k]) == items@[k]@,
                    decreases items.len() - i,
                {
                    proof {
                        assert(decreases_to!(*self => self->Array_0));
                        assert(decreases_to!(items => items@));
                        assert(decreases_to!(items@ => items@[i as int]));
                    }
                    out.push(items[i].to_value());
                    i = i + 1;
                }
                proof {
                    lemma_item_models(items@);
                    assert(value_models(out@) =~= item_models(items@));
                }
                close_value(Node::Array(out))
            },
            Json::Object(members) => {
                let mut out = no_members();
                let mut i: usize = 0;
                while i < members.len()
                    invariant
                        i <= members.len(),
                        self == Json::Object(*members),
                        object_model(out) == member_models(members@.take(i as int)),
                    decreases members.len() - i,
                {
                    proof {
                        assert(decreases_to!(*self => self->Object_0));
                        assert(decreases_to!(members => members@));
                        assert(decreases_to!(members@ => members@[i as int]));
                        assert(decreases_to!(members@[i as int] => members@[i as int].1));
                    }
                    let inner = members[i].1.to_value();
                    put_member(&mut out, members[i].0.clone(), inner);
                    proof {
                        assert(members@.take(i + 1).drop_last() =~= members@.take(i as int));
                    }
                    i = i + 1;
                }
                assert(members@.take(members@.len() as int) =~= members@);
                close_value(Node::Object(out))
            },
        }
    }
}

/// The member of a value that goes by `name`; a value that is no object has none.
pub open spec fn member_model(value: JsonModel, name: Seq<char>) -> Option<JsonModel> {
    match value {
        JsonModel::Object(members) => if members.contains_key(name) {
            Some(members[name])
        } else {
            None
        },
        _ => None,
    }
}

/// The text that a value is, if it is one.
pub open spec fn text_model(value: JsonModel) -> Option<Seq<char>> {
    match value {
        JsonModel::Text(text) => Some(text),
        _ => None,
    }
}

/// The text that the member called `name` is, if there is such a member and it
/// is a text.
pub open spec fn member_text_model(value: JsonModel, name: Seq<char>) -> Option<Seq<char>> {
    match member_model(value, name) {
        Some(member) => text_model(member),
        None => None,
    }
}

/// A value after `name` was set: a value that is no object stays as it is.
pub open spec fn with_member(value: JsonModel, name: Seq<char>, member: JsonModel) -> JsonModel {
    match value {
        JsonModel::Object(members) => JsonModel::Object(members.insert(name, member)),
        other => other,
    }
}

/// An optional value by its meaning.
pub open spec fn option_model(json: Option<Json>) -> Option<JsonModel> {
    match json {
        Some(json) => Some(json@),
        None => None,
    }
}

/// Whether two texts are the same.
pub(crate) fn same_text(a: &str, b: &str) -> (same: bool)
    ensures
        same == (a@ == b@),
{
    a.to_owned() == b.to_owned()
}

impl Json {
    /// The position of the member that counts for `name`.
    fn position(members: &Vec<(String, Json)>, name: &str) -> (position: Option<usize>)
        ensures
            match position {
                Some(p) => {
                    &&& p < members@.len()
                    &&& members@[p as int].0@ == name@
                    &&& forall|k: int|
                        p < k < members@.len() ==> (#[trigger] members@[k]).0@ != name@
                    &&& member_models(members@).contains_key(name@)
                    &&& member_models(members@)[name@] == members@[p as int].1@
                },
                None => !member_models(members@).contains_key(name@),
            },
    {
        let mut found: Option<usize> = None;
        let mut i: usize = 0;
        while i < members.len()
            invariant
                i <= members@.len(),
                match found {
                    Some(p) => {
                        &&& p < i
                        &&& members@[p as int].0@ == name@
                        &&& forall|k: int| p < k < i ==> (#[trigger] members@[k]).0@ != name@
                        &&& member_models(members@.take(i as int)).contains_key(name@)
                        &&& member_models(members@.take(i as int))[name@] == members@[p as int].1@
                    },
                    None => !member_models(members@.take(i as int)).contains_key(name@),
                },
            decreases members@.len() - i,
        {
            assert(members@.take(i + 1).drop_last() =~= members@.take(i as int));
            if same_text(members[i].0.as_str(), name) {
                found = Some(i);
            }
            i = i + 1;
        }
        assert(members@.take(members@.len() as int) =~= members@);
        found
    }

    /// The member that goes by `name`; a value that is no object has none.
    pub fn member(&self, name: &str) -> (member: Option<&Json>)
        ensures
            match member {
                Some(member) => member_model(self@, name@) == Some(member@),
                None => member_model(self@, name@) is None,
            },
    {
        match self {
            Json::Object(members) => match Json::position(members, name) {
                Some(p) => Some(&members[p].1),
                None => None,
            },
            _ => None,
        }
    }

    /// The text that this value is, if it is one.
    pub fn as_text(&self) -> (text: Option<&str>)
        ensures
            match text {
                Some(text) => text_model(self@) == Some(text@),
                None => text_model(self@) is None,
            },
    {
        match self {
            Json::Text(text) => Some(text.as_str()),
            _ => None,
        }
    }

    /// The text that the member called `name` is, if there is such a member and it
    /// is a text.
    pub fn member_text(&self, name: &str) -> (text: Option<&str>)
        ensures
            match text {
                Some(text) => member_text_model(self@, name@) == Some(text@),
                None => member_text_model(self@, name@) is None,
            },
    {
        match self.member(name) {
            Some(member) => member.as_text(),
            None => None,
        }
    }

    /// Takes the member called `name` out of this value and drops the rest.
    pub fn into_member(self, name: &str) -> (member: Option<Json>)
        ensures
            option_model(member) == member_model(self@, name@),
    {
        match self {
            Json::Object(members) => {
                let mut members = members;
                match Json::position(&members, name) {
                    Some(p) => Some(members.swap_remove(p).1),
                    None => None,
                }
            },
            _ => None,
        }
    }

    /// Sets the member called `name`; a value that is no object stays as it is.
    pub fn set_member(self, name: &str, member: Json) -> (json: Json)
        ensures
            json@ == with_member(self@, name@, member@),
    {
        match self {
            Json::Object(members) => {
                let mut members = members;
                let name = name.to_owned();
                match Json::position(&members, name.as_str()) {
                    Some(p) => {
                        proof {
                            lemma_member_update(members@, p as int, (name, member));
                        }
                        members[p] = (name, member);
                    },
                    None => {
                        proof {
                            lemma_member_push(members@, (name, member));
                        }
                        members.push((name, member));
                    },
                }
                Json::Object(members)
            },
            other => other,
        }
    }
}

/// Why a text is no JSON.
#[derive(Debug, PartialEq)]
pub struct JsonError {
    pub message: String,
}

/// What became of reading JSON: the meaning of the value, or what the error says.
pub open spec fn read_model(read: Result<Json, JsonError>) -> Result<JsonModel, Seq<char>> {
    match read {
        Ok(json) => Ok(json@),
        Err(error) => Err(error.message@),
    }
}

impl JsonError {
    /// The error of `serde_json` as plain data.
    fn from_error(error: serde_json::Error) -> (own: JsonError)
        ensures
            own.message@ == error_text(error),
    {
        JsonError { message: describe_error(&error) }
    }
}

impl Json {
    /// Reads JSON out of bytes. What was written for a value that reads back is read as that
    /// value.
    pub fn from_bytes(bytes: &[u8]) -> (read: Result<Json, JsonError>)
        ensures
            read_model(read) == parsed_bytes(bytes@),
            forall|v: JsonModel|
                reads_back(v) && bytes@ == encode_utf8(#[trigger] written_text(v)) ==> read_model(
                    read,
                ) == success(v),
    {
        match parse_bytes(bytes) {
            Ok(value) => Ok(Json::from_value(value)),
            Err(error) => Err(JsonError::from_error(error)),
        }
    }

    /// Reads JSON out of a text. What was written for a value that reads back is read as that
    /// value.
    pub fn from_text(text: &str) -> (read: Result<Json, JsonError>)
        ensures
            read_model(read) == parsed_text(text@),
            forall|v: JsonModel|
                reads_back(v) && text@ == #[trigger] written_text(v) ==> read_model(read)
                    == success(v),
    {
        match parse_text(text) {
            Ok(value) => Ok(Json::from_value(value)),
            Err(error) => Err(JsonError::from_error(error)),
        }
    }

    /// Writes this value as JSON text. Reading that text gives the value back, if it is
    /// nested no deeper than the parser goes and holds no floating-point number.
    pub fn to_text(&self) -> (written: Result<String, JsonError>)
        ensures
            written is Ok,
            written->Ok_0@ == written_text(self@),
            reads_back(self@) ==> parsed_text(written->Ok_0@) == success(self@),
    {
        match write_text(&self.to_value()) {
            Ok(text) => Ok(text),
            Err(error) => Err(JsonError::from_error(error)),
        }
    }

    /// Writes this value as the bytes of JSON text. Reading those bytes gives the
    /// value back, if it is nested no deeper than the parser goes and holds no
    /// floating-point number.
    pub fn to_bytes(&self) -> (written: Result<Vec<u8>, JsonError>)
        ensures
            written is Ok,
            written->Ok_0@ == written_bytes(self@),
            reads_back(self@) ==> parsed_bytes(written->Ok_0@) == success(self@),
    {
        match write_bytes(&self.to_value()) {
            Ok(bytes) => Ok(bytes),
            Err(error) => Err(JsonError::from_error(error)),
        }
    }
}

/// An object has finitely many members.
proof fn lemma_members_finite(members: Seq<(String, Json)>)
    ensures
        member_models(members).dom().finite(),
    decreases members.len(),
{
    if members.len() > 0 {
        lemma_members_finite(members.drop_last());
    }
}

/// An array is exact only if each of its items is.
pub proof fn lemma_item_exact(items: Seq<JsonModel>, depth: nat, i: int)
    requires
        0 <= i < items.len(),
        is_exact(JsonModel::Array(items), depth),
    ensures
        depth > 0,
        is_exact(items[i], (depth - 1) as nat),
{
    assert(JsonModel::Array(items)->Array_0 == items);
    let inner = (depth - 1) as nat;
    assert(forall|j: int| 0 <= j < items.len() ==> is_exact(#[trigger] items[j], inner));
}

/// An object is exact only if each of its members is.
pub proof fn lemma_member_exact(members: Map<Seq<char>, JsonModel>, depth: nat, name: Seq<char>)
    requires
        members.contains_key(name),
        is_exact(JsonModel::Object(members), depth),
    ensures
        depth > 0,
        members.dom().finite(),
        is_exact(members[name], (depth - 1) as nat),
{
    assert(JsonModel::Object(members)->Object_0 == members);
    let inner = (depth - 1) as nat;
    assert(forall|key: Seq<char>|
        members.contains_key(key) ==> is_exact(#[trigger] members[key], inner));
}

/// Every name of an object is the name of one of its members.
proof fn lemma_member_named(members: Seq<(String, Json)>, name: Seq<char>)
    requires
        member_models(members).contains_key(name),
    ensures
        exists|i: int| 0 <= i < members.len() && (#[trigger] members[i]).0@ == name,
    decreases members.len(),
{
    if members.len() > 0 {
        if name == members.last().0@ {
            assert(members[members.len() - 1].0@ == name);
        } else {
            lemma_member_named(members.drop_last(), name);
            let i = choose|i: int|
                0 <= i < members.drop_last().len() && (#[trigger] members.drop_last()[i]).0@
                    == name;
            assert(members[i].0@ == name);
        }
    }
}

impl Json {
    /// Whether this value is nested at most `depth` levels deep and holds no
    /// floating-point number.
    fn exact(&self, depth: u8) -> (exact: bool)
        ensures
            exact == is_exact(self@, depth as nat),
        decreases depth,
    {
        match self {
            Json::Number(n) => !is_float(n),
            Json::Array(items) => {
                if depth == 0 {
                    return false;
                }
                proof {
                    lemma_item_models(items@);
                }
                let mut i: usize = 0;
                while i < items.len()
                    invariant
                        i <= items@.len(),
                        depth > 0,
                        self@ == JsonModel::Array(item_models(items@)),
                        item_models(items@).len() == items@.len(),
                        forall|k: int|
                            0 <= k < items@.len() ==> #[trigger] item_models(items@)[k]
                                == items@[k]@,
                        forall|k: int|
                            0 <= k < i ==> is_exact(
                                #[trigger] item_models(items@)[k],
                                (depth - 1) as nat,
                            ),
                    decreases items@.len() - i,
                {
                    if !items[i].exact(depth - 1) {
                        proof {
                            if is_exact(self@, depth as nat) {
                                lemma_item_exact(item_models(items@), depth as nat, i as int);
                            }
                        }
                        return false;
                    }
                    i = i + 1;
                }
                true
            },
            Json::Object(members) => {
                if depth == 0 {
                    return false;
                }
                let mut i: usize = 0;
                while i < members.len()
                    invariant
                        i <= members@.len(),
                        depth > 0,
                        self@ == JsonModel::Object(member_models(members@)),
                        forall|k: int|
                            0 <= k < i ==> is_exact(
                                member_models(members@)[(#[trigger] members@[k]).0@],
                                (depth - 1) as nat,
                            ),
                    decreases members@.len() - i,
                {
                    let ghost name = members@[i as int].0@;
                    proof {
                        lemma_member_present(members@, i as int);
                    }
                    match Json::position(members, members[i].0.as_str()) {
                        Some(p) => {
                            if !members[p].1.exact(depth - 1) {
                                proof {
                                    if is_exact(self@, depth as nat) {
                                        lemma_member_exact(
                                            member_models(members@),
                                            depth as nat,
                                            name,
                                        );
                                    }
                                }
                                return false;
                            }
                        },
                        None => {},
                    }
                    i = i + 1;
                }
                proof {
                    lemma_members_finite(members@);
                    assert forall|name: Seq<char>|
                        member_models(members@).contains_key(name) implies is_exact(
                        #[trigger] member_models(members@)[name],
                        (depth - 1) as nat,
                    ) by {
                        lemma_member_named(members@, name);
                        let k = choose|k: int|
                            0 <= k < members@.len() && (#[trigger] members@[k]).0@ == name;
                        assert(members@[k].0@ == name);
                    }
                }
                true
            },
            _ => true,
        }
    }

    /// Whether this value comes back when what is written for it is read.
    pub fn reads_back(&self) -> (back: bool)
        ensures
            back == reads_back(self@),
    {
        self.exact(PARSER_DEPTH)
    }
}

} // verus!
