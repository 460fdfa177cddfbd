//! What the crate takes from `serde_json`: parsing, writing out, and taking
//! values apart and putting them together one level at a time.

use vstd::prelude::*;
#[allow(unused_imports)]
use vstd::utf8::encode_utf8;
use crate::json::JsonModel;

verus! {

/// `serde_json::Number`: a JSON number, carried through unread.
#[verifier::external_type_specification]
#[verifier::external_body]
pub struct ExNumber(serde_json::Number);

/// `serde_json::Value`: a JSON value as the parser hands it out.
#[verifier::external_type_specification]
#[verifier::external_body]
pub struct ExValue(serde_json::Value);

/// `serde_json::Map`: the members of a JSON object.
#[verifier::external_type_specification]
#[verifier::external_body]
#[verifier::reject_recursive_types(K)]
#[verifier::reject_recursive_types(V)]
pub struct ExMap<K, V>(serde_json::Map<K, V>);

/// `serde_json::Error`: why a text is no JSON.
#[verifier::external_type_specification]
#[verifier::external_body]
pub struct ExError(serde_json::Error);

/// How many levels of nesting the parser of `serde_json` accepts.
pub const PARSER_DEPTH: u8 = 127;

/// What a `serde_json::Value` holds.
pub uninterp spec fn value_model(value: serde_json::Value) -> JsonModel;

/// What a `serde_json::Map` holds.
pub uninterp spec fn object_model(
    members: serde_json::Map<String, serde_json::Value>,
) -> Map<Seq<char>, JsonModel>;

/// What a `serde_json::Error` says when it is printed.
pub uninterp spec fn error_text(error: serde_json::Error) -> Seq<char>;

/// What `serde_json::from_slice` makes of `bytes`: the value, or what the error
/// says.
pub uninterp spec fn parsed_bytes(bytes: Seq<u8>) -> Result<JsonModel, Seq<char>>;

/// What `serde_json::to_string` writes for a value.
pub uninterp spec fn written_text(value: JsonModel) -> Seq<char>;

/// Whether `serde_json::Number::is_f64` takes a number for a floating-point number.
pub uninterp spec fn is_fraction(number: serde_json::Number) -> bool;

/// What reading a text comes to: the same as reading its bytes.
pub open spec fn parsed_text(text: Seq<char>) -> Result<JsonModel, Seq<char>> {
    parsed_bytes(encode_utf8(text))
}

/// The bytes that are written for a value: those of its text.
pub open spec fn written_bytes(value: JsonModel) -> Seq<u8> {
    encode_utf8(written_text(value))
}

/// Whether a value is nested at most `depth` levels deep and holds no floating-point
/// number.
pub open spec fn is_exact(value: JsonModel, depth: nat) -> bool
    decreases depth,
{
    match value {
        JsonModel::Number(n) => !is_fraction(n),
        JsonModel::Array(items) => depth > 0 && forall|i: int|
            0 <= i < items.len() ==> is_exact(#[trigger] items[i], (depth - 1) as nat),
        JsonModel::Object(members) => depth > 0 && members.dom().finite() && forall|
            name: Seq<char>,
        |
            members.contains_key(name) ==> is_exact(#[trigger] members[name], (depth - 1) as nat),
        _ => true,
    }
}

/// Whether a value comes back when what is written for it is read: it is nested no
/// deeper than the parser goes and holds no floating-point number.
pub open spec fn reads_back(value: JsonModel) -> bool {
    is_exact(value, PARSER_DEPTH as nat)
}

/// The outermost level of a `serde_json::Value`.
pub enum Node {
    Null,
    Bool(bool),
    Number(serde_json::Number),
    Text(String),
    Array(Vec<serde_json::Value>),
    Object(serde_json::Map<String, serde_json::Value>),
}

impl Node {
    /// The value whose outermost level this is.
    pub open spec fn model(self) -> JsonModel {
        match self {
            Node::Null => JsonModel::Null,
            Node::Bool(b) => JsonModel::Bool(b),
            Node::Number(n) => JsonModel::Number(n),
            Node::Text(s) => JsonModel::Text(s@),
            Node::Array(items) => JsonModel::Array(value_models(items@)),
            Node::Object(members) => JsonModel::Object(object_model(members)),
        }
    }
}

/// What each of several `serde_json` values holds, in order.
pub open spec fn value_models(values: Seq<serde_json::Value>) -> Seq<JsonModel> {
    Seq::new(values.len(), |i: int| value_model(values[i]))
}

/// The map that pairs of names and `serde_json` values amount to: of several
/// pairs with one name, the last one counts.
pub open spec fn pair_models(pairs: Seq<(String, serde_json::Value)>) -> Map<Seq<char>, JsonModel>
    decreases pairs.len(),
{
    if pairs.len() == 0 {
        Map::empty()
    } else {
        pair_models(pairs.drop_last()).insert(pairs.last().0@, value_model(pairs.last().1))
    }
}

/// No members at all.
pub open spec fn empty_object() -> Map<Seq<char>, JsonModel> {
    Map::empty()
}

/// The outcome of reading that is this value.
pub open spec fn success(value: JsonModel) -> Result<JsonModel, Seq<char>> {
    Ok(value)
}

/// The value that was parsed, or what the error says.
pub open spec fn outcome_model(parsed: Result<serde_json::Value, serde_json::Error>) -> Result<
    JsonModel,
    Seq<char>,
> {
    match parsed {
        Ok(value) => Ok(value_model(value)),
        Err(error) => Err(error_text(error)),
    }
}

/// Takes a `serde_json::Value` apart by its variants. The level that comes out
/// holds what the value held.
#[verifier::external_body]
pub(crate) fn open_value(value: serde_json::Value) -> (node: Node)
    ensures
        node.model() == value_model(value),
{
    match value {
        serde_json::Value::Null => Node::Null,
        serde_json::Value::Bool(b) => Node::Bool(b),
        serde_json::Value::Number(n) => Node::Number(n),
        serde_json::Value::String(s) => Node::Text(s),
        serde_json::Value::Array(items) => Node::Array(items),
        serde_json::Value::Object(members) => Node::Object(members),
    }
}

/// Makes a `serde_json::Value` of its outermost level, by the variant of the
/// same name. The value holds what the level held.
#[verifier::external_body]
pub(crate) fn close_value(node: Node) -> (value: serde_json::Value)
    ensures
        value_model(value) == node.model(),
{
    match node {
        Node::Null => serde_json::Value::Null,
        Node::Bool(b) => serde_json::Value::Bool(b),
        Node::Number(n) => serde_json::Value::Number(n),
        Node::Text(s) => serde_json::Value::String(s),
        Node::Array(items) => serde_json::Value::Array(items),
        Node::Object(members) => serde_json::Value::Object(members),
    }
}

/// `serde_json::Map::into_iter`: hands out every member of the map, each name
/// once.
#[verifier::external_body]
pub(crate) fn members_of(members: serde_json::Map<String, serde_json::Value>) -> (pairs: Vec<
    (String, serde_json::Value),
>)
    ensures
        pair_models(pairs@) == object_model(members),
        forall|i: int, j: int|
            0 <= i < j < pairs@.len() ==> (#[trigger] pairs@[i]).0@ != (#[trigger] pairs@[j]).0@,
{
    members.into_iter().collect()
}

/// `serde_json::Map::new`: a map without members.
#[verifier::external_body]
pub(crate) fn no_members() -> (members: serde_json::Map<String, serde_json::Value>)
    ensures
        object_model(members) == empty_object(),
{
    serde_json::Map::new()
}

/// `serde_json::Map::insert`: afterwards the name stands for the value, and every
/// other name for what it stood for before.
#[verifier::external_body]
pub(crate) fn put_member(
    members: &mut serde_json::Map<String, serde_json::Value>,
    name: String,
    value: serde_json::Value,
)
    ensures
        object_model(*final(members)) == object_model(*old(members)).insert(
            name@,
            value_model(value),
        ),
{
    members.insert(name, value);
}

/// `serde_json::Number::clone`: the same number again.
#[verifier::external_body]
pub(crate) fn copy_number(number: &serde_json::Number) -> (copy: serde_json::Number)
    ensures
        copy == *number,
{
    number.clone()
}

/// `serde_json::Number::is_f64`: whether a number is a floating-point number.
#[verifier::external_body]
pub(crate) fn is_float(number: &serde_json::Number) -> (float: bool)
    ensures
        float == is_fraction(*number),
{
    number.is_f64()
}

/// `serde_json::from_slice` into a `serde_json::Value`. The outcome depends on the
/// bytes alone. What was written for a value that is nested at most as deep as the
/// parser goes and holds no floating-point number is read as that value;
/// floating-point numbers are read with a last digit that may differ.
#[verifier::external_body]
pub(crate) fn parse_bytes(bytes: &[u8]) -> (parsed: Result<serde_json::Value, serde_json::Error>)
    ensures
        outcome_model(parsed) == parsed_bytes(bytes@),
        forall|v: JsonModel|
            reads_back(v) && bytes@ == encode_utf8(#[trigger] written_text(v)) ==> outcome_model(
                parsed,
            ) == success(v),
{
    serde_json::from_slice(bytes)
}

/// `serde_json::from_str` into a `serde_json::Value`. It reads the bytes of the text by the
/// code that reads bytes, and skips a check that those of a text always pass. What is
/// said of written values is as for bytes.
#[verifier::external_body]
pub(crate) fn parse_text(text: &str) -> (parsed: Result<serde_json::Value, serde_json::Error>)
    ensures
        outcome_model(parsed) == parsed_bytes(encode_utf8(text@)),
        forall|v: JsonModel|
            reads_back(v) && text@ == #[trigger] written_text(v) ==> outcome_model(parsed)
                == success(v),
{
    serde_json::from_str(text)
}

/// `serde_json::to_string` of a `serde_json::Value`. It succeeds: the names of a
/// `serde_json::Value` are strings, and writing to memory does not fail. The text is read
/// as the value that it was written for, as far as is said of reading.
#[verifier::external_body]
pub(crate) fn write_text(value: &serde_json::Value) -> (written: Result<String, serde_json::Error>)
    ensures
        written is Ok,
        written->Ok_0@ == written_text(value_model(*value)),
        reads_back(value_model(*value)) ==> parsed_bytes(encode_utf8(written->Ok_0@)) == success(
            value_model(*value),
        ),
{
    serde_json::to_string(value)
}

/// `serde_json::to_vec` of a `serde_json::Value`: the bytes of which
/// `serde_json::to_string` makes its text. It succeeds for the same reasons, and the
/// bytes are read as the value that they were written for, as far as is said of
/// reading.
#[verifier::external_body]
pub(crate) fn write_bytes(value: &serde_json::Value) -> (written: Result<
    Vec<u8>,
    serde_json::Error,
>)
    ensures
        written is Ok,
        written->Ok_0@ == encode_utf8(written_text(value_model(*value))),
        reads_back(value_model(*value)) ==> parsed_bytes(written->Ok_0@) == success(
            value_model(*value),
        ),
{
    serde_json::to_vec(value)
}

/// The `Display` text of a `serde_json::Error`.
#[verifier::external_body]
pub(crate) fn describe_error(error: &serde_json::Error) -> (text: String)
    ensures
        text@ == error_text(*error),
{
    error.to_string()
}

} // verus!
