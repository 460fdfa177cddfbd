//! What comes from chance and from the clock: names for clients, and times.

use vstd::prelude::*;

verus! {

/// A decimal digit.
pub open spec fn is_digit(c: char) -> bool {
    '0' <= c && c <= '9'
}

/// A hexadecimal digit in lower case.
pub open spec fn is_hex_digit(c: char) -> bool {
    is_digit(c) || ('a' <= c && c <= 'f')
}

/// Whether the hyphens of a UUID stand at `i`.
pub open spec fn is_hyphen_place(i: int) -> bool {
    i == 8 || i == 13 || i == 18 || i == 23
}

/// The text of a random UUID (version 4, variant 1): 32 hexadecimal digits in five
/// groups.
pub open spec fn is_uuid_v4(text: Seq<char>) -> bool {
    &&& text.len() == 36
    &&& forall|i: int|
        0 <= i < 36 ==> if is_hyphen_place(i) {
            #[trigger] text[i] == '-'
        } else {
            is_hex_digit(text[i])
        }
    &&& text[14] == '4'
    &&& (text[19] == '8' || text[19] == '9' || text[19] == 'a' || text[19] == 'b')
}

/// Two decimal digits from `i` on.
pub open spec fn two_digits(text: Seq<char>, i: int) -> bool {
    is_digit(text[i]) && is_digit(text[i + 1])
}

/// Nothing but decimal digits from `i` to before `j`.
pub open spec fn all_digits(text: Seq<char>, i: int, j: int) -> bool {
    forall|k: int| i <= k < j ==> is_digit(#[trigger] text[k])
}

/// The year that a text begins with and that ends before `end`: four digits, or a sign and
/// at least four digits.
pub open spec fn is_year(text: Seq<char>, end: int) -> bool {
    if text[0] == '+' || text[0] == '-' {
        5 <= end && all_digits(text, 1, end)
    } else {
        end == 4 && all_digits(text, 0, end)
    }
}

/// The part of a second from `i` to before `j`: nothing, or a point and three, six or nine
/// digits.
pub open spec fn is_fraction_of_second(text: Seq<char>, i: int, j: int) -> bool {
    i == j || (text[i] == '.' && (j == i + 4 || j == i + 7 || j == i + 10) && all_digits(
        text,
        i + 1,
        j,
    ))
}

/// The text of a time by RFC 3339 with a numeric offset: `T` stands at `t`, the date
/// before it, the time of day after it, and the offset at the end.
pub open spec fn is_rfc3339_at(text: Seq<char>, t: int) -> bool {
    let end = text.len() as int;
    &&& 10 <= t
    &&& t + 15 <= end
    &&& is_year(text, t - 6)
    &&& text[t - 6] == '-' && two_digits(text, t - 5)
    &&& text[t - 3] == '-' && two_digits(text, t - 2)
    &&& text[t] == 'T' && two_digits(text, t + 1)
    &&& text[t + 3] == ':' && two_digits(text, t + 4)
    &&& text[t + 6] == ':' && two_digits(text, t + 7)
    &&& is_fraction_of_second(text, t + 9, end - 6)
    &&& (text[end - 6] == '+' || text[end - 6] == '-') && two_digits(text, end - 5)
    &&& text[end - 3] == ':' && two_digits(text, end - 2)
}

/// The text of a time by RFC 3339 with a numeric offset.
pub open spec fn is_rfc3339(text: Seq<char>) -> bool {
    exists|t: int| is_rfc3339_at(text, t)
}

/// `uuid::Uuid::new_v4` and its `Display` text: a random UUID, hyphenated, in lower
/// case. Nothing is said of which one it is, nor that it is a new one.
#[verifier::external_body]
pub(crate) fn random_id() -> (id: String)
    ensures
        is_uuid_v4(id@),
{
    uuid::Uuid::new_v4().to_string()
}

/// `chrono::Local::now` and `chrono::DateTime::to_rfc3339`: the time on the clock, with the
/// offset of the time zone. Nothing is said of which time it is.
#[verifier::external_body]
pub(crate) fn local_time() -> (time: String)
    ensures
        is_rfc3339(time@),
{
    chrono::Local::now().to_rfc3339()
}

} // verus!
