//! What the crate takes from the text functions of the standard library.

use vstd::prelude::*;

verus! {

/// Whether a character is white space: it has the property `White_Space` of Unicode, by
/// which the standard library trims.
pub open spec fn is_white(c: char) -> bool {
    let code = c as u32;
    ||| 0x9 <= code <= 0xd
    ||| code == 0x20
    ||| code == 0x85
    ||| code == 0xa0
    ||| code == 0x1680
    ||| 0x2000 <= code <= 0x200a
    ||| code == 0x2028
    ||| code == 0x2029
    ||| code == 0x202f
    ||| code == 0x205f
    ||| code == 0x3000
}

/// Whether `trimmed` is what is left of `text` between `i` and `j`, with nothing but white
/// space cut off, and none left at the ends.
pub open spec fn is_trimmed_at(text: Seq<char>, trimmed: Seq<char>, i: int, j: int) -> bool {
    &&& 0 <= i <= j <= text.len()
    &&& trimmed == text.subrange(i, j)
    &&& forall|k: int| 0 <= k < i ==> is_white(#[trigger] text[k])
    &&& forall|k: int| j <= k < text.len() ==> is_white(#[trigger] text[k])
    &&& i < j ==> !is_white(text[i]) && !is_white(text[j - 1])
}

/// Whether `trimmed` is what is left of `text` without the white space at its ends.
pub open spec fn is_trimmed(text: Seq<char>, trimmed: Seq<char>) -> bool {
    exists|i: int, j: int| is_trimmed_at(text, trimmed, i, j)
}

/// Whether `part` stands in `text` from `i` on.
pub open spec fn contains_at(text: Seq<char>, part: Seq<char>, i: int) -> bool {
    0 <= i <= text.len() - part.len() && text.subrange(i, i + part.len()) == part
}

/// Whether `part` stands somewhere in `text`.
pub open spec fn contains_text(text: Seq<char>, part: Seq<char>) -> bool {
    exists|i: int| contains_at(text, part, i)
}

/// `str::trim`: the text without the white space at its ends. White space is what has the
/// property `White_Space` of Unicode.
#[verifier::external_body]
pub(crate) fn trim(text: &str) -> (trimmed: &str)
    ensures
        is_trimmed(text@, trimmed@),
{
    text.trim()
}

/// `str::contains` with a text as its pattern: whether the pattern stands somewhere in
/// the text.
#[verifier::external_body]
pub(crate) fn contains(text: &str, part: &str) -> (found: bool)
    ensures
        found == contains_text(text@, part@),
{
    text.contains(part)
}

/// A text is trimmed in one way only.
pub proof fn lemma_trimmed_unique(text: Seq<char>, a: Seq<char>, b: Seq<char>)
    requires
        is_trimmed(text, a),
        is_trimmed(text, b),
    ensures
        a == b,
{
    let (i, j) = choose|i: int, j: int| is_trimmed_at(text, a, i, j);
    let (k, l) = choose|k: int, l: int| is_trimmed_at(text, b, k, l);
    if i < j {
        assert(!is_white(text[i]) && !is_white(text[j - 1]));
        assert(k <= i && j - 1 < l);
        assert(k < l);
        assert(!is_white(text[k]) && !is_white(text[l - 1]));
        assert(i <= k && l - 1 < j);
    } else if k < l {
        assert(!is_white(text[k]));
    }
    assert(a =~= b);
}

} // verus!
