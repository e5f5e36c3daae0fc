//! Strings as sequences of characters.

use vstd::prelude::*;
use vstd::string::*;
use vstd::utf8::is_ascii_chars;

verus! {

/// The least number of characters that the text of a list row takes up.
pub const COLUMN_WIDTH: usize = 25;

/// The lower case form of an ASCII letter; any other character is its own.
pub open spec fn ascii_lower(c: char) -> char {
    if 'A' <= c <= 'Z' {
        (c as u32 + 32) as char
    } else {
        c
    }
}

/// The upper case form of an ASCII letter; any other character is its own.
pub open spec fn ascii_upper(c: char) -> char {
    if 'a' <= c <= 'z' {
        (c as u32 - 32) as char
    } else {
        c
    }
}

/// `s` with each ASCII letter in lower case.
pub open spec fn ascii_lowered(s: Seq<char>) -> Seq<char> {
    s.map_values(|c: char| ascii_lower(c))
}

/// `s` with each ASCII letter in upper case.
pub open spec fn ascii_uppered(s: Seq<char>) -> Seq<char> {
    s.map_values(|c: char| ascii_upper(c))
}

/// What `str::to_lowercase` makes of the characters `s`, where not all of them
/// are ASCII: their lower case form by the Unicode tables of the standard
/// library.
pub uninterp spec fn unicode_lowercase(s: Seq<char>) -> Seq<char>;

/// The lower case form of `s`.
pub open spec fn lowercase(s: Seq<char>) -> Seq<char> {
    if is_ascii_chars(s) {
        ascii_lowered(s)
    } else {
        unicode_lowercase(s)
    }
}

/// `str::to_lowercase`: the result is the lower case form of the argument, and
/// depends on nothing but the argument's characters. Of ASCII text each letter
/// goes to lower case and every other character stays.
pub assume_specification[ str::to_lowercase ](s: &str) -> (r: String)
    ensures
        is_ascii_chars(s@) ==> r@ == ascii_lowered(s@),
        !is_ascii_chars(s@) ==> r@ == unicode_lowercase(s@),
;

/// `String::push`: the character is appended at the end.
pub assume_specification[ String::push ](s: &mut String, ch: char)
    ensures
        final(s)@ == old(s)@.push(ch),
;

/// `String::pop`: the last character is removed and returned, and an empty
/// string stays empty and gives `None`.
pub assume_specification[ String::pop ](s: &mut String) -> (r: Option<char>)
    ensures
        old(s)@.len() == 0 ==> r is None && final(s)@ == old(s)@,
        old(s)@.len() > 0 ==> r == Some(old(s)@.last()) && final(s)@ == old(s)@.drop_last(),
;

/// Whether `needle` stands somewhere in `haystack`, as a run of adjacent
/// characters.
pub open spec fn occurs_in(needle: Seq<char>, haystack: Seq<char>) -> bool {
    exists|i: int|
        0 <= i && i + needle.len() <= haystack.len() && #[trigger] haystack.subrange(
            i,
            i + needle.len(),
        ) == needle
}

/// `str::contains` with a string as the pattern: whether some part of
/// `haystack` equals `needle`.
#[verifier::external_body]
pub(crate) fn contains_text(haystack: &str, needle: &str) -> (r: bool)
    ensures
        r == occurs_in(needle@, haystack@),
{
    haystack.contains(needle)
}

/// The characters of each string of a list.
pub open spec fn texts(list: Seq<String>) -> Seq<Seq<char>> {
    list.map_values(|s: String| s@)
}

/// `s`, followed by as many spaces as it takes to fill a column.
pub open spec fn padded(s: Seq<char>) -> Seq<char> {
    if s.len() < COLUMN_WIDTH {
        s + Seq::new((COLUMN_WIDTH - s.len()) as nat, |i: int| ' ')
    } else {
        s
    }
}

/// Fills `s` up with spaces to the width of a column. A longer text is left as
/// it is.
pub(crate) fn pad(s: &str) -> (r: String)
    ensures
        r@ == padded(s@),
{
    let mut padded_text = s.to_owned();
    let mut length: usize = s.unicode_len();
    while length < COLUMN_WIDTH
        invariant
            s@.len() <= length,
            s@.len() < COLUMN_WIDTH ==> length <= COLUMN_WIDTH,
            length > s@.len() ==> s@.len() < COLUMN_WIDTH,
            padded_text@ == s@ + Seq::new((length - s@.len()) as nat, |i: int| ' '),
        decreases COLUMN_WIDTH - length,
    {
        padded_text.push(' ');
        length = length + 1;
    }
    padded_text
}

/// Lower casing ASCII text keeps its length; each letter from `A` to `Z` becomes
/// the letter that stands 32 places further on, and every other character
/// stays.
pub proof fn law_ascii_is_lowered_letter_by_letter(s: Seq<char>, i: int)
    requires
        is_ascii_chars(s),
    ensures
        lowercase(s).len() == s.len(),
        0 <= i < s.len() && 65 <= s[i] as u32 <= 90 ==> lowercase(s)[i] as u32 == s[i] as u32 + 32,
        0 <= i < s.len() && !(65 <= s[i] as u32 <= 90) ==> lowercase(s)[i] == s[i],
{
}

/// Text that is not all ASCII is lowered by the Unicode tables.
pub proof fn law_other_text_is_lowered_by_unicode(s: Seq<char>, i: int)
    requires
        0 <= i < s.len(),
        s[i] as u32 > 127,
    ensures
        lowercase(s) == unicode_lowercase(s),
{
    assert(!is_ascii_chars(s));
}

/// Raising ASCII letters undoes lowering them: `a` to `z` and `A` to `Z` swap
/// places, and every other character stays.
pub proof fn law_ascii_cases_are_a_fixed_distance_apart(s: Seq<char>, i: int)
    requires
        0 <= i < s.len(),
    ensures
        ascii_uppered(s).len() == s.len(),
        97 <= s[i] as u32 <= 122 ==> ascii_uppered(s)[i] as u32 == s[i] as u32 - 32,
        !(97 <= s[i] as u32 <= 122) ==> ascii_uppered(s)[i] == s[i],
        ascii_lowered(s).len() == s.len(),
        65 <= s[i] as u32 <= 90 ==> ascii_lowered(s)[i] as u32 == s[i] as u32 + 32,
        !(65 <= s[i] as u32 <= 90) ==> ascii_lowered(s)[i] == s[i],
{
}

/// A text occurs in every text that it is a part of, whatever stands before and
/// behind it.
pub proof fn law_a_part_occurs(needle: Seq<char>, before: Seq<char>, after: Seq<char>)
    ensures
        occurs_in(needle, before + needle + after),
{
    let whole = before + needle + after;
    let i = before.len() as int;
    assert(whole.subrange(i, i + needle.len()) =~= needle);
}

/// A text that occurs in another is no longer than that one, and what remains
/// of it before and behind makes it whole.
pub proof fn law_what_occurs_is_a_part(needle: Seq<char>, haystack: Seq<char>) -> (parts: (
    Seq<char>,
    Seq<char>,
))
    requires
        occurs_in(needle, haystack),
    ensures
        haystack == parts.0 + needle + parts.1,
        needle.len() <= haystack.len(),
{
    let i = choose|i: int|
        0 <= i && i + needle.len() <= haystack.len() && #[trigger] haystack.subrange(
            i,
            i + needle.len(),
        ) == needle;
    let parts = (haystack.take(i), haystack.skip(i + needle.len()));
    assert forall|j: int| 0 <= j < needle.len() implies haystack[i + j] == #[trigger] needle[j] by {
        assert(haystack.subrange(i, i + needle.len())[j] == needle[j]);
    }
    assert(haystack =~= parts.0 + needle + parts.1);
    parts
}

/// The characters of a list of strings are those of each string, in order.
pub proof fn law_texts_are_those_of_the_strings(list: Seq<String>, i: int)
    ensures
        texts(list).len() == list.len(),
        0 <= i < list.len() ==> texts(list)[i] == list[i]@,
{
}

/// A padded text begins with the text, goes on with nothing but spaces, and is
/// 25 characters long, or as long as the text where that is longer.
pub proof fn law_padding_fills_the_column(s: Seq<char>, i: int)
    ensures
        s.len() >= 25 ==> padded(s) == s,
        s.len() < 25 ==> padded(s).len() == 25,
        0 <= i < s.len() ==> padded(s)[i] == s[i],
        s.len() <= i < 25 ==> padded(s)[i] == ' ',
{
}

} // verus!
