//! What the outside Unicode crates and std say about text, and what is taken from them as given.
use unicode_segmentation::UnicodeSegmentation;
use unicode_width::{UnicodeWidthChar, UnicodeWidthStr};
use vstd::prelude::*;
use vstd::utf8::*;

verus! {

/// The extended grapheme clusters of a text, in order.
pub uninterp spec fn clusters(s: Seq<char>) -> Seq<Seq<char>>;

/// The extended grapheme cluster that ends a text, found from the end.
pub uninterp spec fn last_cluster(s: Seq<char>) -> Seq<char>;

/// The columns of one character; none for a control character.
pub uninterp spec fn char_columns(c: char) -> Option<usize>;

/// The columns of a text.
pub uninterp spec fn text_columns(s: Seq<char>) -> usize;

/// The columns of a text without its terminal escape sequences.
pub uninterp spec fn shown_columns(s: Seq<char>) -> usize;

/// The rows of a text wrapped to a width, the first row behind one indent and the others behind
/// another.
pub uninterp spec fn wrapped_rows(
    s: Seq<char>,
    width: usize,
    first: Seq<char>,
    later: Seq<char>,
) -> Seq<Seq<char>>;

/// Whether a character is a letter or a number in Unicode.
pub uninterp spec fn letter_or_number(c: char) -> bool;

/// The upper-case form of a text.
pub uninterp spec fn uppercased(s: Seq<char>) -> Seq<char>;

/// The text of bytes, with replacement characters where they are no UTF-8.
pub uninterp spec fn lossy(bytes: Seq<u8>) -> Seq<char>;

/// The concatenation of the parts.
pub open spec fn concatenated(parts: Seq<Seq<char>>) -> Seq<char>
    decreases parts.len(),
{
    if parts.len() == 0 {
        Seq::empty()
    } else {
        concatenated(parts.drop_last()) + parts.last()
    }
}

/// `UnicodeSegmentation::graphemes` with extended clusters, collected. The iterator hands out
/// slices that lie one behind the other and cover the text, each of at least one character.
#[verifier::external_body]
pub(crate) fn graphemes(s: &str) -> (r: Vec<String>)
    ensures
        r.deep_view() == clusters(s@),
        concatenated(r.deep_view()) == s@,
        forall|i: int| 0 <= i < r@.len() ==> (#[trigger] r@[i])@.len() > 0,
{
    s.graphemes(true).map(|grapheme| grapheme.to_owned()).collect()
}

/// The last item of `UnicodeSegmentation::grapheme_indices` with extended clusters, taken with
/// `next_back`. The slice ends where the text ends and holds at least one character; there is
/// none exactly when the text is empty.
#[verifier::external_body]
pub(crate) fn last_grapheme(s: &str) -> (r: Option<String>)
    ensures
        r is None <==> s@.len() == 0,
        r matches Some(g) ==> g@ == last_cluster(s@) && 0 < g@.len() <= s@.len() && g@
            == s@.subrange(s@.len() - g@.len(), s@.len() as int),
{
    s.grapheme_indices(true).next_back().map(|(_, grapheme)| grapheme.to_owned())
}

/// `UnicodeWidthChar::width`: none below U+0020 and from U+007F up to U+009F, one column for the
/// other characters below U+007F; the others have the width that a table of bytes gives.
#[verifier::external_body]
pub(crate) fn char_width(c: char) -> (r: Option<usize>)
    ensures
        r == char_columns(c),
        r is None <==> c < '\u{20}' || '\u{7f}' <= c < '\u{a0}',
        '\u{20}' <= c < '\u{7f}' ==> r == Some(1usize),
        r matches Some(w) ==> w <= u8::MAX,
{
    UnicodeWidthChar::width(c)
}

/// `UnicodeWidthStr::width`; the empty text has no columns.
#[verifier::external_body]
pub(crate) fn text_width(s: &str) -> (r: usize)
    ensures
        r == text_columns(s@),
        s@.len() == 0 ==> r == 0,
{
    UnicodeWidthStr::width(s)
}

/// `textwrap::core::display_width`; the empty text has no columns.
#[verifier::external_body]
pub(crate) fn display_width(s: &str) -> (r: usize)
    ensures
        r == shown_columns(s@),
        s@.len() == 0 ==> r == 0,
{
    textwrap::core::display_width(s)
}

/// `textwrap::wrap` with the options `textwrap::Options::new(width)` and the two indents. Each
/// line of the text gives at least one row.
#[verifier::external_body]
pub(crate) fn wrap(s: &str, width: usize, first: &str, later: &str) -> (r: Vec<String>)
    ensures
        r.deep_view() == wrapped_rows(s@, width, first@, later@),
        r@.len() > 0,
{
    let options = textwrap::Options::new(width).initial_indent(first).subsequent_indent(later);
    textwrap::wrap(s, options).into_iter().map(|row| row.into_owned()).collect()
}

/// `char::is_alphanumeric`.
#[verifier::external_body]
pub(crate) fn is_alphanumeric(c: char) -> (r: bool)
    ensures
        r == letter_or_number(c),
{
    c.is_alphanumeric()
}

/// `str::to_uppercase`.
#[verifier::external_body]
pub(crate) fn to_uppercase(s: &str) -> (r: String)
    ensures
        r@ == uppercased(s@),
{
    s.to_uppercase()
}

/// `String::from_utf8_lossy`: bytes that are UTF-8 give the text they encode.
#[verifier::external_body]
pub(crate) fn text_lossy(bytes: &[u8]) -> (r: String)
    ensures
        r@ == lossy(bytes@),
        valid_utf8(bytes@) ==> r@ == decode_utf8(bytes@),
{
    String::from_utf8_lossy(bytes).into_owned()
}

/// `String::from_utf8`: the text that the bytes encode, if they are UTF-8.
#[verifier::external_body]
pub(crate) fn text_of_utf8(bytes: Vec<u8>) -> (r: Option<String>)
    ensures
        r is Some <==> valid_utf8(bytes@),
        r matches Some(s) ==> s@ == decode_utf8(bytes@),
{
    String::from_utf8(bytes).ok()
}

} // verus!
