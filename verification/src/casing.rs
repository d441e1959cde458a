//! Unicode letter case, and building text from characters.

use vstd::prelude::*;
use cow_utils::CowUtils;

verus! {

/// Whether `char::is_lowercase` holds of a character: the Unicode `Lowercase` property.
pub uninterp spec fn lowercase_char(c: char) -> bool;

/// The text that `CowUtils::cow_to_uppercase` gives for a text: each character replaced by
/// what `char::to_uppercase` gives for it.
pub uninterp spec fn uppercase_text(s: Seq<char>) -> Seq<char>;

/// The text that `str::to_lowercase` gives for a text: each character replaced by its Unicode
/// lower case (some characters become several).
pub uninterp spec fn lowercase_text(s: Seq<char>) -> Seq<char>;

/// `str::to_lowercase`. The result depends on the text alone, and is named [`lowercase_text`].
#[verifier::external_body]
pub(crate) fn to_lowercase(s: &str) -> (r: String)
    ensures
        r@ == lowercase_text(s@),
{
    s.to_lowercase()
}

/// `char::is_lowercase`: does the character have the Unicode `Lowercase` property? The result
/// depends on the character alone, and is named [`lowercase_char`].
#[verifier::external_body]
pub(crate) fn is_lowercase(c: char) -> (r: bool)
    ensures
        r == lowercase_char(c),
{
    c.is_lowercase()
}

/// `cow_utils::CowUtils::cow_to_uppercase` on a string slice, made into an owned `String`.
/// The crate maps every character with `char::to_uppercase` (a character can become several),
/// and hands the slice back unchanged when no character changes; either way the text is the
/// same, and depends on the input alone. It is named [`uppercase_text`].
#[verifier::external_body]
pub(crate) fn to_uppercase(s: &str) -> (r: String)
    ensures
        r@ == uppercase_text(s@),
{
    s.cow_to_uppercase().into_owned()
}

/// A `String` of the given characters, in order, as `FromIterator<char>` for `String` builds
/// it.
#[verifier::external_body]
pub(crate) fn string_from_chars(v: &[char]) -> (r: String)
    ensures
        r@ == v@,
{
    v.iter().collect()
}

/// The text that `{:?}` formats a string as: in double quotes, each character escaped as
/// `str`'s `Debug` escapes it.
pub uninterp spec fn debug_text(s: Seq<char>) -> Seq<char>;

/// `format!("{:?}", s)` on a string slice. The result depends on the text alone, and is named
/// [`debug_text`].
#[verifier::external_body]
pub(crate) fn debug_string(s: &str) -> (r: String)
    ensures
        r@ == debug_text(s@),
{
    format!("{:?}", s)
}

/// Does any character of the text have the Unicode `Lowercase` property?
pub open spec fn has_lowercase(s: Seq<char>) -> bool {
    exists|i: int| 0 <= i < s.len() && lowercase_char(#[trigger] s[i])
}

/// `str::chars().any(char::is_lowercase)`.
pub fn any_lowercase(s: &str) -> (r: bool)
    ensures
        r == has_lowercase(s@),
{
    let v = crate::text::str_chars(s);
    let mut i: usize = 0;
    while i < v.len()
        invariant
            v@ == s@,
            i <= v@.len(),
            forall|j: int| 0 <= j < i ==> !lowercase_char(#[trigger] v@[j]),
        decreases v@.len() - i,
    {
        if is_lowercase(v[i]) {
            return true;
        }
        i = i + 1;
    }
    false
}

} // verus!
