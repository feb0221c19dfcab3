//! Comparisons of strings by their characters.

use vstd::prelude::*;
use vstd::string::*;

verus! {

/// Whether two strings hold the same characters.
pub(crate) fn same_text(a: &str, b: &str) -> (same: bool)
    ensures
        same == (a@ == b@),
{
    String::from_str(a) == String::from_str(b)
}

/// Whether `text` begins with `prefix`.
pub(crate) fn starts_with(text: &str, prefix: &str) -> (starts: bool)
    ensures
        starts == prefix@.is_prefix_of(text@),
{
    let prefix_len = prefix.unicode_len();
    if text.unicode_len() < prefix_len {
        false
    } else {
        same_text(text.substring_char(0, prefix_len), prefix)
    }
}

/// What follows the first `count` characters of `text`.
pub(crate) fn skip_chars(text: &str, count: usize) -> (rest: &str)
    requires
        count <= text@.len(),
    ensures
        rest@ == text@.skip(count as int),
{
    text.substring_char(count, text.unicode_len())
}

} // verus!
