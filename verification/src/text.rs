//! Text as sequences of characters: case folding and the slashes at the ends of a URL.

use vstd::prelude::*;
use vstd::string::*;

verus! {

/// The lower case form of an ASCII letter; any other character is left as it is.
pub open spec fn ascii_lower(c: char) -> char {
    if 'A' <= c && c <= 'Z' {
        ((c as u32) + 32) as char
    } else {
        c
    }
}

/// The form under which two links count as the same: ASCII letters in lower case.
pub open spec fn fold(s: Seq<char>) -> Seq<char> {
    s.map_values(|c: char| ascii_lower(c))
}

/// The texts of a sequence of strings.
pub open spec fn texts(items: Seq<String>) -> Seq<Seq<char>> {
    items.map_values(|s: String| s@)
}

/// The text of an optional string.
pub open spec fn option_text(s: Option<String>) -> Option<Seq<char>> {
    match s {
        Some(s) => Some(s@),
        None => None,
    }
}

/// Whether the text ends with a slash.
pub open spec fn ends_slash(s: Seq<char>) -> bool {
    s.len() > 0 && s.last() == '/'
}

/// Whether the text starts with a slash.
pub open spec fn starts_slash(s: Seq<char>) -> bool {
    s.len() > 0 && s[0] == '/'
}

/// Whether `s` ends with a slash.
pub fn ends_with_slash(s: &str) -> (r: bool)
    ensures
        r == ends_slash(s@),
{
    let n: usize = s.unicode_len();
    n > 0 && s.get_char(n - 1) == '/'
}

/// Whether `s` starts with a slash.
pub fn starts_with_slash(s: &str) -> (r: bool)
    ensures
        r == starts_slash(s@),
{
    let n: usize = s.unicode_len();
    n > 0 && s.get_char(0) == '/'
}

/// Whether the two texts are the same.
pub fn same_text(a: &str, b: &str) -> (r: bool)
    ensures
        r == (a@ == b@),
{
    a.to_owned() == b.to_owned()
}

/// Whether `text` stands in the list, letter for letter.
pub fn holds_text(items: &Vec<String>, text: &str) -> (r: bool)
    ensures
        r == texts(items@).contains(text@),
{
    let mut i: usize = 0;
    while i < items.len()
        invariant
            i <= items.len(),
            forall|j: int| 0 <= j < i ==> #[trigger] texts(items@)[j] != text@,
        decreases items.len() - i,
    {
        if same_text(items[i].as_str(), text) {
            assert(texts(items@)[i as int] == text@);
            return true;
        }
        i += 1;
    }
    false
}

} // verus!
