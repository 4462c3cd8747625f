//! The list of URLs that are not to be crawled.

use crate::text::{holds_text, texts};
use vstd::prelude::*;

verus! {

/// Whether `link` stands in the list, letter for letter.
pub fn contains(blacklist_url: &Vec<String>, link: &str) -> (r: bool)
    ensures
        r == texts(blacklist_url@).contains(link@),
{
    holds_text(blacklist_url, link)
}

} // verus!
