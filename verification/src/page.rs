//! Pages and the addresses on them.

use crate::address::{join_url, url_join};
use crate::text::option_text;
use vstd::prelude::*;

verus! {

/// A page of the website.
#[derive(Debug)]
pub struct Page {
    /// The address of the page.
    pub url: String,
    /// The document, where it was fetched.
    pub html: Option<String>,
}

/// A page with the given address and document.
pub fn build(url: &str, html: Option<String>) -> (page: Page)
    ensures
        page.url@ == url@,
        page.html == html,
{
    Page { url: url.to_owned(), html }
}

/// The absolute form of an address on a page at `base`, given what joining it to `base` yields:
/// the joined URL, or `base` itself where the two do not join.
pub open spec fn abs_path(base: Seq<char>, joined: Option<Seq<char>>) -> Seq<char> {
    match joined {
        Some(joined) => joined,
        None => base,
    }
}

/// The joined URL, or `base` where there is none.
pub fn joined_or_base(base: &str, joined: Option<String>) -> (url: String)
    ensures
        url@ == abs_path(base@, option_text(joined)),
{
    match joined {
        Some(joined) => joined,
        None => base.to_owned(),
    }
}

/// The absolute form of the address `href` on a page at `base`.
pub fn convert_abs_path(base: &str, href: &str) -> (url: String)
    ensures
        url@ == abs_path(base@, url_join(base@, href@)),
{
    joined_or_base(base, join_url(base, href))
}

} // verus!
