//! What the client of a crawl is told of a page, and what its answer does.

use crate::page::Page;
use vstd::prelude::*;

verus! {

/// What the client is told of a page.
#[derive(Debug)]
pub struct MonitorRequest {
    /// The link of the page.
    pub link: String,
    /// The user that the crawl is for.
    pub user_id: u32,
    /// The document, empty where none was fetched.
    pub html: String,
}

/// What the client is told of the page at `link`.
pub fn rpc_callback(link: &str, user_id: u32, page: Page) -> (request: MonitorRequest)
    ensures
        request.link@ == link@,
        request.user_id == user_id,
        request.html@ == (match page.html {
            Some(html) => html@,
            None => Seq::empty(),
        }),
{
    let html = match page.html {
        Some(html) => html,
        None => String::new(),
    };
    MonitorRequest { link: link.to_owned(), user_id, html }
}

/// Whether the crawl goes on after an answer of the client: once the client has turned a page
/// down, it does not.
pub fn still_active(active: bool, accepted: bool) -> (r: bool)
    ensures
        r == (active && accepted),
{
    active && accepted
}

} // verus!
