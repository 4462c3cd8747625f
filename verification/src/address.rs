//! URLs: what the `url` crate makes of a text, and which texts serve as a proxy address.

use crate::text::option_text;
use vstd::prelude::*;

verus! {

/// What the crawler reads of a URL.
#[derive(Debug)]
pub struct UrlParts {
    /// The URL written out.
    pub text: String,
    /// The host, where the URL has one.
    pub host: Option<String>,
    /// The user name, empty where the URL has none.
    pub username: String,
    /// The password, where the URL has one.
    pub password: Option<String>,
}

/// The parts of a URL as texts.
pub struct UrlPartsView {
    pub text: Seq<char>,
    pub host: Option<Seq<char>>,
    pub username: Seq<char>,
    pub password: Option<Seq<char>>,
}

impl View for UrlParts {
    type V = UrlPartsView;

    open spec fn view(&self) -> UrlPartsView {
        UrlPartsView {
            text: self.text@,
            host: option_text(self.host),
            username: self.username@,
            password: option_text(self.password),
        }
    }
}

/// The texts of the parts of an optional URL.
pub open spec fn option_parts(parts: Option<UrlParts>) -> Option<UrlPartsView> {
    match parts {
        Some(parts) => Some(parts@),
        None => None,
    }
}

/// What `url::Url::parse` makes of a text: nothing, or the parts of the URL that it reads.
pub uninterp spec fn url_parse(input: Seq<char>) -> Option<UrlPartsView>;

/// What `url::Url::join` makes of a reference, with the URL that `base` is read as for its base:
/// nothing where `base` is no URL or the two do not join.
pub uninterp spec fn url_join(base: Seq<char>, reference: Seq<char>) -> Option<Seq<char>>;

/// Whether `reqwest::Proxy::all` accepts a text as the address of a proxy.
pub uninterp spec fn proxy_accepts(address: Seq<char>) -> bool;

/// `url::Url::parse`, with `as_str`, `host_str`, `username` and `password` of the URL that it
/// returns: nothing where it returns an error. What it returns depends on the text alone.
#[verifier::external_body]
pub(crate) fn parse_url(input: &str) -> (parts: Option<UrlParts>)
    ensures
        option_parts(parts) == url_parse(input@),
{
    match url::Url::parse(input) {
        Ok(url) => Some(UrlParts {
            text: url.as_str().to_string(),
            host: url.host_str().map(str::to_string),
            username: url.username().to_string(),
            password: url.password().map(str::to_string),
        }),
        Err(_) => None,
    }
}

/// `url::Url::join` on the URL that `base` is read as: the joined URL written out, or nothing
/// where there is an error. What it returns depends on the two texts alone.
#[verifier::external_body]
pub(crate) fn join_url(base: &str, reference: &str) -> (joined: Option<String>)
    ensures
        option_text(joined) == url_join(base@, reference@),
{
    match url::Url::parse(base) {
        Ok(url) => url.join(reference).ok().map(String::from),
        Err(_) => None,
    }
}

/// `reqwest::Proxy::all`: whether the address is accepted. The crate is built without SOCKS
/// support, so no name is resolved and the answer depends on the text alone.
#[verifier::external_body]
pub(crate) fn proxy_all(address: &str) -> (accepted: bool)
    ensures
        accepted == proxy_accepts(address@),
{
    reqwest::Proxy::all(address).is_ok()
}

} // verus!
