//! What holds of the settings of the HTTP client: which redirects are followed, which proxy is
//! used, and what is always set.

use crate::address::{proxy_accepts, url_parse, UrlParts};
use crate::http_client::{
    choose_proxy, choose_redirect, ClientSettings, ProxyChoice, RedirectRule, RedirectStep,
};
use crate::website::Website;
use vstd::prelude::*;

verus! {

/// The proxy at `address` is used.
pub open spec fn is_used(choice: ProxyChoice, address: Seq<char>) -> bool {
    match choice {
        ProxyChoice::Unset => false,
        ProxyChoice::Plain(used) => used@ == address,
        ProxyChoice::BasicAuth { address: used, .. } => used@ == address,
    }
}

/// A proxy is used exactly where its address is accepted, whatever user name and password are in
/// it; these are sent along where the address is a URL, and an empty password where it has none.
pub proof fn accepted_proxies_are_used(
    address: &str,
    accepted: bool,
    url: Option<UrlParts>,
    choice: ProxyChoice,
)
    requires
        call_ensures(choose_proxy, (address, accepted, url), choice),
    ensures
        accepted ==> is_used(choice, address@),
        !accepted ==> choice is Unset,
        accepted ==> (choice is BasicAuth <==> url is Some),
        accepted && url is Some ==> choice->username@ == url->0.username@,
        accepted && url is Some && url->0.password is Some ==> choice->password@
            == url->0.password->0@,
        accepted && url is Some && url->0.password is None ==> choice->password@.len() == 0,
{
}

/// The configured proxy is used exactly where its address is accepted, whatever the website is;
/// where none is configured, none is used.
pub proof fn configured_proxies_are_used<P>(
    site: Website<P>,
    fallback_agent: &str,
    settings: ClientSettings,
)
    requires
        call_ensures(
            Website::<P>::configure_http_client,
            (&site, fallback_agent),
            settings,
        ),
    ensures
        site.configuration.proxy is None ==> settings.proxy is Unset,
        site.configuration.proxy is Some ==> ({
            let address = site.configuration.proxy->0@;
            let url = url_parse(address);
            &&& proxy_accepts(address) ==> is_used(settings.proxy, address)
            &&& !proxy_accepts(address) ==> settings.proxy is Unset
            &&& proxy_accepts(address) ==> (settings.proxy is BasicAuth <==> url is Some)
            &&& proxy_accepts(address) && url is Some ==> settings.proxy->username@
                == url->0.username
            &&& proxy_accepts(address) && url is Some && url->0.password is Some
                ==> settings.proxy->password@ == url->0.password->0
            &&& proxy_accepts(address) && url is Some && url->0.password is None
                ==> settings.proxy->password@.len() == 0
        }),
{
}

/// Whether `attempt` leads to the host, where there is one; without a host it leads there where it
/// has none either.
pub open spec fn leads_to(attempt: Option<&str>, host: Option<Seq<char>>) -> bool {
    match attempt {
        Some(attempt) => host is Some && host->0 == attempt@,
        None => host is None,
    }
}

/// A crawl whose domain is a URL follows a redirect only to the host of that URL, and there as a
/// client does by default; one whose domain is no URL follows every redirect as a client does.
pub proof fn crawls_stay_on_their_host<P>(
    site: Website<P>,
    fallback_agent: &str,
    settings: ClientSettings,
    attempt: Option<&str>,
    step: RedirectStep,
)
    requires
        call_ensures(
            Website::<P>::configure_http_client,
            (&site, fallback_agent),
            settings,
        ),
        call_ensures(RedirectRule::step, (&settings.redirect, attempt), step),
    ensures
        url_parse(site.domain@) is None ==> step is Default,
        url_parse(site.domain@) is Some ==> (step is Default <==> leads_to(
            attempt,
            url_parse(site.domain@)->0.host,
        )),
{
}

/// A rule for a URL lets through what leads to the host of that URL, and stops everything else; the
/// rule without one stops nothing.
pub proof fn rules_let_their_host_through(
    domain: Option<UrlParts>,
    rule: RedirectRule,
    attempt: Option<&str>,
    step: RedirectStep,
)
    requires
        call_ensures(choose_redirect, (domain,), rule),
        call_ensures(RedirectRule::step, (&rule, attempt), step),
    ensures
        domain is None ==> step is Default,
        domain is Some ==> (step is Default <==> match (domain->0.host, attempt) {
            (Some(host), Some(attempt)) => host@ == attempt@,
            (None, None) => true,
            _ => false,
        }),
{
}

/// The configured user agent is sent, and the given one only where none is configured; the timeout
/// is the configured one.
pub proof fn agents_and_timeouts_are_the_configured_ones<P>(
    site: Website<P>,
    fallback_agent: &str,
    settings: ClientSettings,
)
    requires
        call_ensures(
            Website::<P>::configure_http_client,
            (&site, fallback_agent),
            settings,
        ),
    ensures
        site.configuration.user_agent is Some ==> settings.user_agent@
            == site.configuration.user_agent->0@,
        site.configuration.user_agent is None ==> settings.user_agent@ == fallback_agent@,
        settings.timeout is Some <==> site.configuration.request_timeout is Some,
        settings.timeout is Some ==> settings.timeout->0 == site.configuration.request_timeout->0,
{
}

/// Connections are kept alive, idle ones without a limit, they are probed every half a second, and
/// brotli compressed answers are accepted, whatever is configured.
pub proof fn connections_are_kept_alive<P>(
    site: Website<P>,
    fallback_agent: &str,
    settings: ClientSettings,
)
    requires
        call_ensures(
            Website::<P>::configure_http_client,
            (&site, fallback_agent),
            settings,
        ),
    ensures
        settings.connection@ == "keep-alive"@,
        settings.pool_idle_timeout is None,
        2 * settings.tcp_keepalive == 1000,
        settings.brotli,
{
}

/// The client of every website can be set up.
pub proof fn clients_can_be_set_up<P>(site: Website<P>, fallback_agent: &str)
    ensures
        call_requires(Website::<P>::configure_http_client, (&site, fallback_agent)),
{
}

} // verus!
