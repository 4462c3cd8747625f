//! How the HTTP client of a crawl is set up.

use crate::address::{
    option_parts, parse_url, proxy_accepts, proxy_all, url_parse, UrlParts, UrlPartsView,
};
use crate::text::{option_text, same_text};
use crate::website::Website;
use std::time::Duration;
use vstd::prelude::*;

verus! {

/// Which redirects the client follows.
#[derive(Debug)]
pub enum RedirectRule {
    /// Those that a client follows by default.
    Default,
    /// Those that lead to the given host, where a client follows them by default.
    SameHost(Option<String>),
}

/// A redirect rule with the host as a text.
pub enum RedirectRuleView {
    Default,
    SameHost(Option<Seq<char>>),
}

impl View for RedirectRule {
    type V = RedirectRuleView;

    open spec fn view(&self) -> RedirectRuleView {
        match self {
            RedirectRule::Default => RedirectRuleView::Default,
            RedirectRule::SameHost(host) => RedirectRuleView::SameHost(option_text(*host)),
        }
    }
}

/// What becomes of an attempted redirect.
#[derive(Debug, Clone, Copy, PartialEq, Eq, Structural)]
pub enum RedirectStep {
    /// It is not followed.
    Stop,
    /// It is treated as a client treats it by default.
    Default,
}

/// The text of an optional string slice.
pub open spec fn host_text(host: Option<&str>) -> Option<Seq<char>> {
    match host {
        Some(host) => Some(host@),
        None => None,
    }
}

/// A redirect is stopped if and only if the rule asks for a host and it leads to another.
pub open spec fn redirect_step(rule: RedirectRuleView, attempt: Option<Seq<char>>) -> RedirectStep {
    match rule {
        RedirectRuleView::SameHost(host) if attempt != host => RedirectStep::Stop,
        _ => RedirectStep::Default,
    }
}

impl RedirectRule {
    /// What becomes of a redirect to the host `attempt`.
    pub fn step(&self, attempt: Option<&str>) -> (step: RedirectStep)
        ensures
            step == redirect_step(self@, host_text(attempt)),
    {
        match self {
            RedirectRule::Default => RedirectStep::Default,
            RedirectRule::SameHost(host) => {
                let same = match (host, attempt) {
                    (Some(host), Some(attempt)) => same_text(host.as_str(), attempt),
                    (None, None) => true,
                    _ => false,
                };
                if same {
                    RedirectStep::Default
                } else {
                    RedirectStep::Stop
                }
            },
        }
    }
}

/// The proxy that requests are sent through.
#[derive(Debug)]
pub enum ProxyChoice {
    /// None is set.
    Unset,
    /// The proxy at this address.
    Plain(String),
    /// The proxy at this address, with a user name and a password.
    BasicAuth { address: String, username: String, password: String },
}

/// A proxy choice as texts.
pub enum ProxyChoiceView {
    Unset,
    Plain(Seq<char>),
    BasicAuth { address: Seq<char>, username: Seq<char>, password: Seq<char> },
}

impl View for ProxyChoice {
    type V = ProxyChoiceView;

    open spec fn view(&self) -> ProxyChoiceView {
        match self {
            ProxyChoice::Unset => ProxyChoiceView::Unset,
            ProxyChoice::Plain(address) => ProxyChoiceView::Plain(address@),
            ProxyChoice::BasicAuth { address, username, password } => ProxyChoiceView::BasicAuth {
                address: address@,
                username: username@,
                password: password@,
            },
        }
    }
}

/// The settings of the client.
#[derive(Debug)]
pub struct ClientSettings {
    /// The value of the `Connection` header.
    pub connection: String,
    /// Which redirects are followed.
    pub redirect: RedirectRule,
    /// Time between keep-alive probes, in milliseconds.
    pub tcp_keepalive: u64,
    /// How long an idle connection is kept, where there is a limit.
    pub pool_idle_timeout: Option<Duration>,
    /// The user agent.
    pub user_agent: String,
    /// Whether brotli compressed answers are accepted.
    pub brotli: bool,
    /// The proxy.
    pub proxy: ProxyChoice,
    /// How long a request may take, where there is a limit.
    pub timeout: Option<Duration>,
}

/// Redirects stay on the host of the domain, where the domain is a URL.
pub open spec fn redirect_rule(domain: Option<UrlPartsView>) -> RedirectRuleView {
    match domain {
        Some(url) => RedirectRuleView::SameHost(url.host),
        None => RedirectRuleView::Default,
    }
}

/// A proxy is used where one is configured and its address is accepted; if the address is a
/// URL, with the user name in it and the password in it, empty where there is none.
pub open spec fn proxy_choice(
    proxy: Option<Seq<char>>,
    accepted: bool,
    url: Option<UrlPartsView>,
) -> ProxyChoiceView {
    match proxy {
        Some(address) if accepted => match url {
            Some(url) => ProxyChoiceView::BasicAuth {
                address,
                username: url.username,
                password: match url.password {
                    Some(password) => password,
                    None => Seq::empty(),
                },
            },
            None => ProxyChoiceView::Plain(address),
        },
        _ => ProxyChoiceView::Unset,
    }
}

/// The configured user agent, or the given one where none is configured.
pub open spec fn agent_choice(configured: Option<Seq<char>>, fallback: Seq<char>) -> Seq<char> {
    match configured {
        Some(agent) => agent,
        None => fallback,
    }
}

/// Redirects stay on the host of the domain, where the domain is a URL.
pub fn choose_redirect(domain: Option<UrlParts>) -> (rule: RedirectRule)
    ensures
        rule@ == redirect_rule(option_parts(domain)),
{
    match domain {
        Some(url) => RedirectRule::SameHost(url.host),
        None => RedirectRule::Default,
    }
}

/// The proxy at `address`, given whether the address is accepted and which URL it is.
pub fn choose_proxy(address: &str, accepted: bool, url: Option<UrlParts>) -> (choice: ProxyChoice)
    ensures
        choice@ == proxy_choice(Some(address@), accepted, option_parts(url)),
{
    if !accepted {
        return ProxyChoice::Unset;
    }
    match url {
        Some(url) => {
            let password = match url.password {
                Some(password) => password,
                None => String::new(),
            };
            ProxyChoice::BasicAuth { address: address.to_owned(), username: url.username, password }
        },
        None => ProxyChoice::Plain(address.to_owned()),
    }
}

impl<P> Website<P> {
    /// The settings of the HTTP client for this website; `fallback_agent` is the user agent
    /// where none is configured.
    pub fn configure_http_client(&self, fallback_agent: &str) -> (settings: ClientSettings)
        ensures
            settings.connection@ == "keep-alive"@,
            settings.redirect@ == redirect_rule(url_parse(self.domain@)),
            settings.tcp_keepalive == 500,
            settings.pool_idle_timeout is None,
            settings.user_agent@ == agent_choice(
                option_text(self.configuration.user_agent),
                fallback_agent@,
            ),
            settings.brotli,
            settings.proxy@ == (match option_text(self.configuration.proxy) {
                Some(address) => proxy_choice(
                    Some(address),
                    proxy_accepts(address),
                    url_parse(address),
                ),
                None => ProxyChoiceView::Unset,
            }),
            settings.timeout == self.configuration.request_timeout,
    {
        let user_agent = match &self.configuration.user_agent {
            Some(agent) => agent.as_str().to_owned(),
            None => fallback_agent.to_owned(),
        };
        let proxy = match &self.configuration.proxy {
            Some(address) => choose_proxy(
                address.as_str(),
                proxy_all(address.as_str()),
                parse_url(address.as_str()),
            ),
            None => ProxyChoice::Unset,
        };
        ClientSettings {
            connection: "keep-alive".to_owned(),
            redirect: choose_redirect(parse_url(self.domain.as_str())),
            tcp_keepalive: 500,
            pool_idle_timeout: None,
            user_agent,
            brotli: true,
            proxy,
            timeout: self.configuration.request_timeout,
        }
    }
}

} // verus!
