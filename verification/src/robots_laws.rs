//! What holds of the reading of `robots.txt`: from where it is read, when, and what the delay that
//! it asks for does.

use crate::configuration::Configuration;
use crate::link_laws::is_same_but_links;
use crate::robots::next_delay;
use crate::website::Website;
use vstd::prelude::*;

verus! {

/// `address` is `base` with a slash at its end: `base` itself where it ends with one, else `base`
/// and one character more.
pub open spec fn is_below(address: Seq<char>, base: Seq<char>) -> bool {
    if base.len() > 0 && base[base.len() - 1] == '/' {
        address == base
    } else {
        address == base.push('/')
    }
}

/// Everything that was configured but the delay is the same.
pub open spec fn is_same_but_delay(configuration: Configuration, other: Configuration) -> bool {
    &&& configuration.respect_robots_txt == other.respect_robots_txt
    &&& configuration.user_agent == other.user_agent
    &&& configuration.proxy == other.proxy
    &&& configuration.request_timeout == other.request_timeout
    &&& configuration.subdomains == other.subdomains
    &&& configuration.tld == other.tld
    &&& configuration.sitemap == other.sitemap
    &&& configuration.sitemap_path == other.sitemap_path
    &&& configuration.blacklist_url == other.blacklist_url
}

/// `robots.txt` is read below the root of the site, where the domain is a URL, whatever the domain
/// ends with, and else below the domain.
pub proof fn robots_are_read_below_the_root<P>(site: Website<P>, url: String)
    requires
        call_ensures(Website::<P>::robots_url, (&site,), url),
    ensures
        site.domain_parsed is Some ==> is_below(url@, site.domain_parsed->0@),
        site.domain_parsed is None ==> is_below(url@, site.domain@),
{
    let base = match site.domain_parsed {
        Some(root) => root@,
        None => site.domain@,
    };
    assert(base.push('/') =~= base + seq!['/']);
}

/// Two websites with the same root read `robots.txt` from the same address.
pub proof fn one_root_has_one_robots_file<P>(
    site: Website<P>,
    other: Website<P>,
    url: String,
    other_url: String,
)
    requires
        call_ensures(Website::<P>::robots_url, (&site,), url),
        call_ensures(Website::<P>::robots_url, (&other,), other_url),
        site.domain_parsed is Some,
        other.domain_parsed is Some,
        site.domain_parsed->0@ == other.domain_parsed->0@,
    ensures
        url@ == other_url@,
{
}

/// `robots.txt` is to be read exactly where it is followed and the last read lies no later than
/// 4000, and then from the one address that there is.
pub proof fn robots_are_due_until_read<P>(
    site: Website<P>,
    mtime: i64,
    due: Option<String>,
    url: String,
)
    requires
        call_ensures(Website::<P>::robots_due, (&site, mtime), due),
        call_ensures(Website::<P>::robots_url, (&site,), url),
    ensures
        due is Some <==> site.configuration.respect_robots_txt && mtime <= 4000,
        due is Some ==> due->0@ == url@,
{
}

/// After the parser was configured, there is one wherever `robots.txt` is followed: the one that
/// was there, or a new one. The file is to be read exactly where the parser says that its last read
/// lies no later than 4000, and then from the one address that there is. Where it is not followed,
/// nothing happens.
pub proof fn parsers_are_configured_once<P, N: FnOnce() -> P, M: Fn(&P) -> i64>(
    site: &mut Website<P>,
    new_parser: N,
    mtime: M,
    due: Option<String>,
    url: String,
)
    requires
        call_ensures(
            Website::<P>::configure_robots_parser::<N, M>,
            (site, new_parser, mtime),
            due,
        ),
        call_ensures(Website::<P>::robots_url, (old(site),), url),
    ensures
        ({
            let follows = old(site).configuration.respect_robots_txt;
            let parser = final(site).robot_file_parser;
            &&& !follows ==> due is None && parser == old(site).robot_file_parser
            &&& follows ==> parser is Some
            &&& old(site).robot_file_parser is Some ==> parser == old(site).robot_file_parser
            &&& follows && old(site).robot_file_parser is None ==> call_ensures(
                new_parser,
                (),
                parser->0,
            )
            &&& follows ==> exists|time: i64| #[trigger]
                call_ensures(mtime, (&parser->0,), time) && (due is Some <==> time <= 4000)
            &&& due is Some ==> due->0@ == url@
        }),
        final(site).configuration == old(site).configuration,
        final(site).domain == old(site).domain,
        final(site).domain_parsed == old(site).domain_parsed,
        final(site).links == old(site).links,
        final(site).links_visited == old(site).links_visited,
        final(site).sitemap_url == old(site).sitemap_url,
        final(site).sitemaps_pending == old(site).sitemaps_pending,
        final(site).sitemaps_known == old(site).sitemaps_known,
{
    if old(site).configuration.respect_robots_txt {
        let parser = final(site).robot_file_parser;
        let time = choose|time: i64| #[trigger]
            call_ensures(mtime, (&parser->0,), time) && (due is Some <==> time <= 4000);
        assert(call_ensures(mtime, (&parser->0,), time));
    }
}

/// The delay after an answer: the one that was asked for, up to a multiple of the range of the
/// delay, and where none was asked for the one that was there.
pub open spec fn is_delay_after(before: u64, answer: Option<u128>, after: u64) -> bool {
    match answer {
        Some(delay) => if delay < 0x1_0000_0000_0000_0000 {
            after == delay
        } else {
            exists|n: int| delay == after + #[trigger] (n * 0x1_0000_0000_0000_0000)
        },
        None => after == before,
    }
}

/// What the site asks for is the delay from then on, in milliseconds; where it asks for nothing the
/// delay stays, and nothing else changes in any case.
pub proof fn delays_are_taken_over<P>(site: &mut Website<P>, answer: Option<u128>)
    requires
        call_ensures(Website::<P>::set_crawl_delay, (site, answer), ()),
    ensures
        is_delay_after(old(site).configuration.delay, answer, final(site).configuration.delay),
        is_same_but_delay(old(site).configuration, final(site).configuration),
        is_same_but_links(
            (Website { configuration: final(site).configuration, ..*old(site) }),
            *final(site),
        ),
        final(site).links == old(site).links,
        final(site).links_visited == old(site).links_visited,
{
    if let Some(delay) = answer {
        let n = delay as int / 0x1_0000_0000_0000_0000;
        assert(delay == final(site).configuration.delay + n * 0x1_0000_0000_0000_0000);
    }
}

/// After `robots.txt` was read, the delay is what its parser answers for the configured agent;
/// where it answers nothing the delay stays, and nothing else changes in any case.
pub proof fn read_delays_are_taken_over<P, D: Fn(&P, &Option<String>) -> Option<u128>>(
    site: &mut Website<P>,
    get_crawl_delay: D,
)
    requires
        old(site).robot_file_parser is Some,
        call_ensures(Website::<P>::robots_read::<D>, (site, get_crawl_delay), ()),
    ensures
        exists|answer: Option<u128>|
            {
                &&& #[trigger] call_ensures(
                    get_crawl_delay,
                    (&old(site).robot_file_parser->0, &old(site).configuration.user_agent),
                    answer,
                )
                &&& is_delay_after(
                    old(site).configuration.delay,
                    answer,
                    final(site).configuration.delay,
                )
            },
        is_same_but_delay(old(site).configuration, final(site).configuration),
        is_same_but_links(
            (Website { configuration: final(site).configuration, ..*old(site) }),
            *final(site),
        ),
        final(site).links == old(site).links,
        final(site).links_visited == old(site).links_visited,
{
    let answer = choose|answer: Option<u128>|
        {
            &&& #[trigger] call_ensures(
                get_crawl_delay,
                (&old(site).robot_file_parser->0, &old(site).configuration.user_agent),
                answer,
            )
            &&& final(site).configuration.delay == next_delay(
                answer,
                old(site).configuration.delay,
            )
        };
    if let Some(delay) = answer {
        let n = delay as int / 0x1_0000_0000_0000_0000;
        assert(delay == final(site).configuration.delay + n * 0x1_0000_0000_0000_0000);
    }
}

/// From where `robots.txt` is read, and whether it is due, can be asked at any time, and a delay can
/// be taken over; where the file is not followed, so can the parser be configured.
pub proof fn robots_can_be_configured<P, N: FnOnce() -> P, M: Fn(&P) -> i64>(
    site: &mut Website<P>,
    new_parser: N,
    mtime: M,
    time: i64,
    answer: Option<u128>,
)
    ensures
        call_requires(Website::<P>::robots_url, (old(site),)),
        call_requires(Website::<P>::robots_due, (old(site), time)),
        call_requires(Website::<P>::set_crawl_delay, (site, answer)),
        !old(site).configuration.respect_robots_txt || (call_requires(new_parser, ()) && forall|
            parser: P,
        | #[trigger]
            call_requires(mtime, (&parser,))) ==> call_requires(
            Website::<P>::configure_robots_parser::<N, M>,
            (site, new_parser, mtime),
        ),
{
}

} // verus!
