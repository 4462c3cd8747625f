//! When `robots.txt` is read, from where, and what its crawl delay does to the crawl.

use crate::configuration::Configuration;
use crate::text::{ends_slash, ends_with_slash, option_text};
use crate::website::Website;
use vstd::prelude::*;
use vstd::string::*;

verus! {

/// The largest time of the last read, in the parser's own count, with which the file is read
/// again.
pub const LATEST_STALE_MTIME: i64 = 4000;

/// `base` with a slash at its end.
pub open spec fn with_slash(base: Seq<char>) -> Seq<char> {
    if ends_slash(base) {
        base
    } else {
        base + seq!['/']
    }
}

/// The delay that a crawl delay of the site asks for, in milliseconds: the present one where it
/// asks for none, else the low 64 bits of what it asks for.
pub open spec fn next_delay(answer: Option<u128>, present: u64) -> u64 {
    match answer {
        Some(delay) => (delay % 0x1_0000_0000_0000_0000) as u64,
        None => present,
    }
}

impl<P> Website<P> {
    /// The address below which `robots.txt` is read: the root of the site, or the domain as it
    /// was given where that is no URL, with a slash at its end.
    pub open spec fn robots_base(self) -> Seq<char> {
        with_slash(
            match self.domain_parsed {
                Some(root) => root@,
                None => self.domain@,
            },
        )
    }

    /// Everything but the parser of `robots.txt` is as in `other`.
    pub open spec fn same_but_parser(self, other: Self) -> bool {
        &&& self.configuration == other.configuration
        &&& self.domain == other.domain
        &&& self.links == other.links
        &&& self.links_visited == other.links_visited
        &&& self.sitemap_url == other.sitemap_url
        &&& self.sitemaps_pending == other.sitemaps_pending
        &&& self.sitemaps_known == other.sitemaps_known
        &&& self.domain_parsed == other.domain_parsed
    }

    /// The parser, or a new one where there is none, can be asked for the time of its last read,
    /// where `robots.txt` is to be followed.
    pub open spec fn can_configure<N: FnOnce() -> P, M: Fn(&P) -> i64>(
        self,
        new_parser: N,
        mtime: M,
    ) -> bool {
        self.configuration.respect_robots_txt ==> match self.robot_file_parser {
            Some(parser) => call_requires(mtime, (&parser,)),
            None => call_requires(new_parser, ()) && forall|parser: P|
                call_ensures(new_parser, (), parser) ==> #[trigger] call_requires(
                    mtime,
                    (&parser,),
                ),
        }
    }

    /// What preparing the parser of `robots.txt` does: where the file is to be followed, there is a
    /// parser afterwards, and the file is to be read where that says that its last read is stale.
    pub open spec fn configures_parser<N: FnOnce() -> P, M: Fn(&P) -> i64>(
        self,
        new_parser: N,
        mtime: M,
        url: Option<String>,
        after: Self,
    ) -> bool {
        &&& after.same_but_parser(self)
        &&& if self.configuration.respect_robots_txt {
            &&& after.robot_file_parser is Some
            &&& match self.robot_file_parser {
                Some(parser) => after.robot_file_parser == Some(parser),
                None => call_ensures(new_parser, (), after.robot_file_parser->0),
            }
            &&& exists|time: i64| #[trigger]
                call_ensures(mtime, (&after.robot_file_parser->0,), time) && option_text(url) == (
                if time <= LATEST_STALE_MTIME {
                    Some(self.robots_base())
                } else {
                    None
                })
        } else {
            &&& url is None
            &&& after.robot_file_parser == self.robot_file_parser
        }
    }

    /// The address below which `robots.txt` is read.
    pub fn robots_url(&self) -> (url: String)
        ensures
            url@ == self.robots_base(),
    {
        let mut url = match &self.domain_parsed {
            Some(root) => root.as_str().to_owned(),
            None => self.domain.as_str().to_owned(),
        };
        if !ends_with_slash(url.as_str()) {
            proof {
                reveal_strlit("/");
                assert("/"@ =~= seq!['/']);
            }
            url.append("/");
        }
        url
    }

    /// The address below which `robots.txt` is to be read now, if it is: it is to be followed,
    /// and the last read by the parser was at a time of at most `LATEST_STALE_MTIME`.
    pub fn robots_due(&self, mtime: i64) -> (url: Option<String>)
        ensures
            option_text(url) == (if self.configuration.respect_robots_txt && mtime
                <= LATEST_STALE_MTIME {
                Some(self.robots_base())
            } else {
                None
            }),
    {
        if self.configuration.respect_robots_txt && mtime <= LATEST_STALE_MTIME {
            Some(self.robots_url())
        } else {
            None
        }
    }

    /// Prepares the parser of `robots.txt`, where that is to be followed: makes one if there is
    /// none, and says from where it is to be read, if it is to be read now.
    ///
    /// `mtime` asks the parser for the time of its last read. After the read, `robots_read`
    /// takes over the crawl delay.
    pub fn configure_robots_parser<N: FnOnce() -> P, M: Fn(&P) -> i64>(
        &mut self,
        new_parser: N,
        mtime: M,
    ) -> (url: Option<String>)
        requires
            old(self).can_configure(new_parser, mtime),
        ensures
            old(self).configures_parser(new_parser, mtime, url, *final(self)),
    {
        if !self.configuration.respect_robots_txt {
            return None;
        }
        if self.robot_file_parser.is_none() {
            self.robot_file_parser = Some(new_parser());
        }
        let time: i64 = mtime(self.robot_file_parser.as_ref().unwrap());
        self.robots_due(time)
    }

    /// Takes over the crawl delay that the site asks for, in milliseconds, where it asks for one.
    pub fn set_crawl_delay(&mut self, answer: Option<u128>)
        ensures
            *final(self) == (Website {
                configuration: Configuration {
                    delay: next_delay(answer, old(self).configuration.delay),
                    ..old(self).configuration
                },
                ..*old(self)
            }),
    {
        match answer {
            Some(delay) => {
                assert(delay as u64 == delay % 0x1_0000_0000_0000_0000) by (bit_vector);
                self.configuration.delay = #[verifier::truncate] (delay as u64);
            },
            None => {},
        }
    }

    /// Takes over the crawl delay after `robots.txt` was read.
    ///
    /// `get_crawl_delay` asks the parser for the delay, in milliseconds, that the site asks of
    /// an agent.
    pub fn robots_read<D: Fn(&P, &Option<String>) -> Option<u128>>(&mut self, get_crawl_delay: D)
        requires
            old(self).robot_file_parser is Some,
            call_requires(
                get_crawl_delay,
                (&old(self).robot_file_parser->0, &old(self).configuration.user_agent),
            ),
        ensures
            exists|answer: Option<u128>| #[trigger]
                call_ensures(
                    get_crawl_delay,
                    (&old(self).robot_file_parser->0, &old(self).configuration.user_agent),
                    answer,
                ) && *final(self) == (Website {
                    configuration: Configuration {
                        delay: next_delay(answer, old(self).configuration.delay),
                        ..old(self).configuration
                    },
                    ..*old(self)
                }),
    {
        let answer = get_crawl_delay(
            self.robot_file_parser.as_ref().unwrap(),
            &self.configuration.user_agent,
        );
        self.set_crawl_delay(answer);
    }
}

} // verus!
