//! The service that takes scan requests.

use vstd::prelude::*;
use vstd::string::*;

verus! {

/// The crawler that the service stands for.
#[derive(Debug, Default)]
pub struct MyCrawler;

/// A request to scan or crawl a website.
#[derive(Debug)]
pub struct ScanRequest {
    /// The website.
    pub url: String,
    /// The user that the request is for.
    pub id: u32,
    /// Whether `robots.txt` is to be passed over.
    pub norobots: bool,
    /// The user agent.
    pub agent: String,
    /// Whether subdomains belong to the website.
    pub subdomains: bool,
    /// Whether other top level domains belong to the website.
    pub tld: bool,
}

/// The answer to a request.
#[derive(Debug)]
pub struct ScanReply {
    pub message: String,
}

/// What is run for a request.
#[derive(Debug)]
pub struct ScanJob {
    pub url: String,
    pub id: u32,
    pub respect_robots_txt: bool,
    pub agent: String,
    pub subdomains: bool,
    pub tld: bool,
}

/// Which run a request asks for.
#[derive(Debug)]
pub enum Job {
    /// Each link is sent as it is crawled.
    Scan(ScanJob),
    /// All links are sent when the crawl is done.
    Crawl(ScanJob),
}

/// What the `Debug` formatting of `str` makes of a text: the text in quotes, escaped.
pub uninterp spec fn quoted(text: Seq<char>) -> Seq<char>;

/// `format!` with `{:?}` on a `str`. What it makes depends on the text alone.
#[verifier::external_body]
fn debug_format(text: &str) -> (formatted: String)
    ensures
        formatted@ == quoted(text@),
{
    format!("{:?}", text)
}

/// The job that carries out a request: everything is taken over, and `robots.txt` is followed
/// unless the request says to pass it over.
pub open spec fn carries_out(job: ScanJob, request: ScanRequest) -> bool {
    &&& job.url == request.url
    &&& job.id == request.id
    &&& job.respect_robots_txt == !request.norobots
    &&& job.agent == request.agent
    &&& job.subdomains == request.subdomains
    &&& job.tld == request.tld
}

/// The reply to a request for the website whose quoted form is given.
pub fn reply_to(quoted_url: &str) -> (reply: ScanReply)
    ensures
        reply.message@ == "scanning - "@ + quoted_url@,
{
    let mut message = "scanning - ".to_owned();
    message.append(quoted_url);
    ScanReply { message }
}

/// The job that carries out a request.
pub fn job_for(request: ScanRequest) -> (job: ScanJob)
    ensures
        carries_out(job, request),
{
    ScanJob {
        url: request.url,
        id: request.id,
        respect_robots_txt: !request.norobots,
        agent: request.agent,
        subdomains: request.subdomains,
        tld: request.tld,
    }
}

impl MyCrawler {
    /// Takes a request to scan a website, with its links sent as they are crawled.
    pub fn scan(&self, request: ScanRequest) -> (answer: (ScanReply, Job))
        ensures
            answer.0.message@ == "scanning - "@ + quoted(request.url@),
            answer.1 matches Job::Scan(job) && carries_out(job, request),
    {
        let reply = reply_to(debug_format(request.url.as_str()).as_str());
        (reply, Job::Scan(job_for(request)))
    }

    /// Takes a request to crawl a website, with all links sent when the crawl is done.
    pub fn crawl(&self, request: ScanRequest) -> (answer: (ScanReply, Job))
        ensures
            answer.0.message@ == "scanning - "@ + quoted(request.url@),
            answer.1 matches Job::Crawl(job) && carries_out(job, request),
    {
        let reply = reply_to(debug_format(request.url.as_str()).as_str());
        (reply, Job::Crawl(job_for(request)))
    }
}

} // verus!
