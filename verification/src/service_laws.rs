//! What holds of the service around a crawl: what a request is answered and starts, what a client
//! is told, what addresses become, and how many pages are fetched at a time.

use crate::address::url_join;
use crate::monitor::{rpc_callback, still_active, MonitorRequest};
use crate::page::{build, convert_abs_path, joined_or_base, Page};
use crate::semaphore::{
    counts_logical, counts_physical, fitting_limit, host_semaphore_limit, permits,
};
use crate::server::{
    job_for, quoted, reply_to, Job, MyCrawler, ScanJob, ScanReply, ScanRequest,
};
use vstd::prelude::*;

verus! {

/// The job is for the website, user, agent and domains of the request, and follows `robots.txt`
/// exactly where the request does not say to pass it over.
pub open spec fn is_job_of(job: ScanJob, request: ScanRequest) -> bool {
    &&& job.url@ == request.url@
    &&& job.id == request.id
    &&& job.agent@ == request.agent@
    &&& job.subdomains == request.subdomains
    &&& job.tld == request.tld
    &&& job.respect_robots_txt != request.norobots
}

/// A request to scan starts a scan, one to crawl a crawl, each as the request says; both are
/// answered with the website that they name.
pub proof fn requests_start_their_job(
    crawler: MyCrawler,
    request: ScanRequest,
    scan: (ScanReply, Job),
    crawl: (ScanReply, Job),
)
    requires
        call_ensures(MyCrawler::scan, (&crawler, request), scan),
        call_ensures(MyCrawler::crawl, (&crawler, request), crawl),
    ensures
        scan.1 is Scan && is_job_of(scan.1->Scan_0, request),
        crawl.1 is Crawl && is_job_of(crawl.1->Crawl_0, request),
        scan.0.message@ == "scanning - "@ + quoted(request.url@),
        crawl.0.message@ == scan.0.message@,
{
}

/// A reply says that the website is scanned and names it in full; a job is that of its request.
pub proof fn replies_and_jobs_follow_the_request(
    quoted_url: &str,
    reply: ScanReply,
    request: ScanRequest,
    job: ScanJob,
)
    requires
        call_ensures(reply_to, (quoted_url,), reply),
        call_ensures(job_for, (request,), job),
    ensures
        reply.message@.len() == "scanning - "@.len() + quoted_url@.len(),
        reply.message@.subrange(0, "scanning - "@.len() as int) == "scanning - "@,
        reply.message@.subrange("scanning - "@.len() as int, reply.message@.len() as int)
            == quoted_url@,
        is_job_of(job, request),
{
    let start = "scanning - "@;
    assert(reply.message@.subrange(0, start.len() as int) =~= start);
    assert(reply.message@.subrange(start.len() as int, reply.message@.len() as int)
        =~= quoted_url@);
}

/// The client is told of the link, the user and the document of the page, and of an empty document
/// where there is none.
pub proof fn clients_are_told_of_the_page(
    link: &str,
    user_id: u32,
    page: Page,
    request: MonitorRequest,
)
    requires
        call_ensures(rpc_callback, (link, user_id, page), request),
    ensures
        request.link@ == link@,
        request.user_id == user_id,
        page.html is Some ==> request.html@ == page.html->0@,
        page.html is None ==> request.html@.len() == 0,
{
}

/// A crawl goes on while the client accepts every page; once it has turned one down, no answer
/// brings the crawl back.
pub proof fn refusals_are_final(active: bool, accepted: bool, next: bool, again: bool, later: bool)
    requires
        call_ensures(still_active, (active, accepted), next),
        call_ensures(still_active, (next, again), later),
    ensures
        active && accepted ==> next,
        !accepted ==> !next,
        !active ==> !next,
        !next ==> !later,
        active && accepted && again ==> later,
{
}

/// A page has the address and the document that it was built from.
pub proof fn pages_are_what_they_are_built_from(url: &str, html: Option<String>, page: Page)
    requires
        call_ensures(build, (url, html), page),
    ensures
        page.url@ == url@,
        page.html == html,
{
}

/// An address on a page is what joining it to that of the page gives, and that of the page where
/// the two do not join.
pub proof fn addresses_are_joined_or_the_base(
    base: &str,
    href: &str,
    url: String,
    joined: Option<String>,
    chosen: String,
)
    requires
        call_ensures(convert_abs_path, (base, href), url),
        call_ensures(joined_or_base, (base, joined), chosen),
    ensures
        url_join(base@, href@) is Some ==> url@ == url_join(base@, href@)->0,
        url_join(base@, href@) is None ==> url@ == base@,
        joined is Some ==> chosen@ == joined->0@,
        joined is None ==> chosen@ == base@,
{
}

/// `limit` is the number of permits for the two numbers of CPUs: where they are equal their
/// product, but no less than 50; else no less than 25, and four for each logical CPU, or, where
/// there are more logical ones, for each whole time that the physical ones go into them.
pub open spec fn is_limit_of(limit: int, logical: int, physical: int) -> bool {
    if logical == physical {
        &&& limit >= 50
        &&& limit >= logical * logical
        &&& limit == 50 || limit == logical * logical
    } else if logical < physical {
        &&& limit >= 25
        &&& limit >= 4 * logical
        &&& limit == 25 || limit == 4 * logical
    } else {
        exists|share: int|
            {
                &&& #[trigger] (share * physical) <= logical < share * physical + physical
                &&& limit >= 25
                &&& limit >= 4 * share
                &&& limit == 25 || limit == 4 * share
            }
    }
}

/// A whole division goes into the dividend, and no further time.
proof fn shares_go_in_whole_times(logical: int, physical: int)
    requires
        0 < physical < logical,
    ensures
        (logical / physical) * physical <= logical < (logical / physical) * physical + physical,
{
    vstd::arithmetic::div_mod::lemma_fundamental_div_mod(logical, physical);
    vstd::arithmetic::div_mod::lemma_mod_bound(logical, physical);
    vstd::arithmetic::mul::lemma_mul_is_commutative(logical / physical, physical);
}

/// There is a number of permits for every two numbers of CPUs, the right one, unless it does not
/// fit.
pub proof fn limits_follow_the_cpus(logical: usize, physical: usize, limit: Option<usize>)
    requires
        logical > physical ==> physical > 0,
        call_ensures(fitting_limit, (logical, physical), limit),
    ensures
        limit is Some ==> is_limit_of(limit->0 as int, logical as int, physical as int),
        limit is None ==> exists|n: int| #[trigger]
            is_limit_of(n, logical as int, physical as int) && n > usize::MAX,
{
    let n = permits(logical as int, physical as int);
    if logical > physical {
        shares_go_in_whole_times(logical as int, physical as int);
        assert((logical as int / physical as int) * physical as int <= logical);
    }
    assert(is_limit_of(n, logical as int, physical as int));
}

/// The number of permits of this machine is that for the CPUs that are counted on it, so there are
/// at least 25; there is none only where it does not fit.
pub proof fn this_machine_has_the_limit_of_its_cpus(limit: Option<usize>)
    requires
        call_ensures(host_semaphore_limit, (), limit),
    ensures
        limit is Some ==> limit->0 >= 25,
        exists|logical: usize, physical: usize, n: int|
            {
                &&& #[trigger] counts_logical(logical)
                &&& #[trigger] counts_physical(physical)
                &&& #[trigger] is_limit_of(n, logical as int, physical as int)
                &&& limit is Some ==> limit->0 == n
                &&& limit is None ==> n > usize::MAX
            },
{
    let (logical, physical) = choose|logical: usize, physical: usize|
        {
            &&& #[trigger] counts_logical(logical)
            &&& #[trigger] counts_physical(physical)
            &&& logical >= 1
            &&& physical >= 1
            &&& match limit {
                Some(limit) => limit == permits(logical as int, physical as int),
                None => permits(logical as int, physical as int) > usize::MAX,
            }
        };
    if logical > physical {
        shares_go_in_whole_times(logical as int, physical as int);
        assert((logical as int / physical as int) * physical as int <= logical);
    }
    assert(is_limit_of(
        permits(logical as int, physical as int),
        logical as int,
        physical as int,
    ));
}

/// Every request is taken, and every page told of.
pub proof fn requests_are_taken(crawler: MyCrawler, request: ScanRequest, link: &str, page: Page)
    ensures
        call_requires(MyCrawler::scan, (&crawler, request)),
        call_requires(MyCrawler::crawl, (&crawler, request)),
        forall|user_id: u32| #[trigger] call_requires(rpc_callback, (link, user_id, page)),
        forall|active: bool, accepted: bool| #[trigger]
            call_requires(still_active, (active, accepted)),
        call_requires(host_semaphore_limit, ()),
{
}

} // verus!
