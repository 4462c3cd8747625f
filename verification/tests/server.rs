use website_crawler::semaphore::{fitting_limit, host_semaphore_limit};
use website_crawler::server::{job_for, reply_to, Job, MyCrawler, ScanRequest};
use website_crawler::text::{ends_with_slash, same_text, starts_with_slash};

fn request(url: &str, norobots: bool) -> ScanRequest {
    ScanRequest {
        url: url.to_string(),
        id: 9,
        norobots,
        agent: "bot".to_string(),
        subdomains: true,
        tld: false,
    }
}

#[test]
fn a_scan_is_answered_and_started() {
    let (reply, job) = MyCrawler.scan(request("http://a.b", false));
    assert_eq!(reply.message, "scanning - \"http://a.b\"");
    match job {
        Job::Scan(job) => {
            assert_eq!(job.url, "http://a.b");
            assert_eq!(job.id, 9);
            assert!(job.respect_robots_txt);
            assert_eq!(job.agent, "bot");
            assert!(job.subdomains);
            assert!(!job.tld);
        }
        Job::Crawl(_) => panic!("not a scan"),
    }
}

#[test]
fn a_crawl_is_answered_and_started() {
    let (reply, job) = MyCrawler.crawl(request("a\"b\n", true));
    assert_eq!(reply.message, "scanning - \"a\\\"b\\n\"");
    match job {
        Job::Crawl(job) => {
            assert_eq!(job.url, "a\"b\n");
            assert!(!job.respect_robots_txt);
        }
        Job::Scan(_) => panic!("not a crawl"),
    }
}

#[test]
fn reply_and_job_follow_the_request() {
    assert_eq!(reply_to("x").message, "scanning - x");
    assert!(!job_for(request("x", true)).respect_robots_txt);
    assert!(job_for(request("x", false)).respect_robots_txt);
}

#[test]
fn permits_follow_the_cpus() {
    assert_eq!(fitting_limit(4, 4), Some(50));
    assert_eq!(fitting_limit(8, 8), Some(64));
    assert_eq!(fitting_limit(16, 8), Some(25));
    assert_eq!(fitting_limit(64, 8), Some(32));
    assert_eq!(fitting_limit(7, 2), Some(25));
    assert_eq!(fitting_limit(6, 8), Some(25));
    assert_eq!(fitting_limit(10, 16), Some(40));
    assert_eq!(fitting_limit(0, 0), Some(50));
}

#[test]
fn there_is_no_limit_that_does_not_fit() {
    assert_eq!(fitting_limit(usize::MAX, usize::MAX), None);
    assert_eq!(fitting_limit(usize::MAX, 1), None);
    assert_eq!(fitting_limit(usize::MAX / 2, usize::MAX), None);
    assert_eq!(fitting_limit(usize::MAX / 4, usize::MAX), Some(usize::MAX - 3));
}

#[test]
fn this_machine_has_permits() {
    assert!(host_semaphore_limit().unwrap() >= 25);
    assert_eq!(host_semaphore_limit(), fitting_limit(num_cpus::get(), num_cpus::get_physical()));
}

#[test]
fn slashes_at_the_ends_are_seen() {
    assert!(ends_with_slash("a/"));
    assert!(!ends_with_slash("/a"));
    assert!(!ends_with_slash(""));
    assert!(starts_with_slash("/a"));
    assert!(!starts_with_slash("a/"));
    assert!(!starts_with_slash(""));
    assert!(same_text("a", "a"));
    assert!(!same_text("a", "A"));
}
