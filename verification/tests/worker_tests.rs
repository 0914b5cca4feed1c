use webcrawler::models::{CrawlJob, DomainRecord, ParseJob, Timestamp, UrlMetaData};
use webcrawler::worker::{
    after_poll, grown_body_size, is_fresh, plan_parse, rate_limit_for, rate_limit_granted,
    rate_limit_key, rate_limit_request, retry_delay_ms, seed_jobs, CrawlAction, CrawlOutcome,
    CrawlStage, CrawlTask, PollAction, PollOutcome, RateLimit, StoredPage, ROBOTS_TTL_NS,
};

fn at(secs: i64, nanos: u32) -> Timestamp {
    Timestamp { secs, nanos }
}

const DAY: i64 = 86_400;

fn record(rules: &[&str], delay: Option<u64>, at: Timestamp) -> DomainRecord {
    DomainRecord {
        domain: "example.com".to_string(),
        disallow: rules.iter().map(|r| r.to_string()).collect(),
        crawl_delay: delay,
        fetched_at: at,
    }
}

fn task(url: &str) -> (CrawlTask, CrawlAction) {
    CrawlTask::new(CrawlJob { url: url.to_string(), depth: 2 }, "r1".to_string(), 1, 2_000_000)
}

#[test]
fn full_crawl_walk() {
    let now = at(10 * DAY, 0);
    let (mut t, a) = task("https://example.com/page");
    assert_eq!(a, CrawlAction::LookupDomain { domain: "example.com".to_string() });
    let a = t.on_domain_lookup(Ok(Some(record(&["/private"], None, at(10 * DAY - 1, 0)))), now);
    assert_eq!(a, CrawlAction::CheckRateLimit { domain: "example.com".to_string(), limit: 1, window_ms: 1000 });
    let a = t.on_rate_limit(Ok(false), 100);
    assert_eq!(a, CrawlAction::Sleep { ms: 150 });
    assert_eq!(t.stage, CrawlStage::Sleeping);
    let a = t.on_slept();
    assert_eq!(a, CrawlAction::CheckRateLimit { domain: "example.com".to_string(), limit: 1, window_ms: 1000 });
    let a = t.on_rate_limit(Ok(true), 0);
    assert_eq!(
        a,
        CrawlAction::Fetch { url: "https://example.com/page".to_string(), max_bytes: 2_000_000 }
    );
    let page = StoredPage { hash: "h".to_string(), storage_path: "html/h.html".to_string() };
    let a = t.on_fetched(Ok(page), at(77, 5));
    assert_eq!(
        a,
        CrawlAction::SaveMetadata {
            metadata: UrlMetaData {
                url: "https://example.com/page".to_string(),
                storage_path: "html/h.html".to_string(),
                last_crawled: at(77, 5),
                content_hash: "h".to_string(),
                depth: 2,
            }
        }
    );
    let a = t.on_metadata_saved(true);
    assert_eq!(a, CrawlAction::DeleteMessage { receipt: "r1".to_string() });
    let a = t.on_message_deleted();
    let job = ParseJob { url: "https://example.com/page".to_string(), storage_path: "html/h.html".to_string(), depth: 2 };
    assert_eq!(a, CrawlAction::SendParseJob { job });
    let a = t.on_parse_job_sent();
    assert_eq!(a, CrawlAction::Finish { outcome: CrawlOutcome::Crawled });
    assert_eq!(t.stage, CrawlStage::Done);
}

#[test]
fn blocked_url_is_never_fetched() {
    let now = at(10 * DAY, 0);
    let (mut t, _) = task("https://example.com/private/x");
    let a = t.on_domain_lookup(Ok(Some(record(&["/private"], None, now))), now);
    assert_eq!(a, CrawlAction::DeleteMessage { receipt: "r1".to_string() });
    assert_eq!(t.stage, CrawlStage::DeleteBlocked);
    assert!(t.page.is_none());
    let a = t.on_blocked_deleted();
    assert_eq!(a, CrawlAction::Finish { outcome: CrawlOutcome::Blocked });
    assert_eq!(t.stage, CrawlStage::Done);
}

#[test]
fn stale_or_missing_record_is_fetched_again() {
    let now = at(10 * DAY, 0);
    let (mut t, _) = task("https://example.com/a");
    let a = t.on_domain_lookup(Ok(Some(record(&[], None, at(9 * DAY, 0)))), now);
    assert_eq!(a, CrawlAction::FetchRobots { domain: "example.com".to_string() });
    let fresh = record(&["/a"], Some(3), now);
    let a = t.on_robots_fetched(fresh.clone());
    assert_eq!(a, CrawlAction::StoreDomain { record: fresh });
    let a = t.on_domain_stored();
    assert_eq!(a, CrawlAction::DeleteMessage { receipt: "r1".to_string() });
    assert_eq!(t.stage, CrawlStage::DeleteBlocked);

    let (mut t, _) = task("https://example.com/b");
    let a = t.on_domain_lookup(Ok(None), now);
    assert_eq!(a, CrawlAction::FetchRobots { domain: "example.com".to_string() });
    let a = t.on_robots_fetched(record(&["/a"], Some(3), now));
    assert!(matches!(a, CrawlAction::StoreDomain { .. }));
    let a = t.on_domain_stored();
    assert_eq!(a, CrawlAction::CheckRateLimit { domain: "example.com".to_string(), limit: 1, window_ms: 3000 });
}

#[test]
fn failed_lookup_allows_everything() {
    let (mut t, _) = task("https://example.com/private");
    let a = t.on_domain_lookup(Err(()), at(5, 0));
    assert_eq!(a, CrawlAction::CheckRateLimit { domain: "example.com".to_string(), limit: 1, window_ms: 1000 });
    assert!(t.rules.as_ref().unwrap().disallow.is_empty());
    assert_eq!(t.rules.as_ref().unwrap().fetched_at, at(5, 0));
}

#[test]
fn failed_rate_check_and_failed_fetch() {
    let (mut t, _) = task("https://example.com/x");
    t.on_domain_lookup(Err(()), at(0, 0));
    let a = t.on_rate_limit(Err(()), 0);
    assert_eq!(a, CrawlAction::Fetch { url: "https://example.com/x".to_string(), max_bytes: 2_000_000 });
    let a = t.on_fetched(Err(()), at(0, 0));
    assert_eq!(a, CrawlAction::Finish { outcome: CrawlOutcome::FetchFailed });
}

#[test]
fn unsaved_metadata_keeps_the_message() {
    let (mut t, _) = task("https://example.com/x");
    t.on_domain_lookup(Err(()), at(0, 0));
    t.on_rate_limit(Ok(true), 0);
    t.on_fetched(Ok(StoredPage { hash: "h".into(), storage_path: "html/h.html".into() }), at(1, 0));
    let a = t.on_metadata_saved(false);
    assert!(matches!(a, CrawlAction::SendParseJob { .. }));
    assert_eq!(t.stage, CrawlStage::EnqueueParse);
}

#[test]
fn freshness_window() {
    assert_eq!(ROBOTS_TTL_NS, 86_400_000_000_000);
    assert!(is_fresh(at(0, 0), at(DAY - 1, 999_999_999)));
    assert!(!is_fresh(at(0, 0), at(DAY, 0)));
    assert!(is_fresh(at(0, 500), at(DAY, 499)));
    assert!(!is_fresh(at(0, 500), at(DAY, 500)));
    assert!(is_fresh(at(100, 0), at(0, 0)));
    assert!(!is_fresh(at(i64::MIN, 0), at(i64::MAX, 999_999_999)));
}

#[test]
fn crawl_delay_overrides_rate() {
    assert_eq!(rate_limit_for(4, None), RateLimit { limit: 4, window_ms: 1000 });
    assert_eq!(rate_limit_for(4, Some(0)), RateLimit { limit: 4, window_ms: 1000 });
    assert_eq!(rate_limit_for(4, Some(10)), RateLimit { limit: 1, window_ms: 10_000 });
    assert_eq!(rate_limit_for(4, Some(u64::MAX)), RateLimit { limit: 1, window_ms: u64::MAX });
}

#[test]
fn retry_delay_stays_in_range() {
    assert_eq!(retry_delay_ms(0), 50);
    assert_eq!(retry_delay_ms(500), 550);
    assert_eq!(retry_delay_ms(9999), 550);
    for _ in 0..100 {
        let (mut t, _) = task("https://example.com/x");
        t.on_domain_lookup(Err(()), at(0, 0));
        match t.on_rate_limit_now(Ok(false)) {
            CrawlAction::Sleep { ms } => assert!((50..=550).contains(&ms)),
            other => panic!("unexpected {:?}", other),
        }
    }
}

#[test]
fn rate_limit_request_fields() {
    assert_eq!(rate_limit_key("example.com"), "rate_limit:example.com");
    let r = rate_limit_request("example.com", 3, 1000, 123);
    assert_eq!(r.key, "rate_limit:example.com");
    assert_eq!((r.limit, r.window_ms, r.now_ms), (3, 1000, 123));
    let s = rate_limit_request("example.com", 3, 1000, 123);
    assert_ne!(r.member, s.member);
    assert!(rate_limit_granted(1));
    assert!(!rate_limit_granted(0));
}

#[test]
fn poll_decisions() {
    assert_eq!(after_poll(PollOutcome::Failed), PollAction::Backoff { ms: 2000 });
    assert_eq!(after_poll(PollOutcome::Empty), PollAction::PollAgain);
    assert_eq!(after_poll(PollOutcome::Received), PollAction::Start);
}

#[test]
fn seeds_start_at_depth_zero() {
    assert_eq!(
        seed_jobs(),
        vec![
            CrawlJob { url: "https://example.com".to_string(), depth: 0 },
            CrawlJob { url: "https://rust-lang.org".to_string(), depth: 0 },
        ]
    );
}

#[test]
fn parse_plan_goes_one_level_deeper() {
    let job = ParseJob {
        url: "https://example.com/dir/".to_string(),
        storage_path: "html/abc.html".to_string(),
        depth: 3,
    };
    let html = "<html><head><title>T</title></head><body><a href=\"x\">x</a><a href=\"https://o.org/\">o</a></body></html>";
    let plan = plan_parse(&job, html);
    assert_eq!(plan.hash, "abc");
    assert_eq!(plan.parsed_key, "parsed/abc.json");
    assert_eq!(plan.parsed.title, Some("T".to_string()));
    assert_eq!(
        plan.next_jobs,
        vec![
            CrawlJob { url: "https://example.com/dir/x".to_string(), depth: 4 },
            CrawlJob { url: "https://o.org/".to_string(), depth: 4 },
        ]
    );
}

#[test]
fn clock_reading_variants() {
    let (mut t, _) = task("https://example.com/x");
    let a = t.on_domain_lookup_now(Err(()));
    assert_eq!(a, CrawlAction::CheckRateLimit { domain: "example.com".to_string(), limit: 1, window_ms: 1000 });
    assert!(t.rules.as_ref().unwrap().fetched_at.secs > 1_600_000_000);
    let a = t.on_rate_limit_now(Ok(true));
    assert_eq!(a, CrawlAction::Fetch { url: "https://example.com/x".to_string(), max_bytes: 2_000_000 });
    match t.on_fetched_now(Ok(StoredPage { hash: "h".into(), storage_path: "html/h.html".into() })) {
        CrawlAction::SaveMetadata { metadata } => {
            assert_eq!(metadata.content_hash, "h");
            assert!(metadata.last_crawled.secs > 1_600_000_000);
        }
        other => panic!("unexpected {:?}", other),
    }
}

#[test]
fn deepest_page_is_parsed_without_children() {
    let job = ParseJob {
        url: "https://example.com/".to_string(),
        storage_path: "html/abc.html".to_string(),
        depth: 255,
    };
    let html = "<html><head><title>Deep</title></head><body><a href=\"/next\">n</a></body></html>";
    let plan = plan_parse(&job, html);
    assert_eq!(plan.parsed.title, Some("Deep".to_string()));
    assert_eq!(plan.parsed.links, vec!["https://example.com/next".to_string()]);
    assert_eq!(plan.parsed_key, "parsed/abc.json");
    assert!(plan.next_jobs.is_empty());
}

#[test]
fn body_size_limit() {
    assert_eq!(grown_body_size(0, 10, 10), Some(10));
    assert_eq!(grown_body_size(5, 5, 10), Some(10));
    assert_eq!(grown_body_size(5, 6, 10), None);
    assert_eq!(grown_body_size(0, 11, 10), None);
    assert_eq!(grown_body_size(1_999_000, 1_000, 2_000_000), Some(2_000_000));
    assert_eq!(grown_body_size(1_999_000, 1_001, 2_000_000), None);
    assert_eq!(grown_body_size(u64::MAX, u64::MAX, u64::MAX), None);
}

#[test]
fn settings_limit_reaches_the_download() {
    let (mut t, _) = CrawlTask::new(
        CrawlJob { url: "https://example.com/x".to_string(), depth: 0 },
        "r".to_string(),
        2,
        123,
    );
    t.on_domain_lookup(Err(()), at(0, 0));
    assert_eq!(
        t.on_rate_limit(Ok(true), 0),
        CrawlAction::Fetch { url: "https://example.com/x".to_string(), max_bytes: 123 }
    );
}
