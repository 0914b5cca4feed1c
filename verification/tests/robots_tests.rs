use webcrawler::models::{DomainRecord, Timestamp};
use webcrawler::robots::{
    is_allowed, parse_robots, parse_robots_at, permissive_record, permissive_record_at,
    robots_record, robots_record_at, robots_url,
};

fn at(secs: i64) -> Timestamp {
    Timestamp { secs, nanos: 0 }
}

const SAMPLE: &str = "User-agent: googlebot\nDisallow: /google-only\nCrawl-delay: 30\n\nUser-agent: *\nDisallow: /private\nDisallow:\nCrawl-delay: 5\n\nUser-agent: my-crawler\nDisallow: /mine/\n";

#[test]
fn rules_come_from_applicable_groups() {
    let r = parse_robots_at(SAMPLE, "example.com", at(42));
    assert_eq!(r.domain, "example.com");
    assert_eq!(r.disallow, vec!["/private".to_string(), "/mine/".to_string()]);
    assert_eq!(r.crawl_delay, Some(5));
    assert_eq!(r.fetched_at, at(42));
}

#[test]
fn other_agent_group_is_ignored() {
    let text = "User-agent: badbot\nDisallow: /\nCrawl-delay: 9\n";
    let r = parse_robots_at(text, "d", at(0));
    assert!(r.disallow.is_empty());
    assert_eq!(r.crawl_delay, None);
}

#[test]
fn empty_robots_sets_no_rules() {
    let r = parse_robots_at("", "d", at(1));
    assert!(r.disallow.is_empty());
    assert_eq!(r.crawl_delay, None);
    let r = parse_robots_at("<html>Not Found</html>", "d", at(1));
    assert!(r.disallow.is_empty());
}

#[test]
fn lines_trimmed_and_crlf() {
    let text = "  User-agent:   *  \r\n\tDisallow:  /a b  \r\nCrawl-delay: +7\r\n";
    let r = parse_robots_at(text, "d", at(0));
    assert_eq!(r.disallow, vec!["/a b".to_string()]);
    assert_eq!(r.crawl_delay, Some(7));
}

#[test]
fn unreadable_crawl_delay_is_none() {
    let text = "User-agent: *\nCrawl-delay: 5\nCrawl-delay: 1.5\n";
    let r = parse_robots_at(text, "d", at(0));
    assert_eq!(r.crawl_delay, None);
}

#[test]
fn repeated_tag_is_stripped_and_case_matters() {
    let text = "User-agent: *\nDisallow:Disallow: /x\ndisallow: /y\n";
    let r = parse_robots_at(text, "d", at(0));
    assert_eq!(r.disallow, vec!["/x".to_string()]);
}

#[test]
fn parse_robots_stamps_time() {
    let r = parse_robots("User-agent: *\nDisallow: /p\n", "d");
    assert_eq!(r.disallow, vec!["/p".to_string()]);
    assert!(r.fetched_at.secs > 1_600_000_000);
}

#[test]
fn permissive_record_has_no_rules() {
    let r = permissive_record("x.org");
    assert_eq!(r.domain, "x.org");
    assert!(r.disallow.is_empty());
    assert_eq!(r.crawl_delay, None);
    assert!(r.fetched_at.secs > 1_600_000_000);
    let p = permissive_record_at("x.org", at(3));
    assert_eq!(p.fetched_at, at(3));
}

#[test]
fn no_rules_allow_every_url() {
    let r = permissive_record_at("example.com", at(0));
    for url in ["https://example.com/", "https://example.com/private", "not a url", ""] {
        assert!(is_allowed(&r, url));
    }
}

#[test]
fn rules_match_path_prefixes() {
    let r = DomainRecord {
        domain: "example.com".to_string(),
        disallow: vec!["/private".to_string(), "/tmp/".to_string()],
        crawl_delay: None,
        fetched_at: at(0),
    };
    assert!(!is_allowed(&r, "https://example.com/private"));
    assert!(!is_allowed(&r, "https://example.com/private/x?y=1"));
    assert!(!is_allowed(&r, "https://example.com/privateer"));
    assert!(is_allowed(&r, "https://example.com/tmp"));
    assert!(!is_allowed(&r, "https://example.com/tmp/a"));
    assert!(is_allowed(&r, "https://example.com/public"));
    assert!(is_allowed(&r, "no scheme here"));
}

#[test]
fn more_rules_allow_less() {
    let fewer = DomainRecord { domain: "d".into(), disallow: vec!["/a".into()], crawl_delay: None, fetched_at: at(0) };
    let more = DomainRecord { domain: "d".into(), disallow: vec!["/a".into(), "/b".into()], crawl_delay: None, fetched_at: at(0) };
    for url in ["https://d/a", "https://d/b", "https://d/c"] {
        if is_allowed(&more, url) {
            assert!(is_allowed(&fewer, url));
        }
    }
    assert!(is_allowed(&fewer, "https://d/b"));
    assert!(!is_allowed(&more, "https://d/b"));
}

#[test]
fn robots_url_for_domain() {
    assert_eq!(robots_url("example.com"), "https://example.com/robots.txt");
}

#[test]
fn robots_record_falls_back_when_fetch_fails() {
    let r = robots_record_at("d", None, at(9));
    assert!(r.disallow.is_empty());
    assert_eq!(r.fetched_at, at(9));
    let r = robots_record_at("d", Some((200, "User-agent: *\nDisallow: /z".to_string())), at(9));
    assert_eq!(r.disallow, vec!["/z".to_string()]);
    let r = robots_record("d", None);
    assert!(r.disallow.is_empty());
    assert!(r.fetched_at.secs > 1_600_000_000);
}

#[test]
fn missing_robots_txt_sets_no_rules() {
    let body = "User-agent: *\nDisallow: /\nCrawl-delay: 5".to_string();
    let r = robots_record_at("example.com", Some((404, body.clone())), at(7));
    assert_eq!(r.domain, "example.com");
    assert!(r.disallow.is_empty());
    assert_eq!(r.crawl_delay, None);
    assert_eq!(r.fetched_at, at(7));
    let r = robots_record_at("example.com", Some((500, body.clone())), at(7));
    assert!(r.disallow.is_empty());
    let r = robots_record_at("example.com", Some((204, body)), at(7));
    assert_eq!(r.disallow, vec!["/".to_string()]);
    assert_eq!(r.crawl_delay, Some(5));
    let r = robots_record("example.com", Some((404, "Disallow: /".to_string())));
    assert!(r.disallow.is_empty());
}

#[test]
fn rules_are_trimmed() {
    let r = robots_record_at("d", Some((200, "  User-agent: *  \n Disallow:   /a b  \t\nDisallow:\u{3000}/c\u{3000}".to_string())), at(0));
    assert_eq!(r.disallow, vec!["/a b".to_string(), "/c".to_string()]);
}
