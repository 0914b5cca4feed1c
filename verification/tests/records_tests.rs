use webcrawler::models::{DomainRecord, Timestamp};
use webcrawler::records::{
    domain_item, domain_record_from_item, timestamp_text, DomainItem, RFC3339_MAX_SECS,
    RFC3339_MIN_SECS,
};
use webcrawler::storage::decode_text;

fn at(secs: i64, nanos: u32) -> Timestamp {
    Timestamp { secs, nanos }
}

fn record(rules: &[&str], delay: Option<u64>, fetched_at: Timestamp) -> DomainRecord {
    DomainRecord {
        domain: "example.com".to_string(),
        disallow: rules.iter().map(|r| r.to_string()).collect(),
        crawl_delay: delay,
        fetched_at,
    }
}

fn read_back(it: &DomainItem) -> Option<DomainRecord> {
    domain_record_from_item(&it.domain, &it.disallow, Some(&it.crawl_delay), &it.fetched_at)
}

#[test]
fn item_holds_the_stored_attributes() {
    let it = domain_item(&record(&["/a", "/b \"q\""], Some(3), at(1, 500_000_000))).unwrap();
    assert_eq!(
        it,
        DomainItem {
            domain: "example.com".to_string(),
            disallow: "[\"/a\",\"/b \\\"q\\\"\"]".to_string(),
            crawl_delay: "3".to_string(),
            fetched_at: "1970-01-01T00:00:01.500+00:00".to_string(),
        }
    );
    let it = domain_item(&record(&[], None, at(0, 0))).unwrap();
    assert_eq!(it.disallow, "[]");
    assert_eq!(it.crawl_delay, "0");
    assert_eq!(it.fetched_at, "1970-01-01T00:00:00+00:00");
    let it = domain_item(&record(&[], None, at(0, 123_456_789))).unwrap();
    assert_eq!(it.fetched_at, "1970-01-01T00:00:00.123456789+00:00");
    let it = domain_item(&record(&[], None, at(0, 1_000))).unwrap();
    assert_eq!(it.fetched_at, "1970-01-01T00:00:00.000001+00:00");
}

#[test]
fn stored_record_reads_back() {
    for rec in [
        record(&["/private", "/tmp/ x", "ü/ß"], Some(7), at(1_700_000_000, 123_456_789)),
        record(&[], None, at(0, 0)),
        record(&["/"], Some(1), at(-86_400, 1)),
        record(&["/a"], None, at(RFC3339_MIN_SECS, 0)),
        record(&["/a"], Some(u64::MAX), at(RFC3339_MAX_SECS, 999_999_999)),
    ] {
        let it = domain_item(&rec).unwrap();
        assert_eq!(read_back(&it).unwrap(), rec);
    }
}

#[test]
fn zero_delay_reads_back_as_none() {
    let rec = record(&["/x"], Some(0), at(5, 42));
    let back = read_back(&domain_item(&rec).unwrap()).unwrap();
    assert_eq!(back, record(&["/x"], None, at(5, 42)));
}

#[test]
fn item_decoding_edge_cases() {
    let r = domain_record_from_item("d", "not json", Some("12"), "2024-01-02T03:04:05Z").unwrap();
    assert!(r.disallow.is_empty());
    assert_eq!(r.crawl_delay, Some(12));
    assert_eq!(r.fetched_at, at(1_704_164_645, 0));
    let r = domain_record_from_item("d", "[\"/x\"]", None, "2024-01-02 03:04:05.250+01:00").unwrap();
    assert_eq!(r.disallow, vec!["/x".to_string()]);
    assert_eq!(r.crawl_delay, None);
    assert_eq!(r.fetched_at, at(1_704_161_045, 250_000_000));
    assert_eq!(domain_record_from_item("d", "[]", None, "yesterday"), None);
    assert_eq!(domain_record_from_item("d", "[]", Some("x"), "1970-01-01T00:00:00Z").unwrap().crawl_delay, None);
}

#[test]
fn unrepresentable_time_has_no_item() {
    assert_eq!(domain_item(&record(&[], None, at(i64::MAX, 0))), None);
    assert_eq!(timestamp_text(at(i64::MIN, 0)), None);
    assert_eq!(timestamp_text(at(0, 0)), Some("1970-01-01T00:00:00+00:00".to_string()));
    assert_eq!(timestamp_text(at(-1, 999_000_000)), Some("1969-12-31T23:59:59.999+00:00".to_string()));
}

#[test]
fn stored_page_text_is_decoded_lossily() {
    assert_eq!(decode_text(b"<p>caf\xc3\xa9</p>"), "<p>café</p>");
    assert_eq!(decode_text(b"a\xffb"), "a\u{FFFD}b");
}
