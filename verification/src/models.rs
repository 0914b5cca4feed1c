use vstd::prelude::*;

verus! {

/// A URL waiting in the crawl frontier, with its distance from a seed.
#[derive(Clone, Debug, PartialEq, Eq)]
pub struct CrawlJob {
    pub url: String,
    pub depth: u8,
}

pub struct CrawlJobView {
    pub url: Seq<char>,
    pub depth: u8,
}

impl View for CrawlJob {
    type V = CrawlJobView;

    open spec fn view(&self) -> CrawlJobView {
        CrawlJobView { url: self.url@, depth: self.depth }
    }
}

/// A fetched page waiting to be parsed: where its raw HTML is stored.
#[derive(Clone, Debug, PartialEq, Eq)]
pub struct ParseJob {
    pub url: String,
    pub storage_path: String,
    pub depth: u8,
}

pub struct ParseJobView {
    pub url: Seq<char>,
    pub storage_path: Seq<char>,
    pub depth: u8,
}

impl View for ParseJob {
    type V = ParseJobView;

    open spec fn view(&self) -> ParseJobView {
        ParseJobView { url: self.url@, storage_path: self.storage_path@, depth: self.depth }
    }
}

/// An instant as chrono's `DateTime<Utc>` holds it: whole seconds since the
/// Unix epoch and the nanoseconds into the second.
#[derive(Clone, Copy, Debug, PartialEq, Eq, Structural)]
pub struct Timestamp {
    pub secs: i64,
    pub nanos: u32,
}

/// The nanoseconds from the Unix epoch to `t`.
pub open spec fn nanos_since_epoch(t: Timestamp) -> int {
    t.secs * 1_000_000_000 + t.nanos
}

/// What is recorded of a crawled URL.
#[derive(Clone, Debug, PartialEq, Eq)]
pub struct UrlMetaData {
    pub url: String,
    pub storage_path: String,
    pub last_crawled: Timestamp,
    pub content_hash: String,
    pub depth: u8,
}

pub struct UrlMetaDataView {
    pub url: Seq<char>,
    pub storage_path: Seq<char>,
    pub last_crawled: Timestamp,
    pub content_hash: Seq<char>,
    pub depth: u8,
}

impl View for UrlMetaData {
    type V = UrlMetaDataView;

    open spec fn view(&self) -> UrlMetaDataView {
        UrlMetaDataView {
            url: self.url@,
            storage_path: self.storage_path@,
            last_crawled: self.last_crawled,
            content_hash: self.content_hash@,
            depth: self.depth,
        }
    }
}

/// The robots.txt rules that apply to this crawler on one domain, and when
/// they were read.
#[derive(Clone, Debug, PartialEq, Eq)]
pub struct DomainRecord {
    pub domain: String,
    pub disallow: Vec<String>,
    pub crawl_delay: Option<u64>,
    pub fetched_at: Timestamp,
}

pub struct DomainRecordView {
    pub domain: Seq<char>,
    pub disallow: Seq<Seq<char>>,
    pub crawl_delay: Option<u64>,
    pub fetched_at: Timestamp,
}

impl View for DomainRecord {
    type V = DomainRecordView;

    open spec fn view(&self) -> DomainRecordView {
        DomainRecordView {
            domain: self.domain@,
            disallow: self.disallow.deep_view(),
            crawl_delay: self.crawl_delay,
            fetched_at: self.fetched_at,
        }
    }
}


/// A copy of `v`, string by string.
pub fn copy_strings(v: &Vec<String>) -> (r: Vec<String>)
    ensures
        r@ == v@,
{
    let mut r: Vec<String> = Vec::new();
    let mut i: usize = 0;
    while i < v.len()
        invariant
            i <= v@.len(),
            r@ == v@.take(i as int),
        decreases v@.len() - i,
    {
        r.push(v[i].clone());
        assert(v@.take(i + 1) == v@.take(i as int).push(v@[i as int]));
        i = i + 1;
    }
    assert(v@.take(v@.len() as int) == v@);
    r
}

impl DomainRecord {
    /// A copy of the record.
    pub fn copy(&self) -> (r: DomainRecord)
        ensures
            r@ == self@,
    {
        DomainRecord {
            domain: self.domain.clone(),
            disallow: copy_strings(&self.disallow),
            crawl_delay: self.crawl_delay,
            fetched_at: self.fetched_at,
        }
    }
}

} // verus!
