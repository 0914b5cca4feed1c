use vstd::prelude::*;
use vstd::string::StringExecFns;
use rand::Rng;

use crate::clock::now_utc;
use crate::html::{is_parse_of, parse, ParsedPage};
use crate::models::{nanos_since_epoch, CrawlJob, DomainRecord, ParseJob, Timestamp, UrlMetaData};
use crate::storage::{hash_of_storage_path, parsed_key, parsed_key_spec, storage_hash};
use crate::robots::{is_allowed, path_allowed, permissive_record_at};
use crate::urls::{domain_of, extract_domain, path_of};

verus! {

/// How long a cached robots.txt record stays fresh: 24 hours, in nanoseconds.
pub const ROBOTS_TTL_NS: i128 = 86_400_000_000_000i128;

/// The rate-limit window when robots.txt sets no crawl delay: 1 second.
pub const RATE_WINDOW_MS: u64 = 1000u64;

/// The least wait between two rate-limit checks, in milliseconds.
pub const RETRY_BASE_MS: u64 = 50u64;

/// The largest random jitter added to `RETRY_BASE_MS`, in milliseconds.
pub const RETRY_JITTER_MS: u64 = 500u64;

/// The wait after a failed poll of the frontier queue, in milliseconds.
pub const POLL_BACKOFF_MS: u64 = 2000u64;

/// Whether a record read at `fetched_at` is still fresh at `now`: less than
/// 24 hours have passed (a record from the future is fresh).
pub open spec fn is_fresh_spec(fetched_at: Timestamp, now: Timestamp) -> bool {
    nanos_since_epoch(now) - nanos_since_epoch(fetched_at) < ROBOTS_TTL_NS
}

/// Whether a record read at `fetched_at` is still fresh at `now`.
pub fn is_fresh(fetched_at: Timestamp, now: Timestamp) -> (r: bool)
    ensures
        r == is_fresh_spec(fetched_at, now),
{
    let secs: i128 = (now.secs as i128) - (fetched_at.secs as i128);
    let nanos: i128 = (now.nanos as i128) - (fetched_at.nanos as i128);
    secs * 1_000_000_000i128 + nanos < ROBOTS_TTL_NS
}

/// How many requests a domain may get per window.
#[derive(Clone, Copy, Debug, PartialEq, Eq)]
pub struct RateLimit {
    pub limit: u8,
    pub window_ms: u64,
}

/// The rate limit for a domain: `req_per_second` per second, unless its
/// robots.txt sets a positive crawl delay of `d` seconds, which overrides it
/// with one request per `d` seconds.
pub open spec fn rate_limit_spec(req_per_second: u8, crawl_delay: Option<u64>) -> RateLimit {
    match crawl_delay {
        Some(d) => if d > 0 {
            RateLimit {
                limit: 1,
                window_ms: if d <= u64::MAX / 1000 {
                    (d * 1000) as u64
                } else {
                    u64::MAX
                },
            }
        } else {
            RateLimit { limit: req_per_second, window_ms: RATE_WINDOW_MS }
        },
        None => RateLimit { limit: req_per_second, window_ms: RATE_WINDOW_MS },
    }
}

/// The rate limit for a domain with the given robots crawl delay.
pub fn rate_limit_for(req_per_second: u8, crawl_delay: Option<u64>) -> (r: RateLimit)
    ensures
        r == rate_limit_spec(req_per_second, crawl_delay),
{
    match crawl_delay {
        Some(d) if d > 0 => RateLimit {
            limit: 1,
            window_ms: if d <= u64::MAX / 1000 {
                d * 1000
            } else {
                u64::MAX
            },
        },
        _ => RateLimit { limit: req_per_second, window_ms: RATE_WINDOW_MS },
    }
}

/// A random jitter for rate-limit retries (`rand::thread_rng().gen_range(0..=500)`):
/// at most 500 milliseconds, as the range asks; which value comes is chance.
#[verifier::external_body]
fn random_jitter_ms() -> (r: u64)
    ensures
        r <= RETRY_JITTER_MS,
{
    rand::thread_rng().gen_range(0u64..=500)
}

/// The wait before the next rate-limit check: the base wait plus the jitter,
/// capped at the largest jitter.
pub fn retry_delay_ms(jitter: u64) -> (r: u64)
    ensures
        r == RETRY_BASE_MS + (if jitter <= RETRY_JITTER_MS {
            jitter
        } else {
            RETRY_JITTER_MS
        }),
        RETRY_BASE_MS <= r <= RETRY_BASE_MS + RETRY_JITTER_MS,
{
    if jitter <= RETRY_JITTER_MS {
        RETRY_BASE_MS + jitter
    } else {
        RETRY_BASE_MS + RETRY_JITTER_MS
    }
}


/// Where a crawl task stands: which outside step it waits for.
#[derive(Clone, Copy, Debug, PartialEq, Eq, Structural)]
pub enum CrawlStage {
    /// Waiting for the cached robots record of the domain.
    LookupRobots,
    /// Waiting for robots.txt to be fetched and read.
    FetchRobots,
    /// Waiting for the fresh robots record to be cached.
    StoreRobots,
    /// Waiting for the rate limiter's answer.
    RateLimit,
    /// Waiting out a refused rate-limit check.
    Sleeping,
    /// Waiting for the page to be downloaded and stored.
    Fetch,
    /// Waiting for the page's metadata to be saved.
    SaveMetadata,
    /// Waiting for the job to leave the frontier queue.
    DeleteMessage,
    /// Waiting for the parse job to be queued.
    EnqueueParse,
    /// Waiting for a job whose URL robots.txt forbids to leave the frontier
    /// queue.
    DeleteBlocked,
    /// Finished.
    Done,
}

/// How a crawl task ended.
#[derive(Clone, Copy, Debug, PartialEq, Eq, Structural)]
pub enum CrawlOutcome {
    /// The page was downloaded and handed to the parsing queue.
    Crawled,
    /// robots.txt forbids the URL.
    Blocked,
    /// The download failed.
    FetchFailed,
}

/// What the task asks its runner to do next.
#[derive(Clone, Debug, PartialEq, Eq)]
pub enum CrawlAction {
    LookupDomain { domain: String },
    FetchRobots { domain: String },
    StoreDomain { record: DomainRecord },
    CheckRateLimit { domain: String, limit: u8, window_ms: u64 },
    Sleep { ms: u64 },
    Fetch { url: String, max_bytes: u64 },
    SaveMetadata { metadata: UrlMetaData },
    DeleteMessage { receipt: String },
    SendParseJob { job: ParseJob },
    Finish { outcome: CrawlOutcome },
}

/// A downloaded page: its content hash and where its HTML is stored.
#[derive(Clone, Debug, PartialEq, Eq)]
pub struct StoredPage {
    pub hash: String,
    pub storage_path: String,
}

/// The size of a response body once a chunk of `chunk` bytes arrives on
/// the `received` bytes so far, while it stays within `max_bytes`; `None`
/// once it would grow past the limit, when the download is given up as too
/// large.
pub fn grown_body_size(received: u64, chunk: u64, max_bytes: u64) -> (r: Option<u64>)
    ensures
        received + chunk <= max_bytes ==> r == Some((received + chunk) as u64),
        received + chunk > max_bytes ==> r is None,
{
    if chunk > max_bytes || received > max_bytes - chunk {
        None
    } else {
        Some(received + chunk)
    }
}

/// The crawl of one frontier job, from robots.txt to the parse job.
#[derive(Clone, Debug)]
pub struct CrawlTask {
    pub job: CrawlJob,
    /// The queue receipt of the job's message.
    pub receipt: String,
    pub domain: String,
    pub req_per_second: u8,
    /// The largest response body the download accepts, in bytes.
    pub max_bytes: u64,
    pub stage: CrawlStage,
    /// The robots rules of the domain, once known.
    pub rules: Option<DomainRecord>,
    /// The downloaded page, once stored.
    pub page: Option<StoredPage>,
    /// Whether the page's metadata was saved.
    pub metadata_saved: bool,
}

impl CrawlTask {
    /// Whether the rules are known and let the crawler fetch the job's URL.
    pub open spec fn url_allowed(&self) -> bool {
        match self.rules {
            Some(r) => path_allowed(r@.disallow, path_of(self.job.url@)),
            None => false,
        }
    }

    /// What holds of the task at every stage: the domain is the URL's; from
    /// the rate limit on, the rules are known and allow the URL; from the
    /// metadata on, the page is downloaded; the job is only deleted once its
    /// metadata is saved, or when the rules forbid its URL.
    pub open spec fn wf(&self) -> bool {
        &&& self.domain@ == domain_of(self.job.url@)
        &&& (self.stage == CrawlStage::RateLimit || self.stage == CrawlStage::Sleeping
            || self.stage == CrawlStage::Fetch || self.stage == CrawlStage::SaveMetadata
            || self.stage == CrawlStage::DeleteMessage || self.stage == CrawlStage::EnqueueParse)
            ==> self.url_allowed()
        &&& (self.stage == CrawlStage::SaveMetadata || self.stage == CrawlStage::DeleteMessage
            || self.stage == CrawlStage::EnqueueParse) ==> self.page is Some
        &&& self.stage == CrawlStage::DeleteMessage ==> self.metadata_saved
        &&& self.stage == CrawlStage::DeleteBlocked ==> self.rules is Some && !self.url_allowed()
    }

    /// Whether `self` keeps what `old` knew of the job.
    pub open spec fn same_job(&self, old: &CrawlTask) -> bool {
        &&& self.job == old.job
        &&& self.receipt == old.receipt
        &&& self.domain == old.domain
        &&& self.req_per_second == old.req_per_second
        &&& self.max_bytes == old.max_bytes
    }

    /// A task for `job` (whose message has `receipt`), with the rate and
    /// the body size limit of the settings: it first looks up the cached
    /// robots record of the URL's domain.
    pub fn new(job: CrawlJob, receipt: String, req_per_second: u8, max_bytes: u64) -> (r: (
        CrawlTask,
        CrawlAction,
    ))
        ensures
            r.0.wf(),
            r.0.job == job,
            r.0.receipt == receipt,
            r.0.req_per_second == req_per_second,
            r.0.max_bytes == max_bytes,
            r.0.stage == CrawlStage::LookupRobots,
            r.0.rules is None,
            r.0.page is None,
            !r.0.metadata_saved,
            r.1 == (CrawlAction::LookupDomain { domain: r.0.domain }),
    {
        let domain = extract_domain(job.url.as_str());
        let action = CrawlAction::LookupDomain { domain: domain.clone() };
        let task = CrawlTask {
            job,
            receipt,
            domain,
            req_per_second,
            max_bytes,
            stage: CrawlStage::LookupRobots,
            rules: None,
            page: None,
            metadata_saved: false,
        };
        (task, action)
    }

    /// With the rules known: check the rate limit when they allow the URL;
    /// otherwise delete the job from the frontier queue, so that it is not
    /// delivered again.
    fn decide(&mut self) -> (r: CrawlAction)
        requires
            old(self).rules is Some,
            old(self).domain@ == domain_of(old(self).job.url@),
        ensures
            final(self).same_job(old(self)),
            final(self).rules == old(self).rules,
            final(self).page == old(self).page,
            final(self).metadata_saved == old(self).metadata_saved,
            final(self).wf(),
            old(self).url_allowed() ==> final(self).stage == CrawlStage::RateLimit && r == (
            CrawlAction::CheckRateLimit {
                domain: old(self).domain,
                limit: rate_limit_spec(old(self).req_per_second, old(self).rules->0.crawl_delay).limit,
                window_ms: rate_limit_spec(
                    old(self).req_per_second,
                    old(self).rules->0.crawl_delay,
                ).window_ms,
            }),
            !old(self).url_allowed() ==> final(self).stage == CrawlStage::DeleteBlocked && r == (
            CrawlAction::DeleteMessage { receipt: old(self).receipt }),
    {
        let (allowed, delay) = match &self.rules {
            Some(rules) => (is_allowed(rules, self.job.url.as_str()), rules.crawl_delay),
            None => (false, None),
        };
        if allowed {
            let rl = rate_limit_for(self.req_per_second, delay);
            self.stage = CrawlStage::RateLimit;
            CrawlAction::CheckRateLimit {
                domain: self.domain.clone(),
                limit: rl.limit,
                window_ms: rl.window_ms,
            }
        } else {
            self.stage = CrawlStage::DeleteBlocked;
            CrawlAction::DeleteMessage { receipt: self.receipt.clone() }
        }
    }

    /// The cached robots record arrived (`Err` when the lookup failed). A
    /// record fresh at `now` is used; a missing or stale one makes the task
    /// fetch robots.txt; a failed lookup lets every path (a permissive
    /// record read at `now`).
    pub fn on_domain_lookup(&mut self, cached: Result<Option<DomainRecord>, ()>, now: Timestamp) -> (r: CrawlAction)
        requires
            old(self).wf(),
            old(self).stage == CrawlStage::LookupRobots,
        ensures
            final(self).wf(),
            final(self).same_job(old(self)),
            final(self).page == old(self).page,
            match cached {
                Ok(Some(rec)) => if is_fresh_spec(rec.fetched_at, now) {
                    &&& final(self).rules == Some(rec)
                    &&& (final(self).stage == CrawlStage::RateLimit || final(self).stage == CrawlStage::DeleteBlocked)
                } else {
                    &&& final(self).stage == CrawlStage::FetchRobots
                    &&& r == (CrawlAction::FetchRobots { domain: old(self).domain })
                },
                Ok(None) => {
                    &&& final(self).stage == CrawlStage::FetchRobots
                    &&& r == (CrawlAction::FetchRobots { domain: old(self).domain })
                },
                Err(()) => {
                    &&& final(self).rules matches Some(p) && p@.domain == old(self).domain@
                        && p@.disallow.len() == 0 && p.crawl_delay is None && p.fetched_at == now
                    &&& final(self).stage == CrawlStage::RateLimit
                },
            },
            final(self).stage == CrawlStage::RateLimit ==> r == (CrawlAction::CheckRateLimit {
                domain: old(self).domain,
                limit: rate_limit_spec(final(self).req_per_second, final(self).rules->0.crawl_delay).limit,
                window_ms: rate_limit_spec(final(self).req_per_second, final(self).rules->0.crawl_delay).window_ms,
            }),
            final(self).stage == CrawlStage::DeleteBlocked ==> !final(self).url_allowed() && r == (
            CrawlAction::DeleteMessage { receipt: old(self).receipt }),
    {
        match cached {
            Ok(Some(rec)) => {
                if is_fresh(rec.fetched_at, now) {
                    self.rules = Some(rec);
                    self.decide()
                } else {
                    self.stage = CrawlStage::FetchRobots;
                    CrawlAction::FetchRobots { domain: self.domain.clone() }
                }
            },
            Ok(None) => {
                self.stage = CrawlStage::FetchRobots;
                CrawlAction::FetchRobots { domain: self.domain.clone() }
            },
            Err(()) => {
                let p = permissive_record_at(self.domain.as_str(), now);
                self.rules = Some(p);
                proof {
                    crate::robots::law_no_rules_allow_every_url(
                        self.rules->0@.disallow,
                        self.job.url@,
                    );
                }
                self.decide()
            },
        }
    }

    /// `on_domain_lookup` at the clock's current reading (which is not
    /// stated): a fresh record is used, a missing or stale one is fetched
    /// again, a failed lookup lets every path.
    pub fn on_domain_lookup_now(&mut self, cached: Result<Option<DomainRecord>, ()>) -> (r: CrawlAction)
        requires
            old(self).wf(),
            old(self).stage == CrawlStage::LookupRobots,
        ensures
            final(self).wf(),
            final(self).same_job(old(self)),
            final(self).page == old(self).page,
            match cached {
                Ok(Some(rec)) => {
                    ||| final(self).rules == Some(rec) && (final(self).stage == CrawlStage::RateLimit
                        || final(self).stage == CrawlStage::DeleteBlocked)
                    ||| final(self).stage == CrawlStage::FetchRobots && r == (CrawlAction::FetchRobots {
                        domain: old(self).domain,
                    })
                },
                Ok(None) => {
                    &&& final(self).stage == CrawlStage::FetchRobots
                    &&& r == (CrawlAction::FetchRobots { domain: old(self).domain })
                },
                Err(()) => {
                    &&& final(self).rules matches Some(p) && p@.domain == old(self).domain@
                        && p@.disallow.len() == 0 && p.crawl_delay is None
                    &&& final(self).stage == CrawlStage::RateLimit
                },
            },
            final(self).stage == CrawlStage::RateLimit ==> r == (CrawlAction::CheckRateLimit {
                domain: old(self).domain,
                limit: rate_limit_spec(final(self).req_per_second, final(self).rules->0.crawl_delay).limit,
                window_ms: rate_limit_spec(final(self).req_per_second, final(self).rules->0.crawl_delay).window_ms,
            }),
            final(self).stage == CrawlStage::DeleteBlocked ==> !final(self).url_allowed() && r == (
            CrawlAction::DeleteMessage { receipt: old(self).receipt }),
    {
        self.on_domain_lookup(cached, now_utc())
    }

    /// The domain's robots.txt was fetched and read into `record`; the task
    /// caches it.
    pub fn on_robots_fetched(&mut self, record: DomainRecord) -> (r: CrawlAction)
        requires
            old(self).wf(),
            old(self).stage == CrawlStage::FetchRobots,
        ensures
            final(self).wf(),
            final(self).same_job(old(self)),
            final(self).page == old(self).page,
            final(self).rules == Some(record),
            final(self).stage == CrawlStage::StoreRobots,
            r matches CrawlAction::StoreDomain { record: stored } && stored@ == record@,
    {
        let action = CrawlAction::StoreDomain { record: record.copy() };
        self.rules = Some(record);
        self.stage = CrawlStage::StoreRobots;
        action
    }

    /// The fresh robots record was cached (or caching failed; the task goes
    /// on either way): check the rate limit when the rules allow the URL,
    /// delete the job from the frontier queue otherwise.
    pub fn on_domain_stored(&mut self) -> (r: CrawlAction)
        requires
            old(self).wf(),
            old(self).stage == CrawlStage::StoreRobots,
            old(self).rules is Some,
        ensures
            final(self).wf(),
            final(self).same_job(old(self)),
            final(self).rules == old(self).rules,
            final(self).page == old(self).page,
            old(self).url_allowed() ==> final(self).stage == CrawlStage::RateLimit && r == (
            CrawlAction::CheckRateLimit {
                domain: old(self).domain,
                limit: rate_limit_spec(old(self).req_per_second, old(self).rules->0.crawl_delay).limit,
                window_ms: rate_limit_spec(
                    old(self).req_per_second,
                    old(self).rules->0.crawl_delay,
                ).window_ms,
            }),
            !old(self).url_allowed() ==> final(self).stage == CrawlStage::DeleteBlocked && r == (
            CrawlAction::DeleteMessage { receipt: old(self).receipt }),
    {
        self.decide()
    }

    /// The rate limiter answered: granted (`Ok(true)`) or failed (`Err`,
    /// when the check is skipped) lets the download go; refused
    /// (`Ok(false)`) makes the task wait `retry_delay_ms(jitter)` and ask again.
    pub fn on_rate_limit(&mut self, granted: Result<bool, ()>, jitter: u64) -> (r: CrawlAction)
        requires
            old(self).wf(),
            old(self).stage == CrawlStage::RateLimit,
        ensures
            final(self).wf(),
            final(self).same_job(old(self)),
            final(self).rules == old(self).rules,
            final(self).page == old(self).page,
            granted == Ok::<bool, ()>(false) ==> final(self).stage == CrawlStage::Sleeping && r == (
            CrawlAction::Sleep {
                ms: (RETRY_BASE_MS + (if jitter <= RETRY_JITTER_MS {
                    jitter
                } else {
                    RETRY_JITTER_MS
                })) as u64,
            }),
            granted != Ok::<bool, ()>(false) ==> final(self).stage == CrawlStage::Fetch && r == (
            CrawlAction::Fetch { url: old(self).job.url, max_bytes: old(self).max_bytes }),
    {
        match granted {
            Ok(false) => {
                self.stage = CrawlStage::Sleeping;
                CrawlAction::Sleep { ms: retry_delay_ms(jitter) }
            },
            _ => {
                self.stage = CrawlStage::Fetch;
                CrawlAction::Fetch { url: self.job.url.clone(), max_bytes: self.max_bytes }
            },
        }
    }

    /// `on_rate_limit` with a random jitter: a refused check waits between
    /// `RETRY_BASE_MS` and `RETRY_BASE_MS + RETRY_JITTER_MS` milliseconds.
    pub fn on_rate_limit_now(&mut self, granted: Result<bool, ()>) -> (r: CrawlAction)
        requires
            old(self).wf(),
            old(self).stage == CrawlStage::RateLimit,
        ensures
            final(self).wf(),
            final(self).same_job(old(self)),
            final(self).rules == old(self).rules,
            final(self).page == old(self).page,
            granted == Ok::<bool, ()>(false) ==> final(self).stage == CrawlStage::Sleeping && (r matches CrawlAction::Sleep { ms } && RETRY_BASE_MS <= ms <= RETRY_BASE_MS + RETRY_JITTER_MS),
            granted != Ok::<bool, ()>(false) ==> final(self).stage == CrawlStage::Fetch && r == (
            CrawlAction::Fetch { url: old(self).job.url, max_bytes: old(self).max_bytes }),
    {
        let jitter = random_jitter_ms();
        self.on_rate_limit(granted, jitter)
    }

    /// The wait is over: ask the rate limiter again.
    pub fn on_slept(&mut self) -> (r: CrawlAction)
        requires
            old(self).wf(),
            old(self).stage == CrawlStage::Sleeping,
        ensures
            final(self).wf(),
            final(self).same_job(old(self)),
            final(self).rules == old(self).rules,
            final(self).page == old(self).page,
            final(self).stage == CrawlStage::RateLimit,
            r == (CrawlAction::CheckRateLimit {
                domain: old(self).domain,
                limit: rate_limit_spec(old(self).req_per_second, old(self).rules->0.crawl_delay).limit,
                window_ms: rate_limit_spec(
                    old(self).req_per_second,
                    old(self).rules->0.crawl_delay,
                ).window_ms,
            }),
    {
        let delay = match &self.rules {
            Some(rules) => rules.crawl_delay,
            None => None,
        };
        let rl = rate_limit_for(self.req_per_second, delay);
        self.stage = CrawlStage::RateLimit;
        CrawlAction::CheckRateLimit { domain: self.domain.clone(), limit: rl.limit, window_ms: rl.window_ms }
    }

    /// The download ended: a stored page (its hash and storage path) has its
    /// metadata, crawled at `now`, saved; a failed download ends the task.
    pub fn on_fetched(&mut self, fetched: Result<StoredPage, ()>, now: Timestamp) -> (r: CrawlAction)
        requires
            old(self).wf(),
            old(self).stage == CrawlStage::Fetch,
        ensures
            final(self).wf(),
            final(self).same_job(old(self)),
            final(self).rules == old(self).rules,
            match fetched {
                Ok(page) => {
                    &&& final(self).stage == CrawlStage::SaveMetadata
                    &&& final(self).page == Some(page)
                    &&& r == (CrawlAction::SaveMetadata {
                        metadata: UrlMetaData {
                            url: old(self).job.url,
                            storage_path: page.storage_path,
                            last_crawled: now,
                            content_hash: page.hash,
                            depth: old(self).job.depth,
                        },
                    })
                },
                Err(()) => {
                    &&& final(self).stage == CrawlStage::Done
                    &&& r == (CrawlAction::Finish { outcome: CrawlOutcome::FetchFailed })
                },
            },
    {
        match fetched {
            Ok(page) => {
                let metadata = UrlMetaData {
                    url: self.job.url.clone(),
                    storage_path: page.storage_path.clone(),
                    last_crawled: now,
                    content_hash: page.hash.clone(),
                    depth: self.job.depth,
                };
                self.page = Some(page);
                self.stage = CrawlStage::SaveMetadata;
                CrawlAction::SaveMetadata { metadata }
            },
            Err(()) => {
                self.stage = CrawlStage::Done;
                CrawlAction::Finish { outcome: CrawlOutcome::FetchFailed }
            },
        }
    }

    /// `on_fetched` with the page crawled now (the clock's reading, which is
    /// not stated).
    pub fn on_fetched_now(&mut self, fetched: Result<StoredPage, ()>) -> (r: CrawlAction)
        requires
            old(self).wf(),
            old(self).stage == CrawlStage::Fetch,
        ensures
            final(self).wf(),
            final(self).same_job(old(self)),
            final(self).rules == old(self).rules,
            match fetched {
                Ok(page) => {
                    &&& final(self).stage == CrawlStage::SaveMetadata
                    &&& final(self).page == Some(page)
                    &&& r matches CrawlAction::SaveMetadata { metadata }
                    &&& metadata.url == old(self).job.url
                    &&& metadata.storage_path == page.storage_path
                    &&& metadata.content_hash == page.hash
                    &&& metadata.depth == old(self).job.depth
                },
                Err(()) => {
                    &&& final(self).stage == CrawlStage::Done
                    &&& r == (CrawlAction::Finish { outcome: CrawlOutcome::FetchFailed })
                },
            },
    {
        self.on_fetched(fetched, now_utc())
    }

    /// The parse job for the stored page.
    pub open spec fn parse_job_spec(&self) -> ParseJob {
        ParseJob {
            url: self.job.url,
            storage_path: self.page->0.storage_path,
            depth: self.job.depth,
        }
    }

    fn make_parse_job(&self) -> (r: ParseJob)
        requires
            self.page is Some,
        ensures
            r == self.parse_job_spec(),
    {
        let storage_path = match &self.page {
            Some(p) => p.storage_path.clone(),
            None => String::new(),
        };
        ParseJob { url: self.job.url.clone(), storage_path, depth: self.job.depth }
    }

    /// The metadata save ended: when it succeeded the job leaves the frontier
    /// queue; either way the page goes to the parsing queue.
    pub fn on_metadata_saved(&mut self, saved: bool) -> (r: CrawlAction)
        requires
            old(self).wf(),
            old(self).stage == CrawlStage::SaveMetadata,
        ensures
            final(self).wf(),
            final(self).same_job(old(self)),
            final(self).rules == old(self).rules,
            final(self).page == old(self).page,
            final(self).metadata_saved == saved,
            saved ==> final(self).stage == CrawlStage::DeleteMessage && r == (
            CrawlAction::DeleteMessage { receipt: old(self).receipt }),
            !saved ==> final(self).stage == CrawlStage::EnqueueParse && r == (
            CrawlAction::SendParseJob { job: old(self).parse_job_spec() }),
    {
        self.metadata_saved = saved;
        if saved {
            self.stage = CrawlStage::DeleteMessage;
            CrawlAction::DeleteMessage { receipt: self.receipt.clone() }
        } else {
            self.stage = CrawlStage::EnqueueParse;
            CrawlAction::SendParseJob { job: self.make_parse_job() }
        }
    }

    /// The job left the frontier queue (or deleting it failed): the page
    /// goes to the parsing queue.
    pub fn on_message_deleted(&mut self) -> (r: CrawlAction)
        requires
            old(self).wf(),
            old(self).stage == CrawlStage::DeleteMessage,
        ensures
            final(self).wf(),
            final(self).same_job(old(self)),
            final(self).rules == old(self).rules,
            final(self).page == old(self).page,
            final(self).stage == CrawlStage::EnqueueParse,
            r == (CrawlAction::SendParseJob { job: old(self).parse_job_spec() }),
    {
        self.stage = CrawlStage::EnqueueParse;
        CrawlAction::SendParseJob { job: self.make_parse_job() }
    }

    /// The job that robots.txt forbids left the frontier queue (or deleting
    /// it failed): the task ends as blocked.
    pub fn on_blocked_deleted(&mut self) -> (r: CrawlAction)
        requires
            old(self).wf(),
            old(self).stage == CrawlStage::DeleteBlocked,
        ensures
            final(self).wf(),
            final(self).same_job(old(self)),
            final(self).rules == old(self).rules,
            final(self).page == old(self).page,
            final(self).stage == CrawlStage::Done,
            r == (CrawlAction::Finish { outcome: CrawlOutcome::Blocked }),
    {
        self.stage = CrawlStage::Done;
        CrawlAction::Finish { outcome: CrawlOutcome::Blocked }
    }

    /// The parse job was queued (or queueing it failed): the crawl is done.
    pub fn on_parse_job_sent(&mut self) -> (r: CrawlAction)
        requires
            old(self).wf(),
            old(self).stage == CrawlStage::EnqueueParse,
        ensures
            final(self).wf(),
            final(self).same_job(old(self)),
            final(self).rules == old(self).rules,
            final(self).page == old(self).page,
            final(self).stage == CrawlStage::Done,
            r == (CrawlAction::Finish { outcome: CrawlOutcome::Crawled }),
    {
        self.stage = CrawlStage::Done;
        CrawlAction::Finish { outcome: CrawlOutcome::Crawled }
    }
}


/// The task never downloads a URL that robots.txt forbids: in every state
/// that the task's transitions keep (`wf`), the download stage has rules
/// that allow the URL.
pub proof fn law_fetch_only_allowed(t: CrawlTask)
    requires
        t.wf(),
        t.stage == CrawlStage::Fetch,
    ensures
        t.rules is Some,
        path_allowed(t.rules->0@.disallow, path_of(t.job.url@)),
{
}

/// A downloaded job leaves the frontier queue only after its page was
/// stored and its metadata saved.
pub proof fn law_delete_after_save(t: CrawlTask)
    requires
        t.wf(),
        t.stage == CrawlStage::DeleteMessage,
    ensures
        t.page is Some,
        t.metadata_saved,
{
}

/// A job leaves the frontier queue without a download only when the
/// domain's robots rules are known and forbid its URL.
pub proof fn law_blocked_job_deleted(t: CrawlTask)
    requires
        t.wf(),
        t.stage == CrawlStage::DeleteBlocked,
    ensures
        t.rules is Some,
        !path_allowed(t.rules->0@.disallow, path_of(t.job.url@)),
{
}

/// What the parsing side does with one stored page.
#[derive(Clone, Debug, PartialEq, Eq)]
pub struct ParsePlan {
    /// The parsed page.
    pub parsed: ParsedPage,
    /// The content hash the page is stored under.
    pub hash: String,
    /// Where the parsed record is stored.
    pub parsed_key: String,
    /// The links to crawl next, one level deeper.
    pub next_jobs: Vec<CrawlJob>,
}

/// The views of `jobs`.
pub open spec fn jobs_view(jobs: Seq<CrawlJob>) -> Seq<crate::models::CrawlJobView> {
    jobs.map_values(|j: CrawlJob| j@)
}

/// The frontier jobs for `links`, each at `depth`.
pub open spec fn jobs_for(links: Seq<Seq<char>>, depth: u8) -> Seq<crate::models::CrawlJobView> {
    links.map_values(|l: Seq<char>| crate::models::CrawlJobView { url: l, depth })
}

/// The plan for the parse job `job` whose stored HTML is `html`: the page
/// parsed at the job's URL, the hash named by the storage path (the URL when
/// the path has no file stem), the key of the parsed record, and a frontier
/// job one level deeper for every link. A page at depth 255 is parsed and
/// stored like any other, but there is no deeper level to crawl (a depth is
/// a `u8`): it has no next jobs.
pub fn plan_parse(job: &ParseJob, html: &str) -> (r: ParsePlan)
    ensures
        is_parse_of(r.parsed, html@, job.url@),
        r.hash@ == hash_of_storage_path(job.storage_path@, job.url@),
        r.parsed_key@ == parsed_key_spec(r.hash@),
        job.depth < 255 ==> jobs_view(r.next_jobs@) == jobs_for(
            r.parsed.links.deep_view(),
            (job.depth + 1) as u8,
        ),
        job.depth == 255 ==> r.next_jobs@.len() == 0,
{
    let parsed = parse(html, job.url.as_str());
    let hash = storage_hash(job.storage_path.as_str(), job.url.as_str());
    let key = parsed_key(hash.as_str());
    let mut next_jobs: Vec<CrawlJob> = Vec::new();
    if job.depth == 255 {
        return ParsePlan { parsed, hash, parsed_key: key, next_jobs };
    }
    let depth = job.depth + 1;
    let ghost links = parsed.links.deep_view();
    let mut i: usize = 0;
    while i < parsed.links.len()
        invariant
            i <= parsed.links@.len(),
            links == parsed.links.deep_view(),
            links.len() == parsed.links@.len(),
            next_jobs@.len() == i,
            jobs_view(next_jobs@) == jobs_for(links.take(i as int), depth),
        decreases parsed.links@.len() - i,
    {
        let ghost before = next_jobs@;
        let url = parsed.links[i].clone();
        assert(url@ == links[i as int]);
        next_jobs.push(CrawlJob { url, depth });
        assert(links.take(i + 1) == links.take(i as int).push(links[i as int]));
        assert(next_jobs@ == before.push(CrawlJob { url, depth }));
        assert forall|k: int| 0 <= k < i + 1 implies #[trigger] jobs_view(next_jobs@)[k]
            == jobs_for(links.take(i + 1), depth)[k] by {
            if k < i {
                assert(next_jobs@[k] == before[k]);
                assert(jobs_view(before)[k] == jobs_for(links.take(i as int), depth)[k]);
            }
        }
        assert(jobs_view(next_jobs@) =~= jobs_for(links.take(i + 1), depth));
        i = i + 1;
    }
    assert(links.take(parsed.links@.len() as int) == links);
    ParsePlan { parsed, hash, parsed_key: key, next_jobs }
}


/// The Redis key of the rate-limit window of `domain`: `rate_limit:{domain}`.
pub open spec fn rate_limit_key_spec(domain: Seq<char>) -> Seq<char> {
    seq!['r', 'a', 't', 'e', '_', 'l', 'i', 'm', 'i', 't', ':'] + domain
}

/// `format!("rate_limit:{domain}")`.
pub fn rate_limit_key(domain: &str) -> (r: String)
    ensures
        r@ == rate_limit_key_spec(domain@),
{
    let head = "rate_limit:";
    proof {
        reveal_strlit("rate_limit:");
    }
    let mut r = String::from_str(head);
    r.append(domain);
    r
}

/// A fresh identifier for one request in a rate-limit window
/// (`uuid::Uuid::new_v4().to_string()`); nothing is stated of it: it is random.
#[verifier::external_body]
fn new_request_id() -> String {
    uuid::Uuid::new_v4().to_string()
}

/// The arguments of one sliding-window check: the window's key, the time
/// (milliseconds since the Unix epoch), the window length in milliseconds,
/// the most requests the window admits, and a unique member for this request.
#[derive(Clone, Debug, PartialEq, Eq)]
pub struct RateLimitRequest {
    pub key: String,
    pub now_ms: u64,
    pub window_ms: u64,
    pub limit: u8,
    pub member: String,
}

/// The check for one request to `domain` at `now_ms`.
pub fn rate_limit_request(domain: &str, limit: u8, window_ms: u64, now_ms: u64) -> (r: RateLimitRequest)
    ensures
        r.key@ == rate_limit_key_spec(domain@),
        r.now_ms == now_ms,
        r.window_ms == window_ms,
        r.limit == limit,
{
    RateLimitRequest {
        key: rate_limit_key(domain),
        now_ms,
        window_ms,
        limit,
        member: new_request_id(),
    }
}

/// Whether the sliding-window script admitted the request: it answers 1
/// when it did, 0 when the window is full.
pub fn rate_limit_granted(reply: i32) -> (r: bool)
    ensures
        r == (reply == 1),
{
    reply == 1
}

/// What a poll of a queue gave.
#[derive(Clone, Copy, Debug, PartialEq, Eq, Structural)]
pub enum PollOutcome {
    Failed,
    Empty,
    Received,
}

/// What a worker does after polling its queue.
#[derive(Clone, Copy, Debug, PartialEq, Eq, Structural)]
pub enum PollAction {
    /// Wait this long, then poll again.
    Backoff { ms: u64 },
    /// Poll again at once (the long poll already waited).
    PollAgain,
    /// Start work on the received message, then poll again.
    Start,
}

/// After a failed poll wait `POLL_BACKOFF_MS`; after an empty one poll
/// again; a message starts a task.
pub fn after_poll(outcome: PollOutcome) -> (r: PollAction)
    ensures
        outcome == PollOutcome::Failed ==> r == (PollAction::Backoff { ms: POLL_BACKOFF_MS }),
        outcome == PollOutcome::Empty ==> r == PollAction::PollAgain,
        outcome == PollOutcome::Received ==> r == PollAction::Start,
{
    match outcome {
        PollOutcome::Failed => PollAction::Backoff { ms: POLL_BACKOFF_MS },
        PollOutcome::Empty => PollAction::PollAgain,
        PollOutcome::Received => PollAction::Start,
    }
}

/// The URLs the frontier is seeded with.
pub open spec fn seed_urls() -> Seq<Seq<char>> {
    seq![
        seq!['h', 't', 't', 'p', 's', ':', '/', '/', 'e', 'x', 'a', 'm', 'p', 'l', 'e', '.', 'c', 'o', 'm'],
        seq![
            'h', 't', 't', 'p', 's', ':', '/', '/', 'r', 'u', 's', 't', '-', 'l', 'a', 'n', 'g', '.',
            'o', 'r', 'g',
        ],
    ]
}

/// The seed jobs: each seed URL at depth 0.
pub fn seed_jobs() -> (r: Vec<CrawlJob>)
    ensures
        jobs_view(r@) == jobs_for(seed_urls(), 0),
{
    let a = "https://example.com";
    let b = "https://rust-lang.org";
    proof {
        reveal_strlit("https://example.com");
        reveal_strlit("https://rust-lang.org");
    }
    assert(a@ =~= seed_urls()[0]);
    assert(b@ =~= seed_urls()[1]);
    let mut r: Vec<CrawlJob> = Vec::new();
    r.push(CrawlJob { url: String::from_str(a), depth: 0 });
    r.push(CrawlJob { url: String::from_str(b), depth: 0 });
    assert(jobs_view(r@) =~= jobs_for(seed_urls(), 0));
    r
}

} // verus!
