use vstd::prelude::*;

use crate::models::{DomainRecord, DomainRecordView, Timestamp};
use crate::storage::{
    crawl_delay_attr, crawl_delay_attr_spec, crawl_delay_from_attr, crawl_delay_from_attr_spec,
    law_crawl_delay_round_trip,
};

verus! {

/// The first second of the year 0 (`0000-01-01T00:00:00Z`), in seconds
/// since the Unix epoch.
pub const RFC3339_MIN_SECS: i64 = -62167219200;

/// The last second of the year 9999 (`9999-12-31T23:59:59Z`), in seconds
/// since the Unix epoch.
pub const RFC3339_MAX_SECS: i64 = 253402300799;

/// Whether chrono writes `t` in RFC 3339 with a four-digit year and reads it
/// back exactly: a time of the years 0 to 9999, not inside a leap second.
pub open spec fn plain_time(t: Timestamp) -> bool {
    RFC3339_MIN_SECS <= t.secs <= RFC3339_MAX_SECS && t.nanos < 1_000_000_000
}

/// What `serde_json::from_str::<Vec<String>>(s)` gives: the strings of the
/// JSON array `s`, or `None` when `s` is not a JSON array of strings.
pub uninterp spec fn json_string_list(s: Seq<char>) -> Option<Seq<Seq<char>>>;

/// What `serde_json::to_string(v)` gives for a list of strings: the JSON
/// array of them (`None` when serialization fails).
pub uninterp spec fn string_list_json(v: Seq<Seq<char>>) -> Option<Seq<char>>;

/// What `s.parse::<DateTime<Utc>>()` (chrono's relaxed RFC 3339) read as
/// `timestamp()` and `timestamp_subsec_nanos()` gives: the instant `s`
/// names, or `None` when `s` does not parse.
pub uninterp spec fn rfc3339_time(s: Seq<char>) -> Option<(i64, u32)>;

/// What `DateTime::<Utc>::from_timestamp(secs, nanos)` followed by
/// `to_rfc3339()` gives: the instant written in RFC 3339, or `None` when
/// chrono cannot represent it.
pub uninterp spec fn rfc3339_of_time(secs: i64, nanos: u32) -> Option<Seq<char>>;

/// An instant from the pair that `rfc3339_time` gives.
pub open spec fn time_of(p: (i64, u32)) -> Timestamp {
    Timestamp { secs: p.0, nanos: p.1 }
}

/// `serde_json::from_str::<Vec<String>>(s).ok()`.
#[verifier::external_body]
fn parse_string_list(s: &str) -> (r: Option<Vec<String>>)
    ensures
        r.deep_view() == json_string_list(s@),
{
    serde_json::from_str::<Vec<String>>(s).ok()
}

/// `serde_json::to_string(v).ok()`. serde_json fails only where a
/// `Serialize` impl fails or a map has keys that are not strings, neither of
/// which a list of strings has; and `serde_json::from_str` reads the array
/// it writes back as the same strings.
#[verifier::external_body]
fn write_string_list(v: &Vec<String>) -> (r: Option<String>)
    ensures
        r.deep_view() == string_list_json(v.deep_view()),
        r is Some,
        r matches Some(s) ==> json_string_list(s@) == Some(v.deep_view()),
{
    serde_json::to_string(v).ok()
}

/// `s.parse::<DateTime<Utc>>()`, read as `timestamp()` and
/// `timestamp_subsec_nanos()`.
#[verifier::external_body]
fn parse_rfc3339(s: &str) -> (r: Option<(i64, u32)>)
    ensures
        r == rfc3339_time(s@),
{
    s.parse::<chrono::DateTime<chrono::Utc>>().ok().map(|d| (d.timestamp(), d.timestamp_subsec_nanos()))
}

/// `DateTime::<Utc>::from_timestamp(secs, nanos)`, written by `to_rfc3339()`.
/// An instant of the years 0 to 9999 with fewer than 10^9 nanoseconds is
/// representable, and chrono writes it with a four-digit year and as many
/// fraction digits as it needs (none, 3, 6 or 9), which its `FromStr` reads
/// back as the same instant. Nothing is stated of other instants.
#[verifier::external_body]
fn write_rfc3339(secs: i64, nanos: u32) -> (r: Option<String>)
    ensures
        r.deep_view() == rfc3339_of_time(secs, nanos),
        plain_time(Timestamp { secs, nanos }) ==> r is Some,
        r matches Some(s) ==> (plain_time(Timestamp { secs, nanos }) ==> rfc3339_time(s@) == Some(
            (secs, nanos),
        )),
{
    chrono::DateTime::<chrono::Utc>::from_timestamp(secs, nanos).map(|d| d.to_rfc3339())
}

/// An instant in RFC 3339 (as stored for the last crawl of a page).
pub fn timestamp_text(t: Timestamp) -> (r: Option<String>)
    ensures
        r.deep_view() == rfc3339_of_time(t.secs, t.nanos),
        plain_time(t) ==> r is Some,
{
    write_rfc3339(t.secs, t.nanos)
}

/// A domain's robots record as it is stored: the attributes of its item in
/// the domains table, all strings.
#[derive(Clone, Debug, PartialEq, Eq)]
pub struct DomainItem {
    pub domain: String,
    /// The disallowed prefixes, a JSON array of strings.
    pub disallow: String,
    /// The crawl delay in seconds, a decimal numeral, `0` for none.
    pub crawl_delay: String,
    /// When robots.txt was fetched, in RFC 3339.
    pub fetched_at: String,
}

/// The record read back from the attributes of a stored item: the
/// disallowed prefixes decoded from JSON (none when that fails), the crawl
/// delay read as a positive numeral, and the fetch time parsed, which must
/// succeed.
pub open spec fn decoded_domain_record(
    domain: Seq<char>,
    disallow: Seq<char>,
    crawl_delay: Option<Seq<char>>,
    fetched_at: Seq<char>,
) -> Option<DomainRecordView> {
    match rfc3339_time(fetched_at) {
        Some(t) => Some(
            DomainRecordView {
                domain,
                disallow: match json_string_list(disallow) {
                    Some(v) => v,
                    None => seq![],
                },
                crawl_delay: crawl_delay_from_attr_spec(crawl_delay),
                fetched_at: time_of(t),
            },
        ),
        None => None,
    }
}

/// The record stored as the item with these attributes (`crawl_delay`
/// missing when the item has none); `None` when `fetched_at` is not a time.
pub fn domain_record_from_item(
    domain: &str,
    disallow: &str,
    crawl_delay: Option<&str>,
    fetched_at: &str,
) -> (r: Option<DomainRecord>)
    ensures
        match r {
            Some(rec) => decoded_domain_record(
                domain@,
                disallow@,
                match crawl_delay {
                    Some(n) => Some(n@),
                    None => None,
                },
                fetched_at@,
            ) == Some(rec@),
            None => rfc3339_time(fetched_at@) is None,
        },
{
    let fetched = match parse_rfc3339(fetched_at) {
        Some((secs, nanos)) => Timestamp { secs, nanos },
        None => {
            return None;
        },
    };
    let rules = match parse_string_list(disallow) {
        Some(v) => v,
        None => {
            let v: Vec<String> = Vec::new();
            assert(v.deep_view() =~= Seq::<Seq<char>>::empty());
            v
        },
    };
    Some(
        DomainRecord {
            domain: domain.to_string(),
            disallow: rules,
            crawl_delay: crawl_delay_from_attr(crawl_delay),
            fetched_at: fetched,
        },
    )
}

/// Whether the stored item `it` holds the attributes written for `rec`.
pub open spec fn is_item_of(it: DomainItem, rec: DomainRecordView) -> bool {
    &&& it.domain@ == rec.domain
    &&& string_list_json(rec.disallow) == Some(it.disallow@)
    &&& it.crawl_delay@ == crawl_delay_attr_spec(rec.crawl_delay)
    &&& rfc3339_of_time(rec.fetched_at.secs, rec.fetched_at.nanos) == Some(it.fetched_at@)
}

/// The crawl delay as it reads back once stored: a zero delay is none.
pub open spec fn stored_delay(delay: Option<u64>) -> Option<u64> {
    match delay {
        Some(d) => if d > 0 {
            Some(d)
        } else {
            None
        },
        None => None,
    }
}

/// The record as it reads back once stored: the same, except that a zero
/// crawl delay is none.
pub open spec fn stored_record(rec: DomainRecordView) -> DomainRecordView {
    DomainRecordView { crawl_delay: stored_delay(rec.crawl_delay), ..rec }
}

/// The item that stores `record`; `None` when its fetch time cannot be
/// written. An item written for a record of the years 0 to 9999 reads back
/// as that record, a zero crawl delay as none.
pub fn domain_item(record: &DomainRecord) -> (r: Option<DomainItem>)
    ensures
        r is Some <==> rfc3339_of_time(record.fetched_at.secs, record.fetched_at.nanos) is Some,
        plain_time(record.fetched_at) ==> r is Some,
        r matches Some(it) ==> is_item_of(it, record@),
        r matches Some(it) ==> (plain_time(record.fetched_at) ==> decoded_domain_record(
            it.domain@,
            it.disallow@,
            Some(it.crawl_delay@),
            it.fetched_at@,
        ) == Some(stored_record(record@))),
{
    let fetched_at = match write_rfc3339(record.fetched_at.secs, record.fetched_at.nanos) {
        Some(t) => t,
        None => {
            return None;
        },
    };
    let disallow = match write_string_list(&record.disallow) {
        Some(j) => j,
        None => {
            return None;
        },
    };
    let it = DomainItem {
        domain: record.domain.clone(),
        disallow,
        crawl_delay: crawl_delay_attr(record.crawl_delay),
        fetched_at,
    };
    proof {
        law_crawl_delay_round_trip(record.crawl_delay);
    }
    Some(it)
}

} // verus!
