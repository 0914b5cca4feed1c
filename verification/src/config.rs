use vstd::prelude::*;
use vstd::string::StringExecFns;

verus! {

/// The crawler's settings, read from the environment (or a `.env` file);
/// every setting but the queue URLs has a default.
#[derive(Clone, Debug, PartialEq, Eq)]
pub struct Settings {
    /// HTTP connect timeout, in seconds.
    pub time_out_duration: u64,
    /// Largest response body accepted, in bytes.
    pub maximum_allowed_size: u64,
    pub user_agent: String,
    pub storage_base_dir: String,
    /// Requests per second per domain, unless robots.txt sets a crawl delay.
    pub req_per_second: u8,
    pub redis_url: String,
    pub s3_bucket: String,
    pub aws_region: String,
    pub frontier_queue_url: String,
    pub parsing_queue_url: String,
    pub frontier_dlq_url: String,
}

/// The name the crawler goes by in its HTTP `User-Agent` header.
pub open spec fn default_user_agent_spec() -> Seq<char> {
    seq!['m', 'y', '-', 'c', 'r', 'a', 'w', 'l', 'e', 'r', '/', '0', '.', '1']
}

pub open spec fn default_storage_dir_spec() -> Seq<char> {
    seq!['.', '/', 'c', 'r', 'a', 'w', 'l', '-', 'd', 'a', 't', 'a']
}

pub open spec fn default_redis_url_spec() -> Seq<char> {
    seq![
        'r', 'e', 'd', 'i', 's', ':', '/', '/', '1', '2', '7', '.', '0', '.', '0', '.', '1', ':',
        '6', '3', '7', '9',
    ]
}

pub open spec fn default_s3_bucket_spec() -> Seq<char> {
    seq![
        'w', 'e', 'b', 'c', 'r', 'a', 'w', 'l', 'e', 'r', '-', 'y', 'a', 's', 'h', '-', 't', 'e',
        's', 't',
    ]
}

pub open spec fn default_aws_region_spec() -> Seq<char> {
    seq!['a', 'p', '-', 's', 'o', 'u', 't', 'h', '-', '1']
}

/// Default HTTP timeout: 15 seconds.
pub fn default_timeout_secs() -> (r: u64)
    ensures
        r == 15,
{
    15
}

/// Default largest body: 2 MB.
pub fn default_allowed_size() -> (r: u64)
    ensures
        r == 2000000,
{
    2000000
}

/// Default user agent: `my-crawler/0.1`.
pub fn default_user_agent() -> (r: String)
    ensures
        r@ == default_user_agent_spec(),
{
    let s = "my-crawler/0.1";
    proof {
        reveal_strlit("my-crawler/0.1");
    }
    let r = String::from_str(s);
    assert(r@ =~= default_user_agent_spec());
    r
}

/// Default storage directory: `./crawl-data`.
pub fn default_storage_dir() -> (r: String)
    ensures
        r@ == default_storage_dir_spec(),
{
    let s = "./crawl-data";
    proof {
        reveal_strlit("./crawl-data");
    }
    let r = String::from_str(s);
    assert(r@ =~= default_storage_dir_spec());
    r
}

/// Default rate: one request per second per domain.
pub fn default_req_per_second() -> (r: u8)
    ensures
        r == 1,
{
    1
}

/// Default Redis: `redis://127.0.0.1:6379`.
pub fn default_redis_url() -> (r: String)
    ensures
        r@ == default_redis_url_spec(),
{
    let s = "redis://127.0.0.1:6379";
    proof {
        reveal_strlit("redis://127.0.0.1:6379");
    }
    let r = String::from_str(s);
    assert(r@ =~= default_redis_url_spec());
    r
}

/// Default S3 bucket: `webcrawler-yash-test`.
pub fn default_s3_bucket() -> (r: String)
    ensures
        r@ == default_s3_bucket_spec(),
{
    let s = "webcrawler-yash-test";
    proof {
        reveal_strlit("webcrawler-yash-test");
    }
    let r = String::from_str(s);
    assert(r@ =~= default_s3_bucket_spec());
    r
}

/// Default AWS region: `ap-south-1`.
pub fn default_aws_region() -> (r: String)
    ensures
        r@ == default_aws_region_spec(),
{
    let s = "ap-south-1";
    proof {
        reveal_strlit("ap-south-1");
    }
    let r = String::from_str(s);
    assert(r@ =~= default_aws_region_spec());
    r
}

/// The `Duration` of `secs` whole seconds (`Duration::from_secs`).
pub uninterp spec fn duration_of_secs(secs: u64) -> core::time::Duration;

/// `core::time::Duration::from_secs(secs)`: the duration of `secs` whole
/// seconds, named by `duration_of_secs`.
#[verifier::external_body]
fn duration_from_secs(secs: u64) -> (r: core::time::Duration)
    ensures
        r == duration_of_secs(secs),
{
    core::time::Duration::from_secs(secs)
}

impl Settings {
    /// The HTTP timeout as a `Duration`.
    pub fn duration(&self) -> (r: core::time::Duration)
        ensures
            r == duration_of_secs(self.time_out_duration),
    {
        duration_from_secs(self.time_out_duration)
    }
}

} // verus!
