use std::time::Duration;
use webcrawler::config::{
    default_allowed_size, default_aws_region, default_redis_url, default_req_per_second,
    default_s3_bucket, default_storage_dir, default_timeout_secs, default_user_agent, Settings,
};

#[test]
fn defaults_match_the_documentation() {
    assert_eq!(default_timeout_secs(), 15);
    assert_eq!(default_allowed_size(), 2_000_000);
    assert_eq!(default_user_agent(), "my-crawler/0.1");
    assert_eq!(default_storage_dir(), "./crawl-data");
    assert_eq!(default_req_per_second(), 1);
    assert_eq!(default_redis_url(), "redis://127.0.0.1:6379");
    assert_eq!(default_s3_bucket(), "webcrawler-yash-test");
    assert_eq!(default_aws_region(), "ap-south-1");
}

#[test]
fn duration_is_the_timeout_in_seconds() {
    let s = Settings {
        time_out_duration: 15,
        maximum_allowed_size: 2_000_000,
        user_agent: default_user_agent(),
        storage_base_dir: default_storage_dir(),
        req_per_second: 1,
        redis_url: default_redis_url(),
        s3_bucket: default_s3_bucket(),
        aws_region: default_aws_region(),
        frontier_queue_url: "q1".to_string(),
        parsing_queue_url: "q2".to_string(),
        frontier_dlq_url: "q3".to_string(),
    };
    assert_eq!(s.duration(), Duration::from_secs(15));
    assert_eq!(s.duration().as_secs(), 15);
}
