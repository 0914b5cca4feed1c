use std::path::Path;
use webcrawler::storage::{
    crawl_delay_attr, crawl_delay_from_attr, digest_body, file_stem, html_file_name, html_key,
    parsed_file_name, parsed_key, storage_hash,
};

#[test]
fn keys_follow_the_s3_layout() {
    assert_eq!(html_key("abc"), "html/abc.html");
    assert_eq!(parsed_key("abc"), "parsed/abc.json");
    assert_eq!(html_file_name("abc"), "abc.html");
    assert_eq!(parsed_file_name("abc"), "abc.json");
}

#[test]
fn file_stem_agrees_with_path() {
    let cases = [
        "html/abc.html", "a/b/", "a/..", ".bashrc", "a.tar.gz", "/", "", "a/.", ".", "..",
        "foo.", "..a", "x//y.z", "./a.b", "/a/b.c/", "a/./b.d", "dir/.hidden.txt",
    ];
    for c in cases {
        let expected = Path::new(c).file_stem().and_then(|s| s.to_str()).map(|s| s.to_string());
        assert_eq!(file_stem(c), expected, "path {:?}", c);
    }
}

#[test]
fn hash_of_storage_path() {
    assert_eq!(storage_hash("html/abc123.html", "https://e.com"), "abc123");
    assert_eq!(storage_hash("", "https://e.com"), "https://e.com");
}

#[test]
fn digest_hashes_and_decodes() {
    let d = digest_body(b"");
    assert_eq!(d.hash, "af1349b9f5f9a1a6a0404dea36dcc9499bcb25c9adc112b7cc9a93cae41f3262");
    assert_eq!(d.html, "");
    let d = digest_body(b"<html>test</html>");
    assert_eq!(d.html, "<html>test</html>");
    assert_eq!(d.hash, blake3::hash(b"<html>test</html>").to_hex().to_string());
    assert_eq!(d.hash.len(), 64);
    let d = digest_body(&[0x66, 0xff]);
    assert_eq!(d.html, "f\u{FFFD}");
}

#[test]
fn page_hash_round_trips_through_key() {
    let d = digest_body(b"<p>hi</p>");
    assert_eq!(storage_hash(&html_key(&d.hash), "fallback"), d.hash);
}

#[test]
fn crawl_delay_attribute_round_trip() {
    assert_eq!(crawl_delay_attr(Some(5)), "5");
    assert_eq!(crawl_delay_attr(None), "0");
    assert_eq!(crawl_delay_from_attr(Some(&crawl_delay_attr(Some(5)))), Some(5));
    assert_eq!(crawl_delay_from_attr(Some(&crawl_delay_attr(None))), None);
    assert_eq!(crawl_delay_from_attr(Some(&crawl_delay_attr(Some(0)))), None);
    assert_eq!(crawl_delay_from_attr(Some("abc")), None);
    assert_eq!(crawl_delay_from_attr(None), None);
}
