use webcrawler::urls::{extract_domain, join_url, parse_url, url_path, UrlError};

#[test]
fn domain_is_the_host() {
    assert_eq!(extract_domain("https://Example.COM:8080/a/b?c"), "example.com");
    assert_eq!(extract_domain("not a url"), "not a url");
    assert_eq!(extract_domain("mailto:a@b.c"), "mailto:a@b.c");
}

#[test]
fn parse_reads_parts() {
    let u = parse_url("https://example.com/a/../b?x#y").unwrap();
    assert_eq!(u.href, "https://example.com/b?x#y");
    assert_eq!(u.scheme, "https");
    assert_eq!(u.host, Some("example.com".to_string()));
    assert_eq!(u.path, "/b");
    assert_eq!(parse_url("/relative"), Err(UrlError::RelativeUrlWithoutBase));
    assert_eq!(parse_url("http://host:99999/"), Err(UrlError::InvalidPort));
}

#[test]
fn join_resolves_relative() {
    let u = join_url("https://example.com/dir/page", "../up").unwrap();
    assert_eq!(u.href, "https://example.com/up");
    assert!(join_url("nonsense", "x").is_err());
}

#[test]
fn path_or_empty() {
    assert_eq!(url_path("https://example.com"), "/");
    assert_eq!(url_path("garbage"), "");
}

#[test]
fn errors_name_the_failure() {
    assert_eq!(parse_url("http://"), Err(UrlError::EmptyHost));
    assert_eq!(parse_url("http://[::1/"), Err(UrlError::InvalidIpv6Address));
    assert_eq!(join_url("/relative", "x"), Err(UrlError::RelativeUrlWithoutBase));
    assert_eq!(join_url("https://example.com/", "http://[::1/"), Err(UrlError::InvalidIpv6Address));
}
