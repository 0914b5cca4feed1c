use webcrawler::html::{
    extract_body_text, extract_description, extract_text, extract_title, extract_url, parse,
};
use webcrawler::urls::UrlError;

const PAGE: &str = "<html><head><title> Hello World </title><meta name=\"description\" content=\" A page \"></head><body><nav>Menu</nav><h1>Title</h1><p>Some <b>bold</b> text.</p><script>var x = 1;</script><footer>foot</footer></body></html>";

const LINKS: &str = "<html><body>\
<a href=\"/about\">a</a>\
<a href=\"sub/x\">b</a>\
<a href=\"https://other.org/p?q=1\">c</a>\
<a href=\"javascript:void(0)\">d</a>\
<a href=\"mailto:a@b.c\">e</a>\
<a href=\"#top\">f</a>\
<a href=\"ftp://files.example.com/f\">g</a>\
<a>no href</a>\
<a href=\"//cdn.example.com/lib.js\">h</a>\
</body></html>";

#[test]
fn links_are_resolved_and_filtered() {
    let links = extract_url(LINKS, "https://example.com/dir/page.html").unwrap();
    assert_eq!(
        links,
        vec![
            "https://example.com/about".to_string(),
            "https://example.com/dir/sub/x".to_string(),
            "https://other.org/p?q=1".to_string(),
            "https://cdn.example.com/lib.js".to_string(),
        ]
    );
}

#[test]
fn bad_base_url_is_an_error() {
    assert_eq!(extract_url(LINKS, "not a url"), Err(UrlError::RelativeUrlWithoutBase));
    assert_eq!(extract_url(LINKS, "http://"), Err(UrlError::EmptyHost));
}

#[test]
fn page_without_links() {
    assert_eq!(extract_url("<p>nothing</p>", "https://e.com/").unwrap(), Vec::<String>::new());
}

#[test]
fn title_is_trimmed() {
    assert_eq!(extract_title(PAGE), Some("Hello World".to_string()));
    assert_eq!(extract_title("<html><head><title>   </title></head></html>"), None);
    assert_eq!(extract_title("<p>no title</p>"), None);
}

#[test]
fn description_is_trimmed() {
    assert_eq!(extract_description(PAGE), Some("A page".to_string()));
    assert_eq!(extract_description("<meta name=\"description\">"), None);
    assert_eq!(extract_description("<meta name=\"description\" content=\"  \">"), None);
    assert_eq!(extract_description("<p>x</p>"), None);
}

#[test]
fn body_text_skips_noise() {
    assert_eq!(extract_body_text(PAGE), "Title Some bold text.");
    let nested = "<body><header><p>top <span>x</span></p></header><div>kept<style>p{}</style> too</div></body>";
    assert_eq!(extract_body_text(nested), "kept too");
}

#[test]
fn whole_text_joins_all_text_nodes() {
    assert_eq!(
        extract_text("<html><head><title>T</title></head><body><p>a</p><p>b</p></body></html>"),
        "T a b"
    );
}

#[test]
fn parse_gathers_everything() {
    let p = parse(PAGE, "https://example.com/");
    assert_eq!(p.url, "https://example.com/");
    assert_eq!(p.title, Some("Hello World".to_string()));
    assert_eq!(p.description, Some("A page".to_string()));
    assert_eq!(p.body_text, "Title Some bold text.");
    assert_eq!(p.word_count, 4);
    assert!(p.links.is_empty());
    let q = parse(LINKS, "relative/only");
    assert!(q.links.is_empty());
    let r = parse(LINKS, "https://example.com/");
    assert_eq!(r.links.len(), 4);
}

#[test]
fn first_title_and_description_are_used() {
    let page = "<html><head><title> One </title><title>Two</title>\
<meta name=\"description\" content=\"first\"><meta name=\"description\" content=\"second\">\
</head><body><p>x</p></body></html>";
    assert_eq!(extract_title(page), Some("One".to_string()));
    assert_eq!(extract_description(page), Some("first".to_string()));
    assert_eq!(extract_body_text(page), "x");
}

#[test]
fn page_without_body_element_text() {
    assert_eq!(extract_body_text(""), "");
    assert_eq!(extract_text(""), "");
    assert_eq!(extract_body_text("<p> a </p><script>b</script>"), "a");
}
