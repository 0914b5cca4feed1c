use vstd::prelude::*;
use vstd::string::StringExecFns;

use crate::text::{
    chars_of, decimal_spec, parse_u64, parse_u64_spec, string_of_range, u64_to_decimal,
};

verus! {

/// The lowercase hex digits.
pub open spec fn is_lower_hex(c: char) -> bool {
    ('0' <= c && c <= '9') || ('a' <= c && c <= 'f')
}

/// `blake3::hash(data)` written as hex (`Hash::to_hex`).
pub uninterp spec fn blake3_hex(data: Seq<u8>) -> Seq<char>;

/// `blake3::hash(data).to_hex()`: the BLAKE3 digest of `data` (32 bytes)
/// in lowercase hex, so 64 characters from `0-9a-f`, as `Hash::to_hex`
/// writes them.
#[verifier::external_body]
fn blake3_hex_of(data: &[u8]) -> (r: String)
    ensures
        r@ == blake3_hex(data@),
        r@.len() == 64,
        forall|i: int| 0 <= i < r@.len() ==> is_lower_hex(#[trigger] r@[i]),
{
    blake3::hash(data).to_hex().to_string()
}

/// What `String::from_utf8_lossy(bytes)` gives.
pub uninterp spec fn utf8_lossy(bytes: Seq<u8>) -> Seq<char>;

/// `String::from_utf8_lossy(bytes)`: valid UTF-8 is decoded as it stands
/// (invalid sequences become U+FFFD; that case is not stated further).
#[verifier::external_body]
fn decode_lossy(bytes: &[u8]) -> (r: String)
    ensures
        r@ == utf8_lossy(bytes@),
        vstd::utf8::valid_utf8(bytes@) ==> r@ == vstd::utf8::decode_utf8(bytes@),
{
    String::from_utf8_lossy(bytes).into_owned()
}

/// The text of a stored page: its bytes decoded as UTF-8, invalid sequences
/// replaced by U+FFFD.
pub fn decode_text(bytes: &[u8]) -> (r: String)
    ensures
        r@ == utf8_lossy(bytes@),
        vstd::utf8::valid_utf8(bytes@) ==> r@ == vstd::utf8::decode_utf8(bytes@),
{
    decode_lossy(bytes)
}

/// A downloaded page: its text and the content hash it is stored under.
#[derive(Clone, Debug, PartialEq, Eq)]
pub struct PageDigest {
    pub html: String,
    pub hash: String,
}

/// The text (lossily decoded UTF-8) and BLAKE3 hex hash of a response body.
pub fn digest_body(body: &[u8]) -> (r: PageDigest)
    ensures
        r.html@ == utf8_lossy(body@),
        vstd::utf8::valid_utf8(body@) ==> r.html@ == vstd::utf8::decode_utf8(body@),
        r.hash@ == blake3_hex(body@),
        r.hash@.len() == 64,
        forall|i: int| 0 <= i < r.hash@.len() ==> is_lower_hex(#[trigger] r.hash@[i]),
{
    let hash = blake3_hex_of(body);
    let html = decode_lossy(body);
    PageDigest { html, hash }
}

/// The S3 key of the raw HTML of the page with content hash `hash`.
pub open spec fn html_key_spec(hash: Seq<char>) -> Seq<char> {
    seq!['h', 't', 'm', 'l', '/'] + hash + seq!['.', 'h', 't', 'm', 'l']
}

/// The S3 key of the parsed record of the page with content hash `hash`.
pub open spec fn parsed_key_spec(hash: Seq<char>) -> Seq<char> {
    seq!['p', 'a', 'r', 's', 'e', 'd', '/'] + hash + seq!['.', 'j', 's', 'o', 'n']
}

/// `format!("html/{hash}.html")`.
pub fn html_key(hash: &str) -> (r: String)
    ensures
        r@ == html_key_spec(hash@),
{
    let head = "html/";
    let tail = ".html";
    proof {
        reveal_strlit("html/");
        reveal_strlit(".html");
    }
    let mut r = String::from_str(head);
    r.append(hash);
    r.append(tail);
    r
}

/// `format!("parsed/{hash}.json")`.
pub fn parsed_key(hash: &str) -> (r: String)
    ensures
        r@ == parsed_key_spec(hash@),
{
    let head = "parsed/";
    let tail = ".json";
    proof {
        reveal_strlit("parsed/");
        reveal_strlit(".json");
    }
    let mut r = String::from_str(head);
    r.append(hash);
    r.append(tail);
    r
}

/// The local file name of the raw HTML of the page with content hash `hash`.
pub open spec fn html_file_name_spec(hash: Seq<char>) -> Seq<char> {
    hash + seq!['.', 'h', 't', 'm', 'l']
}

/// The local file name of the parsed record of the page with content hash `hash`.
pub open spec fn parsed_file_name_spec(hash: Seq<char>) -> Seq<char> {
    hash + seq!['.', 'j', 's', 'o', 'n']
}

/// `format!("{hash}.html")`.
pub fn html_file_name(hash: &str) -> (r: String)
    ensures
        r@ == html_file_name_spec(hash@),
{
    let tail = ".html";
    proof {
        reveal_strlit(".html");
    }
    let mut r = String::from_str(hash);
    r.append(tail);
    r
}

/// `format!("{hash}.json")`.
pub fn parsed_file_name(hash: &str) -> (r: String)
    ensures
        r@ == parsed_file_name_spec(hash@),
{
    let tail = ".json";
    proof {
        reveal_strlit(".json");
    }
    let mut r = String::from_str(hash);
    r.append(tail);
    r
}


/// Index of the last `c` in `s`, or `-1` when there is none.
pub open spec fn last_index_of(s: Seq<char>, c: char) -> int
    decreases s.len(),
{
    if s.len() == 0 {
        -1
    } else if s.last() == c {
        s.len() - 1
    } else {
        last_index_of(s.drop_last(), c)
    }
}

pub proof fn lemma_last_index_bounds(s: Seq<char>, c: char)
    ensures
        -1 <= last_index_of(s, c) < s.len(),
        last_index_of(s, c) >= 0 ==> s[last_index_of(s, c)] == c,
        forall|i: int| last_index_of(s, c) < i < s.len() ==> #[trigger] s[i] != c,
    decreases s.len(),
{
    if s.len() > 0 && s.last() != c {
        lemma_last_index_bounds(s.drop_last(), c);
        assert forall|i: int| last_index_of(s, c) < i < s.len() implies #[trigger] s[i] != c by {
            if i < s.len() - 1 {
                assert(s[i] == s.drop_last()[i]);
            }
        }
    }
}

proof fn lemma_last_index_is(s: Seq<char>, c: char, k: int)
    requires
        -1 <= k < s.len(),
        k >= 0 ==> s[k] == c,
        forall|i: int| k < i < s.len() ==> #[trigger] s[i] != c,
    ensures
        last_index_of(s, c) == k,
    decreases s.len(),
{
    if s.len() > 0 && k < s.len() - 1 {
        let t = s.drop_last();
        assert forall|i: int| k < i < t.len() implies #[trigger] t[i] != c by {
            assert(t[i] == s[i]);
        }
        if k >= 0 {
            assert(t[k] == s[k]);
        }
        lemma_last_index_is(t, c, k);
    }
}

/// The last component of a `/`-separated path that is a name: the last
/// segment that is neither empty nor `.`; empty when there is none.
pub open spec fn last_name(s: Seq<char>) -> Seq<char>
    decreases s.len(),
{
    let i = last_index_of(s, '/');
    let seg = s.skip(i + 1);
    if seg.len() > 0 && seg != seq!['.'] {
        seg
    } else if i < 0 {
        seq![]
    } else {
        proof {
            lemma_last_index_bounds(s, '/');
        }
        last_name(s.take(i))
    }
}

/// `Path::new(path).file_stem()` for a Unix path: the file name (the last
/// component, when it is a name other than `..`) without its extension (the
/// part from the last `.`, unless that `.` starts the name).
pub open spec fn file_stem_spec(path: Seq<char>) -> Option<Seq<char>> {
    let name = last_name(path);
    if name.len() == 0 || name == seq!['.', '.'] {
        None
    } else {
        let d = last_index_of(name, '.');
        if d <= 0 {
            Some(name)
        } else {
            Some(name.take(d))
        }
    }
}

/// Index of the last `c` in `v[0..hi]`, if any.
fn last_index_in(v: &Vec<char>, hi: usize, c: char) -> (r: Option<usize>)
    requires
        hi <= v@.len(),
    ensures
        match r {
            Some(k) => last_index_of(v@.take(hi as int), c) == k,
            None => last_index_of(v@.take(hi as int), c) == -1,
        },
{
    let mut j = hi;
    while j > 0 && v[j - 1] != c
        invariant
            j <= hi <= v@.len(),
            forall|i: int| j <= i < hi ==> #[trigger] v@[i] != c,
        decreases j,
    {
        j = j - 1;
    }
    proof {
        let s = v@.take(hi as int);
        assert forall|i: int| j - 1 < i < s.len() implies #[trigger] s[i] != c by {
            assert(s[i] == v@[i]);
        }
        if j > 0 {
            assert(s[j - 1] == v@[j - 1]);
        }
        lemma_last_index_is(s, c, j - 1);
    }
    if j == 0 {
        None
    } else {
        Some(j - 1)
    }
}

/// `Path::new(path).file_stem()` (Unix paths).
pub fn file_stem(path: &str) -> (r: Option<String>)
    ensures
        r.deep_view() == file_stem_spec(path@),
{
    let v = chars_of(path);
    let mut hi = v.len();
    let mut lo: usize = 0;
    assert(v@.take(v@.len() as int) == v@);
    loop
        invariant
            hi <= v@.len(),
            v@ == path@,
            last_name(v@) == last_name(v@.take(hi as int)),
        ensures
            lo < hi <= v@.len(),
            last_name(v@) == v@.subrange(lo as int, hi as int),
        decreases hi,
    {
        let found_slash = last_index_in(&v, hi, '/');
        let ghost s = v@.take(hi as int);
        let ghost i = last_index_of(s, '/');
        proof {
            lemma_last_index_bounds(s, '/');
        }
        let start = match found_slash {
            Some(k) => k + 1,
            None => 0,
        };
        assert(start == i + 1);
        assert(s.skip(i + 1) == v@.subrange(start as int, hi as int));
        let seg_len = hi - start;
        let is_dot = seg_len == 1 && v[start] == '.';
        if seg_len > 0 && !is_dot {
            if seg_len == 1 {
                assert(v@.subrange(start as int, hi as int)[0] == v@[start as int]);
            }
            assert(v@.subrange(start as int, hi as int) != seq!['.']);
            lo = start;
            break;
        } else {
            proof {
                if seg_len == 1 {
                    assert(v@.subrange(start as int, hi as int) =~= seq!['.']);
                }
            }
            match found_slash {
                None => {
                    assert(last_name(s).len() == 0);
                    return None;
                },
                Some(k) => {
                    assert(s.take(i) == v@.take(k as int));
                    hi = k;
                },
            }
        }
    }
    let ghost name = v@.subrange(lo as int, hi as int);
    if hi - lo == 2 && v[lo] == '.' && v[lo + 1] == '.' {
        assert(name =~= seq!['.', '.']);
        return None;
    }
    assert(name != seq!['.', '.']);
    let name_v: Vec<char> = {
        let mut w: Vec<char> = Vec::new();
        let mut k = lo;
        while k < hi
            invariant
                lo <= k <= hi <= v@.len(),
                w@ == v@.subrange(lo as int, k as int),
            decreases hi - k,
        {
            w.push(v[k]);
            assert(v@.subrange(lo as int, k + 1) == v@.subrange(lo as int, k as int).push(v@[k as int]));
            k = k + 1;
        }
        w
    };
    assert(name_v@.take(name_v@.len() as int) == name_v@);
    proof {
        lemma_last_index_bounds(name_v@, '.');
    }
    match last_index_in(&name_v, name_v.len(), '.') {
        Some(d) if d > 0 => {
            assert(name_v@.subrange(0, d as int) == name_v@.take(d as int));
            Some(string_of_range(&name_v, 0, d))
        },
        _ => {
            assert(name_v@.subrange(0, name_v@.len() as int) == name_v@);
            Some(string_of_range(&name_v, 0, name_v.len()))
        },
    }
}


/// The content hash that a parse job's storage path names: the file stem of
/// the path, or `fallback` (the page URL) when it has none.
pub open spec fn hash_of_storage_path(path: Seq<char>, fallback: Seq<char>) -> Seq<char> {
    match file_stem_spec(path) {
        Some(stem) => stem,
        None => fallback,
    }
}

/// `Path::new(path).file_stem()`, or `fallback` when there is none.
pub fn storage_hash(path: &str, fallback: &str) -> (r: String)
    ensures
        r@ == hash_of_storage_path(path@, fallback@),
{
    match file_stem(path) {
        Some(stem) => stem,
        None => fallback.to_string(),
    }
}

/// The stem of the HTML key of a non-empty hash without `/` is that hash:
/// the parsing side reads back the hash under which the crawl side stored
/// the page.
pub proof fn law_stem_of_html_key(h: Seq<char>)
    requires
        h.len() > 0,
        forall|i: int| 0 <= i < h.len() ==> #[trigger] h[i] != '/',
    ensures
        file_stem_spec(html_key_spec(h)) == Some(h),
{
    let s = html_key_spec(h);
    assert forall|i: int| 4 < i < s.len() implies #[trigger] s[i] != '/' by {
        if i < 5 + h.len() {
            assert(s[i] == h[i - 5]);
        }
    }
    lemma_last_index_is(s, '/', 4);
    let name = s.skip(5);
    assert(name =~= h + seq!['.', 'h', 't', 'm', 'l']);
    assert(name.len() > 1);
    if name == seq!['.'] {
        assert(name.len() == 1);
    }
    assert(last_name(s) == name);
    assert(name != seq!['.', '.']) by {
        assert(name.len() >= 6);
    }
    assert forall|i: int| h.len() < i < name.len() implies #[trigger] name[i] != '.' by {
    }
    lemma_last_index_is(name, '.', h.len() as int);
    assert(name.take(h.len() as int) =~= h);
}

/// A page is found again under its hash: for any hash written as 64
/// lowercase hex digits (as `digest_body` gives it), the parsing side
/// derives from the page's storage key the same hash.
pub proof fn law_page_hash_round_trip(h: Seq<char>, url: Seq<char>)
    requires
        h.len() == 64,
        forall|i: int| 0 <= i < h.len() ==> is_lower_hex(#[trigger] h[i]),
    ensures
        hash_of_storage_path(html_key_spec(h), url) == h,
{
    assert forall|i: int| 0 <= i < h.len() implies #[trigger] h[i] != '/' by {
        assert(is_lower_hex(h[i]));
    }
    law_stem_of_html_key(h);
}

/// How a crawl delay is stored: its decimal numeral, `0` for none.
pub open spec fn crawl_delay_attr_spec(delay: Option<u64>) -> Seq<char> {
    match delay {
        Some(d) => decimal_spec(d as nat),
        None => decimal_spec(0),
    }
}

/// How a stored crawl delay is read back: a positive `u64` numeral is the
/// delay; a missing, unreadable or zero value is none.
pub open spec fn crawl_delay_from_attr_spec(attr: Option<Seq<char>>) -> Option<u64> {
    match attr {
        Some(n) => match parse_u64_spec(n) {
            Some(d) => if d > 0 {
                Some(d)
            } else {
                None
            },
            None => None,
        },
        None => None,
    }
}

/// `delay.unwrap_or(0).to_string()`.
pub fn crawl_delay_attr(delay: Option<u64>) -> (r: String)
    ensures
        r@ == crawl_delay_attr_spec(delay),
{
    match delay {
        Some(d) => u64_to_decimal(d),
        None => u64_to_decimal(0),
    }
}

/// `attr.and_then(|n| n.parse::<u64>().ok()).filter(|&d| d > 0)`.
pub fn crawl_delay_from_attr(attr: Option<&str>) -> (r: Option<u64>)
    ensures
        r == crawl_delay_from_attr_spec(match attr {
            Some(n) => Some(n@),
            None => None,
        }),
{
    match attr {
        Some(n) => match parse_u64(n) {
            Some(d) => if d > 0 {
                Some(d)
            } else {
                None
            },
            None => None,
        },
        None => None,
    }
}

/// A stored crawl delay reads back as it was written, except that a zero
/// delay reads back as none.
pub proof fn law_crawl_delay_round_trip(delay: Option<u64>)
    ensures
        crawl_delay_from_attr_spec(Some(crawl_delay_attr_spec(delay))) == (match delay {
            Some(d) => if d > 0 {
                Some(d)
            } else {
                None
            },
            None => None,
        }),
{
    match delay {
        Some(d) => crate::text::law_parse_u64_of_decimal(d),
        None => crate::text::law_parse_u64_of_decimal(0),
    }
}

} // verus!
