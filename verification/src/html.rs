use vstd::prelude::*;
use vstd::string::StrSliceExecFns;

use crate::text::{
    chars_of, join_spec, join_strings, range_equals, range_starts_with, starts_with_spec,
    trim, trim_spec, word_count, word_count_spec, is_ws, lemma_trim_ends, trim_start_spec,
    trim_end_spec,
};
use crate::document::{
    edges_view, parse_document, root_text_pieces, root_texts, select_attrs, select_texts,
    select_traversals, selected_attrs, selected_texts, selected_traversals, Document, TreeEdge,
    TreeEdgeView,
};
use crate::urls::{join_url, parse_url, url_join, url_parse, UrlError, UrlPartsView};

verus! {

pub open spec fn javascript_prefix() -> Seq<char> {
    seq!['j', 'a', 'v', 'a', 's', 'c', 'r', 'i', 'p', 't', ':']
}

pub open spec fn mailto_prefix() -> Seq<char> {
    seq!['m', 'a', 'i', 'l', 't', 'o', ':']
}

/// Whether `href` is left out before it is resolved: a `javascript:` or
/// `mailto:` link, or a fragment (`#...`).
pub open spec fn skipped_href(href: Seq<char>) -> bool {
    starts_with_spec(href, javascript_prefix()) || starts_with_spec(href, mailto_prefix())
        || starts_with_spec(href, seq!['#'])
}

/// Whether a URL scheme is one the crawler follows.
pub open spec fn followed_scheme(scheme: Seq<char>) -> bool {
    scheme == seq!['h', 't', 't', 'p'] || scheme == seq!['h', 't', 't', 'p', 's']
}

/// The absolute URL that `href` on the page at `base` leads to, when the
/// crawler follows it: `href` parsed on its own, or else resolved against
/// `base`, with an `http` or `https` scheme.
pub open spec fn resolve_link(base: Seq<char>, href: Seq<char>) -> Option<Seq<char>> {
    if skipped_href(href) {
        None
    } else {
        let u = match url_parse(href) {
            Ok(u) => Ok(u),
            Err(_) => url_join(base, href),
        };
        match u {
            Ok(u) => if followed_scheme(u.scheme) {
                Some(u.href)
            } else {
                None
            },
            Err(_) => None,
        }
    }
}

/// The links that the `href`s lead to, in order.
pub open spec fn links_of(base: Seq<char>, hrefs: Seq<Option<Seq<char>>>) -> Seq<Seq<char>>
    decreases hrefs.len(),
{
    if hrefs.len() == 0 {
        seq![]
    } else {
        let rest = links_of(base, hrefs.drop_last());
        match hrefs.last() {
            Some(h) => match resolve_link(base, h) {
                Some(l) => rest.push(l),
                None => rest,
            },
            None => rest,
        }
    }
}

/// The `href` attribute of each `a` element of the document `html`.
pub open spec fn anchor_hrefs(html: Seq<char>) -> Seq<Option<Seq<char>>> {
    match selected_attrs(html, "a"@, "href"@) {
        Some(hs) => hs,
        None => seq![],
    }
}

/// The links of the page `html` found at `base_url`.
pub open spec fn page_links(html: Seq<char>, base_url: Seq<char>) -> Seq<Seq<char>> {
    links_of(base_url, anchor_hrefs(html))
}

/// An `href` that is not a `javascript:`, `mailto:` or fragment link, and
/// that parses on its own (or, failing that, resolves against the page URL
/// `base`) to a URL with the scheme `http` or `https`, leads to that URL's
/// serialization.
pub proof fn law_web_link_followed(base: Seq<char>, href: Seq<char>, u: UrlPartsView)
    requires
        !starts_with_spec(href, seq!['j', 'a', 'v', 'a', 's', 'c', 'r', 'i', 'p', 't', ':']),
        !starts_with_spec(href, seq!['m', 'a', 'i', 'l', 't', 'o', ':']),
        !starts_with_spec(href, seq!['#']),
        url_parse(href) == Ok::<UrlPartsView, UrlError>(u) || (url_parse(href) is Err && url_join(
            base,
            href,
        ) == Ok::<UrlPartsView, UrlError>(u)),
        u.scheme == seq!['h', 't', 't', 'p'] || u.scheme == seq!['h', 't', 't', 'p', 's'],
    ensures
        resolve_link(base, href) == Some(u.href),
{
}

/// A link comes only from an `href` that is not a `javascript:`, `mailto:`
/// or fragment link and that parses on its own (or, failing that, resolves
/// against `base`) to an `http` or `https` URL: the link is that URL's
/// serialization.
pub proof fn law_link_is_web_url(base: Seq<char>, href: Seq<char>, link: Seq<char>)
    requires
        resolve_link(base, href) == Some(link),
    ensures
        !starts_with_spec(href, seq!['j', 'a', 'v', 'a', 's', 'c', 'r', 'i', 'p', 't', ':']),
        !starts_with_spec(href, seq!['m', 'a', 'i', 'l', 't', 'o', ':']),
        !starts_with_spec(href, seq!['#']),
        match (match url_parse(href) {
            Ok(u) => Ok::<UrlPartsView, UrlError>(u),
            Err(_) => url_join(base, href),
        }) {
            Ok(u) => link == u.href && (u.scheme == seq!['h', 't', 't', 'p'] || u.scheme == seq![
                'h',
                't',
                't',
                'p',
                's',
            ]),
            Err(_) => false,
        },
{
}

/// `javascript:`, `mailto:` and fragment links lead nowhere.
pub proof fn law_skipped_links(base: Seq<char>, href: Seq<char>)
    requires
        starts_with_spec(href, seq!['j', 'a', 'v', 'a', 's', 'c', 'r', 'i', 'p', 't', ':'])
            || starts_with_spec(href, seq!['m', 'a', 'i', 'l', 't', 'o', ':'])
            || starts_with_spec(href, seq!['#']),
    ensures
        resolve_link(base, href) is None,
{
}

/// Every anchor whose `href` leads somewhere gives its link: the link is
/// among the page's links.
pub proof fn law_followed_anchor_listed(
    base: Seq<char>,
    hrefs: Seq<Option<Seq<char>>>,
    j: int,
    href: Seq<char>,
    link: Seq<char>,
)
    requires
        0 <= j < hrefs.len(),
        hrefs[j] == Some(href),
        resolve_link(base, href) == Some(link),
    ensures
        links_of(base, hrefs).contains(link),
    decreases hrefs.len(),
{
    let t = hrefs.drop_last();
    if j == hrefs.len() - 1 {
        assert(hrefs.last() == Some(href));
        assert(links_of(base, hrefs) == links_of(base, t).push(link));
        assert(links_of(base, hrefs)[links_of(base, t).len() as int] == link);
    } else {
        assert(t[j] == hrefs[j]);
        law_followed_anchor_listed(base, t, j, href, link);
        let rest = links_of(base, t);
        let k = choose|k: int| 0 <= k < rest.len() && rest[k] == link;
        match hrefs.last() {
            Some(h) => match resolve_link(base, h) {
                Some(l) => {
                    assert(links_of(base, hrefs) == rest.push(l));
                    assert(links_of(base, hrefs)[k] == link);
                },
                None => {},
            },
            None => {},
        }
    }
}

/// Whether the anchor `href` (if any) resolves to `link`.
pub open spec fn anchor_leads_to(base: Seq<char>, href: Option<Seq<char>>, link: Seq<char>) -> bool {
    match href {
        Some(h) => resolve_link(base, h) == Some(link),
        None => false,
    }
}

/// Every link of a page is what one of its anchors' `href`s resolves to,
/// kept by the filters of `resolve_link` (not a `javascript:`, `mailto:` or
/// fragment link, and with an `http` or `https` scheme); there are no more
/// links than anchors.
pub proof fn law_links_come_from_anchors(base: Seq<char>, hrefs: Seq<Option<Seq<char>>>)
    ensures
        links_of(base, hrefs).len() <= hrefs.len(),
        forall|i: int| 0 <= i < links_of(base, hrefs).len() ==> exists|j: int| 0 <= j < hrefs.len()
            && anchor_leads_to(base, #[trigger] hrefs[j], #[trigger] links_of(base, hrefs)[i]),
    decreases hrefs.len(),
{
    if hrefs.len() > 0 {
        let t = hrefs.drop_last();
        law_links_come_from_anchors(base, t);
        let links = links_of(base, hrefs);
        let prev = links_of(base, t);
        assert forall|i: int| 0 <= i < links.len() implies exists|j: int| 0 <= j < hrefs.len()
            && anchor_leads_to(base, #[trigger] hrefs[j], #[trigger] links[i]) by {
            if i < prev.len() {
                assert(links[i] == prev[i]);
                let j = choose|j: int| 0 <= j < t.len() && anchor_leads_to(base, #[trigger] t[j], prev[i]);
                assert(hrefs[j] == t[j]);
            } else {
                let j = hrefs.len() - 1;
                assert(hrefs[j] == hrefs.last());
            }
        }
    }
}

fn scheme_followed(scheme: &String) -> (r: bool)
    ensures
        r == followed_scheme(scheme@),
{
    let v = chars_of(scheme.as_str());
    let http = vec!['h', 't', 't', 'p'];
    let https = vec!['h', 't', 't', 'p', 's'];
    assert(http@ =~= seq!['h', 't', 't', 'p']);
    assert(https@ =~= seq!['h', 't', 't', 'p', 's']);
    assert(v@.subrange(0, v@.len() as int) == v@);
    range_equals(&v, 0, v.len(), &http) || range_equals(&v, 0, v.len(), &https)
}

fn href_skipped(href: &String) -> (r: bool)
    ensures
        r == skipped_href(href@),
{
    let v = chars_of(href.as_str());
    let js = vec!['j', 'a', 'v', 'a', 's', 'c', 'r', 'i', 'p', 't', ':'];
    let mailto = vec!['m', 'a', 'i', 'l', 't', 'o', ':'];
    let hash = vec!['#'];
    assert(js@ =~= javascript_prefix());
    assert(mailto@ =~= mailto_prefix());
    assert(hash@ =~= seq!['#']);
    assert(v@.subrange(0, v@.len() as int) == v@);
    range_starts_with(&v, 0, v.len(), &js) || range_starts_with(&v, 0, v.len(), &mailto)
        || range_starts_with(&v, 0, v.len(), &hash)
}

fn links_in(doc: &Document, base_url: &str) -> (r: Vec<String>)
    ensures
        r.deep_view() == page_links(doc@, base_url@),
{
    let hrefs = match select_attrs(doc, "a", "href") {
        Some(v) => v,
        None => {
            let v: Vec<Option<String>> = Vec::new();
            assert(v.deep_view() =~= Seq::<Option<Seq<char>>>::empty());
            v
        },
    };
    let ghost hv = hrefs.deep_view();
    let mut links: Vec<String> = Vec::new();
    let mut i: usize = 0;
    assert(hv.take(0) =~= Seq::<Option<Seq<char>>>::empty());
    assert(links.deep_view() =~= Seq::<Seq<char>>::empty());
    while i < hrefs.len()
        invariant
            i <= hrefs@.len(),
            hv == hrefs.deep_view(),
            hv.len() == hrefs@.len(),
            hv == anchor_hrefs(doc@),
            links.deep_view() == links_of(base_url@, hv.take(i as int)),
        decreases hrefs@.len() - i,
    {
        assert(hv.take(i + 1).drop_last() == hv.take(i as int));
        assert(hv.take(i + 1).last() == hv[i as int]);
        let ghost before = links.deep_view();
        match &hrefs[i] {
            None => {},
            Some(h) => {
                if !href_skipped(h) {
                    let resolved = match parse_url(h.as_str()) {
                        Ok(u) => Ok(u),
                        Err(_) => join_url(base_url, h.as_str()),
                    };
                    match resolved {
                        Ok(u) => {
                            if scheme_followed(&u.scheme) {
                                links.push(u.href);
                                assert(links.deep_view() =~= before.push(u.href@));
                            }
                        },
                        Err(_) => {},
                    }
                }
            },
        }
        i = i + 1;
    }
    assert(hv.take(hrefs@.len() as int) == hv);
    links
}

/// The absolute `http`/`https` URLs that the `a` elements of `html` link
/// to, resolved against `base_url`; the error that parsing `base_url` gives
/// when it does not parse.
pub fn extract_url(html: &str, base_url: &str) -> (r: Result<Vec<String>, UrlError>)
    ensures
        match r {
            Ok(links) => url_parse(base_url@) is Ok && links.deep_view() == page_links(
                html@,
                base_url@,
            ),
            Err(e) => url_parse(base_url@) == Err::<UrlPartsView, UrlError>(e),
        },
{
    match parse_url(base_url) {
        Err(e) => {
            return Err(e);
        },
        Ok(_) => {},
    }
    let doc = parse_document(html);
    Ok(links_in(&doc, base_url))
}

/// The text of the document `html`: all its text nodes joined by single spaces.
pub open spec fn document_text(html: Seq<char>) -> Seq<char> {
    join_spec(root_text_pieces(html), seq![' '])
}

/// All text of `html`, the text nodes joined by single spaces.
pub fn extract_text(html: &str) -> (r: String)
    ensures
        r@ == document_text(html@),
{
    let doc = parse_document(html);
    let pieces = root_texts(&doc);
    let sep = " ";
    proof {
        reveal_strlit(" ");
    }
    assert(sep@ =~= seq![' ']);
    join_strings(&pieces, sep)
}

/// `Some(t)` for a non-empty `t`, `None` for the empty string.
pub open spec fn non_empty(t: Seq<char>) -> Option<Seq<char>> {
    if t.len() > 0 {
        Some(t)
    } else {
        None
    }
}

/// The page title: the text of the first `title` element, trimmed, when
/// that is not empty.
pub open spec fn page_title(html: Seq<char>) -> Option<Seq<char>> {
    match selected_texts(html, "title"@) {
        Some(ts) => if ts.len() > 0 {
            non_empty(trim_spec(join_spec(ts[0], seq![])))
        } else {
            None
        },
        None => None,
    }
}

fn title_in(doc: &Document) -> (r: Option<String>)
    ensures
        r.deep_view() == page_title(doc@),
{
    match select_texts(doc, "title") {
        None => None,
        Some(titles) => {
            if titles.len() == 0 {
                return None;
            }
            let empty = "";
            proof {
                reveal_strlit("");
            }
            assert(empty@ =~= Seq::<char>::empty());
            assert(titles.deep_view()[0] == titles@[0].deep_view());
            let whole = join_strings(&titles[0], empty);
            let t = trim(whole.as_str());
            if t.as_str().unicode_len() > 0 {
                Some(t)
            } else {
                None
            }
        },
    }
}

/// The title of `html`.
pub fn extract_title(html: &str) -> (r: Option<String>)
    ensures
        r.deep_view() == page_title(html@),
{
    let doc = parse_document(html);
    title_in(&doc)
}

/// The page description: the `content` of the first
/// `meta[name="description"]`, trimmed, when that is not empty.
pub open spec fn page_description(html: Seq<char>) -> Option<Seq<char>> {
    match selected_attrs(html, "meta[name=\"description\"]"@, "content"@) {
        Some(cs) => if cs.len() > 0 {
            match cs[0] {
                Some(c) => non_empty(trim_spec(c)),
                None => None,
            }
        } else {
            None
        },
        None => None,
    }
}

fn description_in(doc: &Document) -> (r: Option<String>)
    ensures
        r.deep_view() == page_description(doc@),
{
    match select_attrs(doc, "meta[name=\"description\"]", "content") {
        None => None,
        Some(contents) => {
            if contents.len() == 0 {
                return None;
            }
            assert(contents.deep_view()[0] == contents@[0].deep_view());
            match &contents[0] {
                Some(c) => {
                    let t = trim(c.as_str());
                    if t.as_str().unicode_len() > 0 {
                        Some(t)
                    } else {
                        None
                    }
                },
                None => None,
            }
        },
    }
}

/// The description of `html`.
pub fn extract_description(html: &str) -> (r: Option<String>)
    ensures
        r.deep_view() == page_description(html@),
{
    let doc = parse_document(html);
    description_in(&doc)
}

/// The number of `true` entries of `s`.
pub open spec fn count_true(s: Seq<bool>) -> nat
    decreases s.len(),
{
    if s.len() == 0 {
        0
    } else {
        count_true(s.drop_last()) + if s.last() {
            1nat
        } else {
            0nat
        }
    }
}

proof fn lemma_count_true_le(s: Seq<bool>)
    ensures
        count_true(s) <= s.len(),
    decreases s.len(),
{
    if s.len() > 0 {
        lemma_count_true_le(s.drop_last());
    }
}

/// The texts of the text nodes that the traversal `edges` opens while no
/// marked (noise) element is open; `open` holds, for each node opened and
/// not yet closed, whether it is marked.
pub open spec fn texts_outside_noise(edges: Seq<TreeEdgeView>, open: Seq<bool>) -> Seq<Seq<char>>
    decreases edges.len(),
{
    if edges.len() == 0 {
        seq![]
    } else {
        let rest = edges.drop_first();
        match edges[0] {
            TreeEdgeView::Open { text, marked } => {
                let here = match text {
                    Some(t) => if count_true(open) == 0 {
                        seq![t]
                    } else {
                        seq![]
                    },
                    None => seq![],
                };
                here + texts_outside_noise(rest, open.push(marked))
            },
            TreeEdgeView::Close => texts_outside_noise(
                rest,
                if open.len() > 0 {
                    open.drop_last()
                } else {
                    open
                },
            ),
        }
    }
}

/// Whether a traversal that starts `depth` levels inside a node never
/// closes that node (it never closes more nodes than it has opened).
pub open spec fn never_below(es: Seq<TreeEdgeView>, depth: int) -> bool
    decreases es.len(),
{
    if es.len() == 0 {
        true
    } else {
        let next = depth + match es[0] {
            TreeEdgeView::Open { .. } => 1int,
            TreeEdgeView::Close => -1int,
        };
        next >= 0 && never_below(es.drop_first(), next)
    }
}

/// How many levels inside a node a traversal that starts `depth` levels
/// inside it ends.
pub open spec fn final_depth(es: Seq<TreeEdgeView>, depth: int) -> int
    decreases es.len(),
{
    if es.len() == 0 {
        depth
    } else {
        final_depth(
            es.drop_first(),
            depth + match es[0] {
                TreeEdgeView::Open { .. } => 1int,
                TreeEdgeView::Close => -1int,
            },
        )
    }
}

/// The open nodes (their marks) after the traversal `es` from `open`.
pub open spec fn open_after(es: Seq<TreeEdgeView>, open: Seq<bool>) -> Seq<bool>
    decreases es.len(),
{
    if es.len() == 0 {
        open
    } else {
        match es[0] {
            TreeEdgeView::Open { text, marked } => open_after(es.drop_first(), open.push(marked)),
            TreeEdgeView::Close => open_after(
                es.drop_first(),
                if open.len() > 0 {
                    open.drop_last()
                } else {
                    open
                },
            ),
        }
    }
}

proof fn lemma_count_true_concat(a: Seq<bool>, b: Seq<bool>)
    ensures
        count_true(a + b) == count_true(a) + count_true(b),
    decreases b.len(),
{
    if b.len() == 0 {
        assert(a + b == a);
    } else {
        lemma_count_true_concat(a, b.drop_last());
        assert((a + b).drop_last() == a + b.drop_last());
        assert((a + b).last() == b.last());
    }
}

proof fn lemma_inside_noise_hidden(
    es: Seq<TreeEdgeView>,
    rest: Seq<TreeEdgeView>,
    base: Seq<bool>,
    extra: Seq<bool>,
)
    requires
        count_true(base) > 0,
        never_below(es, extra.len() as int),
    ensures
        texts_outside_noise(es + rest, base + extra) == texts_outside_noise(
            rest,
            open_after(es, base + extra),
        ),
        open_after(es, base + extra).len() == base.len() + final_depth(es, extra.len() as int),
        open_after(es, base + extra).take(base.len() as int) == base,
    decreases es.len(),
{
    lemma_count_true_concat(base, extra);
    if es.len() == 0 {
        assert(es + rest == rest);
        assert((base + extra).take(base.len() as int) == base);
    } else {
        let all = es + rest;
        assert(all[0] == es[0]);
        assert(all.drop_first() == es.drop_first() + rest);
        match es[0] {
            TreeEdgeView::Open { text, marked } => {
                assert((base + extra).push(marked) == base + extra.push(marked));
                lemma_inside_noise_hidden(es.drop_first(), rest, base, extra.push(marked));
                let here: Seq<Seq<char>> = match text {
                    Some(t) => if count_true(base + extra) == 0 {
                        seq![t]
                    } else {
                        seq![]
                    },
                    None => seq![],
                };
                assert(here == Seq::<Seq<char>>::empty());
                assert(here + texts_outside_noise(all.drop_first(), (base + extra).push(marked))
                    == texts_outside_noise(all.drop_first(), (base + extra).push(marked)));
            },
            TreeEdgeView::Close => {
                assert(extra.len() > 0);
                assert((base + extra).drop_last() == base + extra.drop_last());
                lemma_inside_noise_hidden(es.drop_first(), rest, base, extra.drop_last());
            },
        }
    }
}

/// A marked element (in the body text, a `script`, `style`, `nav`, `footer`
/// or `header` element) hides its whole subtree: the text of a traversal
/// that opens such an element, goes through
/// its subtree (a traversal that never leaves it and closes all it opens)
/// and closes it, is the text of what comes after it.
pub proof fn law_noise_subtree_hidden(
    open: Seq<bool>,
    subtree: Seq<TreeEdgeView>,
    rest: Seq<TreeEdgeView>,
)
    requires
        never_below(subtree, 0),
        final_depth(subtree, 0) == 0,
    ensures
        texts_outside_noise(
            seq![TreeEdgeView::Open { text: None, marked: true }] + subtree + seq![TreeEdgeView::Close]
                + rest,
            open,
        ) == texts_outside_noise(rest, open),
{
    let o = TreeEdgeView::Open { text: None, marked: true };
    let c = TreeEdgeView::Close;
    let all = seq![o] + subtree + seq![c] + rest;
    let base = open.push(true);
    assert(all[0] == o);
    assert(all.drop_first() == subtree + (seq![c] + rest));
    assert(count_true(base) > 0);
    assert(base + Seq::<bool>::empty() == base);
    lemma_inside_noise_hidden(subtree, seq![c] + rest, base, Seq::<bool>::empty());
    let after = open_after(subtree, base);
    assert(after == base) by {
        assert(after.len() == base.len());
        assert(after =~= after.take(base.len() as int));
    }
    let tail = seq![c] + rest;
    assert(tail[0] == c);
    assert(tail.drop_first() == rest);
    assert(base.drop_last() == open);
    assert(Seq::<Seq<char>>::empty() + texts_outside_noise(all.drop_first(), base)
        == texts_outside_noise(all.drop_first(), base));
}

/// The trimmed texts, leaving out those that are empty once trimmed.
pub open spec fn trimmed_non_empty(ts: Seq<Seq<char>>) -> Seq<Seq<char>>
    decreases ts.len(),
{
    if ts.len() == 0 {
        seq![]
    } else {
        let rest = trimmed_non_empty(ts.drop_last());
        if trim_spec(ts.last()).len() > 0 {
            rest.push(trim_spec(ts.last()))
        } else {
            rest
        }
    }
}

/// The body text of `html`: the trimmed, non-empty texts of the body's text
/// nodes that lie outside `script`, `style`, `nav`, `footer` and `header`
/// elements, joined by single spaces; empty when there is no body.
pub open spec fn body_text_of(html: Seq<char>) -> Seq<char> {
    match selected_traversals(html, "body"@, "script, style, nav, footer, header"@) {
        Some(ts) => if ts.len() > 0 {
            join_spec(trimmed_non_empty(texts_outside_noise(ts[0], seq![])), seq![' '])
        } else {
            seq![]
        },
        None => seq![],
    }
}

proof fn lemma_texts_concat(es: Seq<TreeEdgeView>, rest: Seq<TreeEdgeView>, open: Seq<bool>)
    ensures
        texts_outside_noise(es + rest, open) == texts_outside_noise(es, open) + texts_outside_noise(
            rest,
            open_after(es, open),
        ),
    decreases es.len(),
{
    if es.len() == 0 {
        assert(es + rest == rest);
        assert(Seq::<Seq<char>>::empty() + texts_outside_noise(rest, open) == texts_outside_noise(
            rest,
            open,
        ));
    } else {
        let all = es + rest;
        assert(all[0] == es[0]);
        assert(all.drop_first() == es.drop_first() + rest);
        match es[0] {
            TreeEdgeView::Open { text, marked } => {
                lemma_texts_concat(es.drop_first(), rest, open.push(marked));
                let here: Seq<Seq<char>> = match text {
                    Some(t) => if count_true(open) == 0 {
                        seq![t]
                    } else {
                        seq![]
                    },
                    None => seq![],
                };
                let x = texts_outside_noise(es.drop_first(), open.push(marked));
                let y = texts_outside_noise(rest, open_after(es.drop_first(), open.push(marked)));
                assert(here + (x + y) == (here + x) + y);
            },
            TreeEdgeView::Close => {
                let o = if open.len() > 0 {
                    open.drop_last()
                } else {
                    open
                };
                lemma_texts_concat(es.drop_first(), rest, o);
            },
        }
    }
}

proof fn lemma_trimmed_keeps(ts: Seq<Seq<char>>, i: int)
    requires
        0 <= i < ts.len(),
        trim_spec(ts[i]).len() > 0,
    ensures
        trimmed_non_empty(ts).contains(trim_spec(ts[i])),
    decreases ts.len(),
{
    let t = ts.drop_last();
    let rest = trimmed_non_empty(t);
    if i == ts.len() - 1 {
        assert(ts.last() == ts[i]);
        assert(trimmed_non_empty(ts) == rest.push(trim_spec(ts[i])));
        assert(trimmed_non_empty(ts)[rest.len() as int] == trim_spec(ts[i]));
    } else {
        assert(t[i] == ts[i]);
        lemma_trimmed_keeps(t, i);
        let k = choose|k: int| 0 <= k < rest.len() && rest[k] == trim_spec(ts[i]);
        if trim_spec(ts.last()).len() > 0 {
            assert(trimmed_non_empty(ts) == rest.push(trim_spec(ts.last())));
            assert(trimmed_non_empty(ts)[k] == trim_spec(ts[i]));
        }
    }
}

proof fn lemma_join_contains(ps: Seq<Seq<char>>, sep: Seq<char>, i: int) -> (k: int)
    requires
        0 <= i < ps.len(),
    ensures
        0 <= k,
        k + ps[i].len() <= join_spec(ps, sep).len(),
        join_spec(ps, sep).subrange(k, k + ps[i].len()) == ps[i],
    decreases ps.len(),
{
    let j = join_spec(ps, sep);
    if ps.len() == 1 {
        assert(j.subrange(0, ps[0].len() as int) == ps[0]);
        0
    } else {
        let front = join_spec(ps.drop_last(), sep);
        assert(j == front + sep + ps.last());
        if i == ps.len() - 1 {
            let k: int = (front.len() + sep.len()) as int;
            assert(j.subrange(k, k + ps[i].len()) == ps.last());
            k
        } else {
            assert(ps.drop_last()[i] == ps[i]);
            let k = lemma_join_contains(ps.drop_last(), sep, i);
            assert(j.subrange(k, k + ps[i].len()) == front.subrange(k, k + ps[i].len()));
            k
        }
    }
}

proof fn lemma_count_true_none(s: Seq<bool>)
    requires
        forall|i: int| 0 <= i < s.len() ==> !#[trigger] s[i],
    ensures
        count_true(s) == 0,
    decreases s.len(),
{
    if s.len() > 0 {
        assert(!s[s.len() - 1]);
        assert forall|i: int| 0 <= i < s.drop_last().len() implies !#[trigger] s.drop_last()[i] by {
            assert(s.drop_last()[i] == s[i]);
        }
        lemma_count_true_none(s.drop_last());
    }
}

/// Taking a marked element and its whole subtree out of a traversal leaves
/// its text unchanged: nothing under a marked element is ever shown.
pub proof fn law_marked_subtree_dropped(
    before: Seq<TreeEdgeView>,
    subtree: Seq<TreeEdgeView>,
    after: Seq<TreeEdgeView>,
)
    requires
        never_below(subtree, 0),
        final_depth(subtree, 0) == 0,
    ensures
        texts_outside_noise(
            before + (seq![TreeEdgeView::Open { text: None, marked: true }] + subtree + seq![
                TreeEdgeView::Close,
            ] + after),
            seq![],
        ) == texts_outside_noise(before + after, seq![]),
{
    let hidden = seq![TreeEdgeView::Open { text: None, marked: true }] + subtree + seq![
        TreeEdgeView::Close,
    ] + after;
    let o = open_after(before, seq![]);
    lemma_texts_concat(before, hidden, seq![]);
    lemma_texts_concat(before, after, seq![]);
    law_noise_subtree_hidden(o, subtree, after);
}

proof fn lemma_trimmed_pieces(ts: Seq<Seq<char>>)
    ensures
        forall|i: int| 0 <= i < trimmed_non_empty(ts).len() ==> (#[trigger] trimmed_non_empty(ts)[i]).len()
            > 0 && !is_ws(trimmed_non_empty(ts)[i][0]) && !is_ws(trimmed_non_empty(ts)[i].last()),
    decreases ts.len(),
{
    if ts.len() > 0 {
        let rest = trimmed_non_empty(ts.drop_last());
        lemma_trimmed_pieces(ts.drop_last());
        lemma_trim_ends(ts.last());
        let all = trimmed_non_empty(ts);
        assert forall|i: int| 0 <= i < all.len() implies (#[trigger] all[i]).len() > 0 && !is_ws(
            all[i][0],
        ) && !is_ws(all[i].last()) by {
            if i < rest.len() {
                assert(all[i] == rest[i]);
            } else {
                assert(all[i] == trim_spec(ts.last()));
            }
        }
    }
}

proof fn lemma_join_ends(ps: Seq<Seq<char>>)
    requires
        forall|i: int| 0 <= i < ps.len() ==> (#[trigger] ps[i]).len() > 0 && !is_ws(ps[i][0])
            && !is_ws(ps[i].last()),
    ensures
        ps.len() > 0 ==> join_spec(ps, seq![' ']).len() > 0 && !is_ws(join_spec(ps, seq![' '])[0])
            && !is_ws(join_spec(ps, seq![' ']).last()),
    decreases ps.len(),
{
    if ps.len() > 1 {
        let front = ps.drop_last();
        assert forall|i: int| 0 <= i < front.len() implies (#[trigger] front[i]).len() > 0 && !is_ws(
            front[i][0],
        ) && !is_ws(front[i].last()) by {
            assert(front[i] == ps[i]);
        }
        lemma_join_ends(front);
        let j = join_spec(ps, seq![' ']);
        let f = join_spec(front, seq![' ']);
        assert(j == f + seq![' '] + ps.last());
        assert(j[0] == f[0]);
        assert(ps.last() == ps[ps.len() - 1]);
        assert(j.last() == ps.last().last());
    } else if ps.len() == 1 {
        assert(join_spec(ps, seq![' ']) == ps[0]);
    }
}

/// The elements whose text the body text leaves out, as a CSS selector:
/// `script, style, nav, footer, header`.
pub open spec fn noise_selector() -> Seq<char> {
    seq![
        's', 'c', 'r', 'i', 'p', 't', ',', ' ', 's', 't', 'y', 'l', 'e', ',', ' ', 'n', 'a', 'v', ',',
        ' ', 'f', 'o', 'o', 't', 'e', 'r', ',', ' ', 'h', 'e', 'a', 'd', 'e', 'r',
    ]
}

/// The body text has no white space at either end.
pub proof fn law_body_text_trimmed(html: Seq<char>)
    ensures
        trim_spec(body_text_of(html)) == body_text_of(html),
{
    reveal_strlit("script, style, nav, footer, header");
    assert("script, style, nav, footer, header"@ == noise_selector());
    match selected_traversals(html, "body"@, noise_selector()) {
        Some(ts) => if ts.len() > 0 {
            let kept = trimmed_non_empty(texts_outside_noise(ts[0], seq![]));
            lemma_trimmed_pieces(texts_outside_noise(ts[0], seq![]));
            lemma_join_ends(kept);
            let b = body_text_of(html);
            if b.len() > 0 {
                assert(trim_start_spec(b) == b);
                assert(trim_end_spec(b) == b);
            }
        },
        None => {},
    }
}

/// Only `script`, `style`, `nav`, `footer` and `header` elements hide text:
/// a text node of the page's body (the traversal of the first element that
/// the selector `body` matches, its elements marked when the selector
/// `script, style, nav, footer, header` matches them) with no marked
/// element open above it appears, trimmed, in the body text when it is not
/// blank.
pub proof fn law_unhidden_text_shown(
    html: Seq<char>,
    bodies: Seq<Seq<TreeEdgeView>>,
    before: Seq<TreeEdgeView>,
    t: Seq<char>,
    marked: bool,
    after: Seq<TreeEdgeView>,
)
    requires
        selected_traversals(html, "body"@, noise_selector()) == Some(bodies),
        bodies.len() > 0,
        bodies[0] == before + seq![TreeEdgeView::Open { text: Some(t), marked }] + after,
        forall|i: int| 0 <= i < open_after(before, seq![]).len() ==> !#[trigger] open_after(
            before,
            seq![],
        )[i],
        trim_spec(t).len() > 0,
    ensures
        exists|k: int| 0 <= k && k + trim_spec(t).len() <= body_text_of(html).len() && #[trigger] body_text_of(
            html,
        ).subrange(k, k + trim_spec(t).len()) == trim_spec(t),
{
    reveal_strlit("script, style, nav, footer, header");
    assert("script, style, nav, footer, header"@ == noise_selector());
    let o = open_after(before, seq![]);
    lemma_count_true_none(o);
    let node = seq![TreeEdgeView::Open { text: Some(t), marked }];
    let tail = node + after;
    assert(bodies[0] == before + tail);
    lemma_texts_concat(before, tail, seq![]);
    assert(tail[0] == node[0]);
    assert(tail.drop_first() == after);
    let texts = texts_outside_noise(bodies[0], seq![]);
    let front = texts_outside_noise(before, seq![]);
    assert(texts_outside_noise(tail, o) == seq![t] + texts_outside_noise(after, o.push(marked)));
    assert(texts[front.len() as int] == t);
    lemma_trimmed_keeps(texts, front.len() as int);
    let kept = trimmed_non_empty(texts);
    let i = choose|i: int| 0 <= i < kept.len() && kept[i] == trim_spec(t);
    let k = lemma_join_contains(kept, seq![' '], i);
    assert(body_text_of(html) == join_spec(kept, seq![' ']));
    assert(body_text_of(html).subrange(k, k + trim_spec(t).len()) == trim_spec(t));
}

fn visible_texts(edges: &Vec<TreeEdge>) -> (r: Vec<String>)
    ensures
        r.deep_view() == texts_outside_noise(edges_view(edges@), seq![]),
{
    let ghost es = edges_view(edges@);
    let mut out: Vec<String> = Vec::new();
    let mut open: Vec<bool> = Vec::new();
    let mut noisy: usize = 0;
    let mut i: usize = 0;
    assert(es.skip(0) == es);
    assert(out.deep_view() =~= Seq::<Seq<char>>::empty());
    assert(open@ =~= Seq::<bool>::empty());
    while i < edges.len()
        invariant
            i <= edges@.len(),
            es == edges_view(edges@),
            es.len() == edges@.len(),
            noisy == count_true(open@),
            open@.len() <= i,
            texts_outside_noise(es, seq![]) == out.deep_view() + texts_outside_noise(
                es.skip(i as int),
                open@,
            ),
        decreases edges@.len() - i,
    {
        let ghost rest = es.skip(i as int);
        assert(rest[0] == edges@[i as int]@);
        assert(rest.drop_first() == es.skip(i + 1));
        let ghost before = out.deep_view();
        match &edges[i] {
            TreeEdge::Open { text, marked } => {
                match text {
                    Some(t) => {
                        if noisy == 0 {
                            out.push(t.clone());
                            assert(out.deep_view() =~= before + seq![t@]);
                        } else {
                            assert(before + Seq::<Seq<char>>::empty() =~= before);
                        }
                    },
                    None => {
                        assert(before + Seq::<Seq<char>>::empty() =~= before);
                    },
                }
                let ghost old_open = open@;
                open.push(*marked);
                assert(open@.drop_last() == old_open);
                proof {
                    lemma_count_true_le(old_open);
                }
                if *marked {
                    noisy = noisy + 1;
                }
                proof {
                    assert((before + texts_outside_noise(rest, old_open)) == out.deep_view()
                        + texts_outside_noise(es.skip(i + 1), open@));
                }
            },
            TreeEdge::Close => {
                if open.len() > 0 {
                    let ghost old_open = open@;
                    let was = open.pop().unwrap();
                    assert(old_open.drop_last() == open@);
                    if was {
                        noisy = noisy - 1;
                    }
                }
            },
        }
        i = i + 1;
    }
    assert(es.skip(edges@.len() as int).len() == 0);
    assert(out.deep_view() + Seq::<Seq<char>>::empty() == out.deep_view());
    out
}

fn keep_trimmed(ts: &Vec<String>) -> (r: Vec<String>)
    ensures
        r.deep_view() == trimmed_non_empty(ts.deep_view()),
{
    let ghost tv = ts.deep_view();
    let mut out: Vec<String> = Vec::new();
    let mut i: usize = 0;
    assert(tv.take(0) =~= Seq::<Seq<char>>::empty());
    assert(out.deep_view() =~= Seq::<Seq<char>>::empty());
    while i < ts.len()
        invariant
            i <= ts@.len(),
            tv == ts.deep_view(),
            tv.len() == ts@.len(),
            out.deep_view() == trimmed_non_empty(tv.take(i as int)),
        decreases ts@.len() - i,
    {
        assert(tv.take(i + 1).drop_last() == tv.take(i as int));
        assert(tv.take(i + 1).last() == ts@[i as int]@);
        let t = trim(ts[i].as_str());
        if t.as_str().unicode_len() > 0 {
            let ghost before = out.deep_view();
            out.push(t);
            assert(out.deep_view() =~= before.push(trim_spec(ts@[i as int]@)));
        }
        i = i + 1;
    }
    assert(tv.take(ts@.len() as int) == tv);
    out
}

fn body_text_in(doc: &Document) -> (r: String)
    ensures
        r@ == body_text_of(doc@),
{
    match select_traversals(doc, "body", "script, style, nav, footer, header") {
        None => String::new(),
        Some(bodies) => {
            if bodies.len() == 0 {
                return String::new();
            }
            let texts = visible_texts(&bodies[0]);
            let kept = keep_trimmed(&texts);
            let sep = " ";
            proof {
                reveal_strlit(" ");
            }
            assert(sep@ =~= seq![' ']);
            join_strings(&kept, sep)
        },
    }
}

/// The visible text of the body of `html`.
pub fn extract_body_text(html: &str) -> (r: String)
    ensures
        r@ == body_text_of(html@),
{
    let doc = parse_document(html);
    body_text_in(&doc)
}

/// What the parsing worker extracts from a page.
#[derive(Clone, Debug, PartialEq, Eq)]
pub struct ParsedPage {
    pub url: String,
    pub title: Option<String>,
    pub description: Option<String>,
    pub body_text: String,
    pub links: Vec<String>,
    pub word_count: usize,
}

/// Whether `p` is the page `html` found at `url`, parsed: its title,
/// description, body text, links (none when `url` does not parse) and the
/// number of words of the body text.
pub open spec fn is_parse_of(p: ParsedPage, html: Seq<char>, url: Seq<char>) -> bool {
    &&& p.url@ == url
    &&& p.title.deep_view() == page_title(html)
    &&& p.description.deep_view() == page_description(html)
    &&& p.body_text@ == body_text_of(html)
    &&& p.links.deep_view() == (if url_parse(url) is Ok {
        page_links(html, url)
    } else {
        seq![]
    })
    &&& p.word_count == word_count_spec(body_text_of(html))
}

/// The page `html` found at `url`, parsed.
pub fn parse(html: &str, url: &str) -> (r: ParsedPage)
    ensures
        is_parse_of(r, html@, url@),
{
    let doc = parse_document(html);
    let title = title_in(&doc);
    let description = description_in(&doc);
    let body_text = body_text_in(&doc);
    let links = match parse_url(url) {
        Ok(_) => links_in(&doc, url),
        Err(_) => {
            let v: Vec<String> = Vec::new();
            assert(v.deep_view() =~= Seq::<Seq<char>>::empty());
            v
        },
    };
    let word_count = word_count(body_text.as_str());
    ParsedPage { url: url.to_string(), title, description, body_text, links, word_count }
}

} // verus!
