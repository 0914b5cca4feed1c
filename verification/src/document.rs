use vstd::prelude::*;

verus! {

#[verifier::external_type_specification]
#[verifier::external_body]
pub struct ExHtml(scraper::Html);

/// A document parsed by `scraper` (HTML5), kept with the text it was parsed
/// from. Only `parse_document` makes one, so the tree is always the parse of
/// the text; the view is that text.
pub(crate) struct Document {
    source: String,
    tree: scraper::Html,
}

impl View for Document {
    type V = Seq<char>;

    closed spec fn view(&self) -> Seq<char> {
        self.source@
    }
}

/// One step of a depth-first traversal of an element's subtree: a node is
/// opened (with its text, when it is a text node, and whether it is an
/// element that a given selector matches), or the last opened node is
/// closed.
#[derive(Clone, Debug, PartialEq, Eq)]
pub enum TreeEdge {
    Open { text: Option<String>, marked: bool },
    Close,
}

pub enum TreeEdgeView {
    Open { text: Option<Seq<char>>, marked: bool },
    Close,
}

impl View for TreeEdge {
    type V = TreeEdgeView;

    open spec fn view(&self) -> TreeEdgeView {
        match self {
            TreeEdge::Open { text, marked } => TreeEdgeView::Open {
                text: match text {
                    Some(t) => Some(t@),
                    None => None,
                },
                marked: *marked,
            },
            TreeEdge::Close => TreeEdgeView::Close,
        }
    }
}

pub open spec fn edges_view(v: Seq<TreeEdge>) -> Seq<TreeEdgeView> {
    v.map_values(|e: TreeEdge| e@)
}

/// For each element of the document `html` that the CSS selector `selector`
/// matches, in the order of `scraper`'s `Html::select`, its attribute
/// `attr`; `None` when `selector` does not parse.
pub uninterp spec fn selected_attrs(html: Seq<char>, selector: Seq<char>, attr: Seq<char>) -> Option<
    Seq<Option<Seq<char>>>,
>;

/// For each element of the document `html` that `selector` matches, in the
/// order of `Html::select`, the texts of the text nodes under it (its
/// `text()`); `None` when `selector` does not parse.
pub uninterp spec fn selected_texts(html: Seq<char>, selector: Seq<char>) -> Option<
    Seq<Seq<Seq<char>>>,
>;

/// For each element of the document `html` that `selector` matches, in the
/// order of `Html::select`, the traversal of its subtree (its `traverse()`),
/// each opened element flagged by whether `marked` matches it; `None` when
/// either selector does not parse.
pub uninterp spec fn selected_traversals(
    html: Seq<char>,
    selector: Seq<char>,
    marked: Seq<char>,
) -> Option<Seq<Seq<TreeEdgeView>>>;

/// The texts of all text nodes of the document `html`, in order
/// (`root_element().text()`).
pub uninterp spec fn root_text_pieces(html: Seq<char>) -> Seq<Seq<char>>;

/// `scraper::Html::parse_document(html)`, kept with `html`.
#[verifier::external_body]
pub(crate) fn parse_document(html: &str) -> (d: Document)
    ensures
        d@ == html@,
{
    Document { source: html.to_string(), tree: scraper::Html::parse_document(html) }
}

/// `Selector::parse(selector)`, then `select` on the document and, for each
/// element, `value().attr(attr)`.
#[verifier::external_body]
pub(crate) fn select_attrs(doc: &Document, selector: &str, attr: &str) -> (r: Option<
    Vec<Option<String>>,
>)
    ensures
        r.deep_view() == selected_attrs(doc@, selector@, attr@),
{
    let sel = scraper::Selector::parse(selector).ok()?;
    Some(doc.tree.select(&sel).map(|el| el.value().attr(attr).map(|a| a.to_string())).collect())
}

/// `Selector::parse(selector)`, then `select` on the document and, for each
/// element, the pieces of its `text()`.
#[verifier::external_body]
pub(crate) fn select_texts(doc: &Document, selector: &str) -> (r: Option<Vec<Vec<String>>>)
    ensures
        r.deep_view() == selected_texts(doc@, selector@),
{
    let sel = scraper::Selector::parse(selector).ok()?;
    Some(doc.tree.select(&sel).map(|el| el.text().map(|t| t.to_string()).collect()).collect())
}

/// `Selector::parse` of both selectors, then `select` on the document and,
/// for each element, its `traverse()`: each open edge read with the node's
/// `as_text()` and whether `Selector::matches` holds of it as an element.
#[verifier::external_body]
pub(crate) fn select_traversals(doc: &Document, selector: &str, marked: &str) -> (r: Option<
    Vec<Vec<TreeEdge>>,
>)
    ensures
        match r {
            Some(v) => selected_traversals(doc@, selector@, marked@) == Some(
                v@.map_values(|t: Vec<TreeEdge>| edges_view(t@)),
            ),
            None => selected_traversals(doc@, selector@, marked@) is None,
        },
{
    let sel = scraper::Selector::parse(selector).ok()?;
    let mark = scraper::Selector::parse(marked).ok()?;
    Some(doc.tree.select(&sel).map(|el| el.traverse().map(|e| match e {
        ego_tree::iter::Edge::Open(n) => TreeEdge::Open {
            text: n.value().as_text().map(|t| String::from(&**t)),
            marked: scraper::ElementRef::wrap(n).is_some_and(|x| mark.matches(&x)),
        },
        ego_tree::iter::Edge::Close(_) => TreeEdge::Close,
    }).collect()).collect())
}

/// The pieces of `root_element().text()` of the document.
#[verifier::external_body]
pub(crate) fn root_texts(doc: &Document) -> (r: Vec<String>)
    ensures
        r.deep_view() == root_text_pieces(doc@),
{
    doc.tree.root_element().text().map(|t| t.to_string()).collect()
}

} // verus!
