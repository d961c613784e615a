//! What the extractor reads of a parsed HTML document.
//!
//! Parsing and tree navigation are done by `scraper`. The library sees the
//! outcome as plain values: the inner HTML of each `<strong>` element, and,
//! for one of them, the blocks that follow the element that holds it.
use vstd::prelude::*;

verus! {

/// A sibling block as the extractor sees it, through its first child.
pub enum Block {
    /// The block has no child node (whitespace between blocks, `<hr>`).
    Childless,
    /// The first child is not an element (text or a comment).
    Unmarked,
    /// The first child is an element with this tag name, inner HTML and `href`.
    Element { tag: String, text: String, link: Option<String> },
}

/// The model of a [`Block`].
pub enum BlockShape {
    Childless,
    Unmarked,
    Element { tag: Seq<char>, text: Seq<char>, link: Option<Seq<char>> },
}

/// The view of an optional string.
pub open spec fn opt_view(o: Option<String>) -> Option<Seq<char>> {
    match o {
        Some(s) => Some(s@),
        None => None,
    }
}

impl View for Block {
    type V = BlockShape;

    open spec fn view(&self) -> BlockShape {
        match self {
            Block::Childless => BlockShape::Childless,
            Block::Unmarked => BlockShape::Unmarked,
            Block::Element { tag, text, link } => BlockShape::Element {
                tag: tag@,
                text: text@,
                link: opt_view(*link),
            },
        }
    }
}

/// The views of a sequence of strings.
pub open spec fn texts_view(v: Seq<String>) -> Seq<Seq<char>> {
    v.map_values(|s: String| s@)
}

/// The models of a sequence of blocks.
pub open spec fn shapes(v: Seq<Block>) -> Seq<BlockShape> {
    v.map_values(|b: Block| b@)
}

/// The inner HTML of every `<strong>` element of the document parsed from
/// `html`, in the order in which `scraper` selects them.
pub uninterp spec fn strong_texts_of(html: Seq<char>) -> Seq<Seq<char>>;

/// The blocks that follow the parent of the `k`-th `<strong>` element of the
/// document parsed from `html` (none where that element does not exist).
pub uninterp spec fn blocks_following_strong(html: Seq<char>, k: nat) -> Seq<BlockShape>;

/// Relies on `scraper::Html::parse_document`, `Html::select` with the
/// selector `strong`, and `ElementRef::inner_html`: the inner HTML of each
/// `<strong>` element, which depends on the text of the document alone.
#[verifier::external_body]
pub(crate) fn strong_texts(html: &str) -> (r: Vec<String>)
    ensures
        texts_view(r@) == strong_texts_of(html@),
{
    let doc = scraper::Html::parse_document(html);
    let strong = scraper::Selector::parse("strong").unwrap();
    doc.select(&strong).map(|e| e.inner_html()).collect()
}

/// Relies on `scraper`: `Html::parse_document`, the `k`-th match of
/// `Html::select` with the selector `strong`, its parent's `next_siblings`,
/// and for each sibling its `first_child` read through `ElementRef`
/// (`name`, `inner_html`, `attr("href")`). Depends on the document text and
/// `k` alone.
#[verifier::external_body]
pub(crate) fn blocks_after_strong(html: &str, k: usize) -> (r: Vec<Block>)
    ensures
        shapes(r@) == blocks_following_strong(html@, k as nat),
{
    let doc = scraper::Html::parse_document(html);
    let strong = scraper::Selector::parse("strong").unwrap();
    match doc.select(&strong).nth(k).and_then(|e| e.parent()) {
        Some(p) => p.next_siblings().map(|s| match s.first_child().map(scraper::ElementRef::wrap) {
            None => Block::Childless,
            Some(None) => Block::Unmarked,
            Some(Some(e)) => Block::Element {
                tag: e.value().name().to_string(),
                text: e.inner_html(),
                link: e.attr("href").map(|h| h.to_string()),
            },
        }).collect(),
        None => Vec::new(),
    }
}

} // verus!
