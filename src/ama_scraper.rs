//! The question and answer of one reply, read from the reply's own page.
//!
//! A reply page holds its comment bodies in elements of class
//! `usertext-body`: the first is the thread's opening post, the second the
//! fan's question, the third the creator's answer.
use vstd::prelude::*;
use scraper::ElementRef;
use crate::document::{opt_view, texts_view};

verus! {

#[verifier::external_type_specification]
#[verifier::external_body]
pub struct ExElementRef<'a>(ElementRef<'a>);

/// What was fetched for one reply.
#[derive(PartialEq, Debug, Clone)]
pub struct AmaQuery {
    pub url_id: String,
    pub question_text: Option<String>,
    pub answer_text: Option<String>,
}

/// The model of an [`AmaQuery`].
pub struct QueryView {
    pub url_id: Seq<char>,
    pub question_text: Option<Seq<char>>,
    pub answer_text: Option<Seq<char>>,
}

impl View for AmaQuery {
    type V = QueryView;

    open spec fn view(&self) -> QueryView {
        QueryView {
            url_id: self.url_id@,
            question_text: opt_view(self.question_text),
            answer_text: opt_view(self.answer_text),
        }
    }
}

impl AmaQuery {
    /// A query for `url_id` with nothing fetched yet.
    pub fn new(url_id: String) -> (r: AmaQuery)
        ensures
            r@ == (QueryView { url_id: url_id@, question_text: None, answer_text: None }),
    {
        AmaQuery { url_id, question_text: None, answer_text: None }
    }

    /// The answer is there: the fetch for this reply is done.
    pub open spec fn complete(&self) -> bool {
        self.answer_text is Some
    }

    /// Whether the answer has been fetched.
    pub fn is_complete(&self) -> (r: bool)
        ensures
            r == self.complete(),
    {
        self.answer_text.is_some()
    }
}

/// The text pieces of every `usertext-body` element of the page parsed from
/// `html`, element by element, in the order in which `scraper` selects them.
pub uninterp spec fn body_pieces_of(html: Seq<char>) -> Seq<Seq<Seq<char>>>;

/// The text of each comment body of the page `html`: its pieces joined.
pub open spec fn body_texts_of(html: Seq<char>) -> Seq<Seq<char>> {
    body_pieces_of(html).map_values(|p: Seq<Seq<char>>| p.flatten())
}

/// The text nodes under `node`, in document order, as
/// `scraper::ElementRef::text` yields them. The node lies in a tree that is
/// borrowed read-only for as long as the reference lives.
pub uninterp spec fn element_texts_of(node: ElementRef) -> Seq<Seq<char>>;

/// Relies on `scraper::ElementRef::text`: the text nodes under the element.
#[verifier::external_body]
fn text_pieces(node: &ElementRef) -> (r: Vec<String>)
    ensures
        texts_view(r@) == element_texts_of(*node),
{
    node.text().map(|t| t.to_string()).collect()
}

/// Relies on `scraper`: `Html::parse_document`, `Html::select` with the
/// selector `.usertext-body`, and `ElementRef::text` of each match. Depends on
/// the page text alone.
#[verifier::external_body]
fn body_pieces(html: &str) -> (r: Vec<Vec<String>>)
    ensures
        r@.map_values(|v: Vec<String>| texts_view(v@)) == body_pieces_of(html@),
{
    let doc = scraper::Html::parse_document(html);
    let bodies = scraper::Selector::parse(".usertext-body").unwrap();
    doc.select(&bodies).map(|e| e.text().map(|t| t.to_string()).collect()).collect()
}

/// The pieces of text joined in order.
pub fn concat_texts(pieces: &Vec<String>) -> (r: String)
    ensures
        r@ == texts_view(pieces@).flatten(),
{
    let mut buffer = String::new();
    let mut i: usize = 0;
    while i < pieces.len()
        invariant
            i <= pieces.len(),
            buffer@ == texts_view(pieces@.take(i as int)).flatten(),
        decreases pieces.len() - i,
    {
        proof {
            let before = texts_view(pieces@.take(i as int));
            assert(texts_view(pieces@.take(i + 1)) =~= before.push(pieces@[i as int]@));
            before.lemma_flatten_push(pieces@[i as int]@);
        }
        buffer.append(pieces[i].as_str());
        i = i + 1;
    }
    assert(pieces@.take(i as int) =~= pieces@);
    buffer
}

/// The text under an element: its text nodes joined in document order, with
/// nothing trimmed or put between them.
pub fn get_html_text(usertext_node: ElementRef) -> (r: Option<String>)
    ensures
        r matches Some(t) && t@ == element_texts_of(usertext_node).flatten(),
{
    let pieces = text_pieces(&usertext_node);
    Some(concat_texts(&pieces))
}

/// The text of each comment body of a reply page.
pub fn page_bodies(page_html: &str) -> (r: Vec<String>)
    ensures
        texts_view(r@) == body_texts_of(page_html@),
{
    let pieces = body_pieces(page_html);
    let ghost pv = pieces@.map_values(|v: Vec<String>| texts_view(v@));
    let mut out: Vec<String> = Vec::new();
    let mut i: usize = 0;
    while i < pieces.len()
        invariant
            i <= pieces.len(),
            pv == pieces@.map_values(|v: Vec<String>| texts_view(v@)),
            pv == body_pieces_of(page_html@),
            texts_view(out@) =~= body_texts_of(page_html@).take(i as int),
        decreases pieces.len() - i,
    {
        let text = concat_texts(&pieces[i]);
        assert(pv[i as int] == texts_view(pieces@[i as int]@));
        let ghost all = body_texts_of(page_html@);
        assert(all[i as int] == pv[i as int].flatten());
        let ghost before = texts_view(out@);
        out.push(text);
        assert(texts_view(out@) =~= before.push(text@));
        assert(all.take(i + 1) =~= all.take(i as int).push(all[i as int]));
        i = i + 1;
    }
    out
}

/// `q` after reading the comment bodies `bodies` of its page: the second body
/// is the question, the third the answer; a body that is missing leaves its
/// field as it was, and bodies after the third are ignored.
pub open spec fn with_bodies(q: QueryView, bodies: Seq<Seq<char>>) -> QueryView {
    QueryView {
        url_id: q.url_id,
        question_text: if bodies.len() > 1 {
            Some(bodies[1])
        } else {
            q.question_text
        },
        answer_text: if bodies.len() > 2 {
            Some(bodies[2])
        } else {
            q.answer_text
        },
    }
}

/// Fills the question and answer of `ama_query` from the comment bodies of its page.
pub fn apply_bodies(ama_query: &mut AmaQuery, bodies: &Vec<String>)
    ensures
        final(ama_query)@ == with_bodies(old(ama_query)@, texts_view(bodies@)),
{
    if bodies.len() > 1 {
        ama_query.question_text = Some(bodies[1].clone());
    }
    if bodies.len() > 2 {
        ama_query.answer_text = Some(bodies[2].clone());
    }
}

/// Fills the question and answer of `ama_query` from the HTML of its page.
pub fn update_from_page(page_html: &str, ama_query: &mut AmaQuery)
    ensures
        final(ama_query)@ == with_bodies(old(ama_query)@, body_texts_of(page_html@)),
{
    let bodies = page_bodies(page_html);
    apply_bodies(ama_query, &bodies);
}

} // verus!
