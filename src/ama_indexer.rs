//! The index of a thread: which reply belongs to which creator.
//!
//! The link page lists, after a start marker, runs of the form
//! `<p><strong>creator:</strong></p>` followed by `<p><a href=..>fan</a></p>`
//! blocks. Extraction walks those blocks in order and emits one record per link.
use vstd::prelude::*;
use crate::document::{
    blocks_after_strong, blocks_following_strong, opt_view, shapes, strong_texts,
    strong_texts_of, texts_view, Block, BlockShape,
};
use crate::locator::{get_urlid, has_reference_segment, reference_segment};

verus! {

/// The character that ends the text of a group marker.
pub const GROUP_SEPARATOR: char = ':';

/// One reply of the thread: the creator it was asked of, the fan who asked,
/// and the reference of the exchange.
#[derive(PartialEq, Debug, Clone)]
pub struct AmaRecord {
    pub cc_name: String,
    pub fan_name: String,
    pub url_id: String,
}

/// The model of an [`AmaRecord`].
pub struct RecordView {
    pub cc_name: Seq<char>,
    pub fan_name: Seq<char>,
    pub url_id: Seq<char>,
}

impl View for AmaRecord {
    type V = RecordView;

    open spec fn view(&self) -> RecordView {
        RecordView { cc_name: self.cc_name@, fan_name: self.fan_name@, url_id: self.url_id@ }
    }
}

/// Why extraction gave up.
#[derive(PartialEq, Eq, Debug, Clone, Copy, Structural)]
pub enum ExtractError {
    /// No `<strong>` element holds exactly the start marker.
    MarkerNotFound,
    /// A group marker does not end in the separator, or holds nothing before it.
    MalformedGroupLabel,
    /// A link block has no `href`.
    MissingLink,
}

/// The models of a sequence of records.
pub open spec fn records_view(v: Seq<AmaRecord>) -> Seq<RecordView> {
    v.map_values(|r: AmaRecord| r@)
}

/// The model of an extraction result.
pub open spec fn index_view(r: Result<Vec<AmaRecord>, ExtractError>) -> Result<
    Seq<RecordView>,
    ExtractError,
> {
    match r {
        Ok(v) => Ok(records_view(v@)),
        Err(e) => Err(e),
    }
}

/// Tag name of a group marker.
pub open spec fn group_tag() -> Seq<char> {
    seq!['s', 't', 'r', 'o', 'n', 'g']
}

/// Tag name of an item.
pub open spec fn item_tag() -> Seq<char> {
    seq!['a']
}

/// The label of a group marker: its text without the trailing separator, where
/// the text ends in the separator and holds something before it.
pub open spec fn group_label(text: Seq<char>) -> Option<Seq<char>> {
    if text.len() >= 2 && text.last() == GROUP_SEPARATOR {
        Some(text.drop_last())
    } else {
        None
    }
}

/// `acc` followed by the records of `r`, or the error of `r`.
pub open spec fn after(acc: Seq<RecordView>, r: Result<Seq<RecordView>, ExtractError>) -> Result<
    Seq<RecordView>,
    ExtractError,
> {
    match r {
        Ok(rs) => Ok(acc + rs),
        Err(e) => Err(e),
    }
}

/// The records of `blocks` under the current group `label`: a block without a
/// child is passed over, a group marker changes the label, a link gives a
/// record, and any other block ends the walk.
pub open spec fn records_after(label: Seq<char>, blocks: Seq<BlockShape>) -> Result<
    Seq<RecordView>,
    ExtractError,
>
    decreases blocks.len(),
{
    if blocks.len() == 0 {
        Ok(Seq::empty())
    } else {
        let rest = blocks.drop_first();
        match blocks[0] {
            BlockShape::Childless => records_after(label, rest),
            BlockShape::Unmarked => Ok(Seq::empty()),
            BlockShape::Element { tag, text, link } => {
                if tag == group_tag() {
                    match group_label(text) {
                        Some(l) => records_after(l, rest),
                        None => Err(ExtractError::MalformedGroupLabel),
                    }
                } else if tag == item_tag() {
                    match link {
                        Some(h) => after(
                            seq![RecordView { cc_name: label, fan_name: text, url_id: h }],
                            records_after(label, rest),
                        ),
                        None => Err(ExtractError::MissingLink),
                    }
                } else {
                    Ok(Seq::empty())
                }
            },
        }
    }
}

/// The records of the blocks that follow the start marker `start`.
pub open spec fn records_from_blocks(start: Seq<char>, blocks: Seq<BlockShape>) -> Result<
    Seq<RecordView>,
    ExtractError,
> {
    match group_label(start) {
        Some(l) => records_after(l, blocks),
        None => Err(ExtractError::MalformedGroupLabel),
    }
}

/// Position of the first text equal to `t`.
pub open spec fn first_match(texts: Seq<Seq<char>>, t: Seq<char>) -> Option<nat>
    decreases texts.len(),
{
    if texts.len() == 0 {
        None
    } else if texts[0] == t {
        Some(0)
    } else {
        match first_match(texts.drop_first(), t) {
            Some(k) => Some(k + 1),
            None => None,
        }
    }
}

/// The index held in the document `html` after the start marker `start`.
pub open spec fn index_of_document(html: Seq<char>, start: Seq<char>) -> Result<
    Seq<RecordView>,
    ExtractError,
> {
    match first_match(strong_texts_of(html), start) {
        Some(k) => records_from_blocks(start, blocks_following_strong(html, k)),
        None => Err(ExtractError::MarkerNotFound),
    }
}

/// Walking blocks never reports a missing start marker.
pub proof fn lemma_records_after_no_marker_error(label: Seq<char>, blocks: Seq<BlockShape>)
    ensures
        records_after(label, blocks) != Err::<Seq<RecordView>, ExtractError>(
            ExtractError::MarkerNotFound,
        ),
    decreases blocks.len(),
{
    if blocks.len() > 0 {
        let rest = blocks.drop_first();
        lemma_records_after_no_marker_error(label, rest);
        match blocks[0] {
            BlockShape::Element { tag, text, link } => {
                if let Some(l) = group_label(text) {
                    lemma_records_after_no_marker_error(l, rest);
                }
            },
            _ => {},
        }
    }
}

/// `first_match` finds the first equal text, and nothing where none is equal.
pub proof fn lemma_first_match(texts: Seq<Seq<char>>, t: Seq<char>)
    ensures
        match first_match(texts, t) {
            Some(k) => k < texts.len() && texts[k as int] == t && forall|j: int|
                0 <= j < k ==> texts[j] != t,
            None => !texts.contains(t),
        },
    decreases texts.len(),
{
    if texts.len() > 0 && texts[0] != t {
        let d = texts.drop_first();
        lemma_first_match(d, t);
        match first_match(d, t) {
            Some(k) => {
                assert forall|j: int| 0 <= j < k + 1 implies texts[j] != t by {
                    if j > 0 {
                        assert(texts[j] == d[j - 1]);
                    }
                }
            },
            None => {
                if texts.contains(t) {
                    let j = choose|j: int| 0 <= j < texts.len() && texts[j] == t;
                    assert(d[j - 1] == t);
                }
            },
        }
    }
}

/// Position of the first of `texts` that equals `start`, as `first_match` gives it.
pub fn find_marker(texts: &Vec<String>, start: &str) -> (r: Option<usize>)
    ensures
        r == (match first_match(texts_view(texts@), start@) {
            Some(k) => Some(k as usize),
            None => None::<usize>,
        }),
{
    let wanted = start.to_owned();
    let ghost tv = texts_view(texts@);
    let mut i: usize = 0;
    while i < texts.len()
        invariant
            i <= texts.len(),
            tv == texts_view(texts@),
            wanted@ == start@,
            forall|j: int| 0 <= j < i ==> tv[j] != start@,
        decreases texts.len() - i,
    {
        assert(tv[i as int] == texts@[i as int]@);
        if texts[i].eq(&wanted) {
            proof {
                lemma_first_match(tv, start@);
                match first_match(tv, start@) {
                    Some(k) => {
                        if k < i {
                            assert(tv[k as int] != start@);
                        } else if k > i {
                            assert(tv[i as int] == start@);
                        }
                    },
                    None => {
                        assert(tv[i as int] == start@);
                    },
                }
            }
            return Some(i);
        }
        i = i + 1;
    }
    proof {
        lemma_first_match(tv, start@);
        if first_match(tv, start@) is Some {
            let k = first_match(tv, start@)->Some_0;
            assert(tv[k as int] == start@);
        }
    }
    None
}

/// The label of a group marker whose text is `text`: the text without its
/// trailing separator.
pub fn strip_group_separator(text: &str) -> (r: Option<String>)
    ensures
        opt_view(r) == group_label(text@),
{
    let n = text.unicode_len();
    if n >= 2 && text.get_char(n - 1) == GROUP_SEPARATOR {
        let label = text.substring_char(0, n - 1).to_owned();
        assert(label@ =~= text@.drop_last());
        Some(label)
    } else {
        None
    }
}

/// Whether `tag` is the tag name `name`, which is given as a literal.
fn tag_is(tag: &String, name: &str) -> (r: bool)
    ensures
        r == (tag@ == name@),
{
    let owned = name.to_owned();
    tag.eq(&owned)
}

/// Builds the index from the blocks that follow the start marker `start_text`:
/// one record per link, under the label of the last group marker before it
/// (the start marker's own label first), up to the first block that is
/// neither a group marker nor a link.
pub fn extract_records(start_text: &str, blocks: &Vec<Block>) -> (r: Result<
    Vec<AmaRecord>,
    ExtractError,
>)
    ensures
        index_view(r) == records_from_blocks(start_text@, shapes(blocks@)),
{
    let mut label = match strip_group_separator(start_text) {
        Some(l) => l,
        None => return Err(ExtractError::MalformedGroupLabel),
    };
    proof {
        reveal_strlit("strong");
        reveal_strlit("a");
        assert("strong"@ =~= group_tag());
        assert("a"@ =~= item_tag());
    }
    let ghost bs = shapes(blocks@);
    let mut out: Vec<AmaRecord> = Vec::new();
    assert(bs.skip(0) =~= bs);
    assert(records_view(out@) =~= Seq::empty());
    proof {
        match records_after(label@, bs) {
            Ok(rs) => {
                assert(Seq::<RecordView>::empty() + rs =~= rs);
            },
            Err(e) => {},
        }
    }
    let mut i: usize = 0;
    while i < blocks.len()
        invariant
            i <= blocks.len(),
            bs == shapes(blocks@),
            "strong"@ == group_tag(),
            "a"@ == item_tag(),
            records_from_blocks(start_text@, bs) == after(
                records_view(out@),
                records_after(label@, bs.skip(i as int)),
            ),
        decreases blocks.len() - i,
    {
        let ghost rest = bs.skip(i as int);
        assert(rest[0] == bs[i as int]);
        assert(bs[i as int] == blocks@[i as int]@);
        assert(rest.drop_first() =~= bs.skip(i + 1));
        match &blocks[i] {
            Block::Childless => {},
            Block::Unmarked => {
                assert(records_view(out@) + Seq::empty() =~= records_view(out@));
                return Ok(out);
            },
            Block::Element { tag, text, link } => {
                if tag_is(tag, "strong") {
                    match strip_group_separator(text.as_str()) {
                        Some(l) => {
                            label = l;
                        },
                        None => {
                            return Err(ExtractError::MalformedGroupLabel);
                        },
                    }
                } else if tag_is(tag, "a") {
                    match link {
                        Some(h) => {
                            let record = AmaRecord {
                                cc_name: label.clone(),
                                fan_name: text.clone(),
                                url_id: h.clone(),
                            };
                            let ghost before = records_view(out@);
                            out.push(record);
                            assert(records_view(out@) =~= before + seq![record@]);
                            proof {
                                match records_after(label@, bs.skip(i + 1)) {
                                    Ok(rs) => {
                                        assert(before + (seq![record@] + rs) =~= records_view(out@)
                                            + rs);
                                    },
                                    Err(e) => {},
                                }
                            }
                        },
                        None => {
                            return Err(ExtractError::MissingLink);
                        },
                    }
                } else {
                    assert(records_view(out@) + Seq::empty() =~= records_view(out@));
                    return Ok(out);
                }
            },
        }
        i = i + 1;
    }
    assert(bs.skip(i as int) =~= Seq::empty());
    assert(records_view(out@) + Seq::empty() =~= records_view(out@));
    Ok(out)
}

/// Builds the index of the thread from the HTML of its link page: finds the
/// first `<strong>` element whose inner HTML is `start_text`, then extracts
/// the records from the blocks that follow the block holding it.
///
/// Without such an element the result is `MarkerNotFound` and no record.
pub fn compile_ama_index(raw_html: String, start_text: &str) -> (r: Result<
    Vec<AmaRecord>,
    ExtractError,
>)
    ensures
        index_view(r) == index_of_document(raw_html@, start_text@),
        r == Err::<Vec<AmaRecord>, ExtractError>(ExtractError::MarkerNotFound) <==> !strong_texts_of(
            raw_html@,
        ).contains(start_text@),
{
    let texts = strong_texts(raw_html.as_str());
    proof {
        lemma_first_match(strong_texts_of(raw_html@), start_text@);
    }
    match find_marker(&texts, start_text) {
        Some(k) => {
            let blocks = blocks_after_strong(raw_html.as_str(), k);
            proof {
                if let Some(l) = group_label(start_text@) {
                    lemma_records_after_no_marker_error(l, shapes(blocks@));
                }
            }
            extract_records(start_text, &blocks)
        },
        None => Err(ExtractError::MarkerNotFound),
    }
}

/// `r` with its reference replaced by the reference id that the locator holds.
pub open spec fn normalized(r: RecordView) -> RecordView {
    RecordView { cc_name: r.cc_name, fan_name: r.fan_name, url_id: reference_segment(r.url_id) }
}

/// Replaces the locator of each record by the reference id it holds. Where a
/// locator has no reference segment (no separator at all) the index is
/// returned unchanged, as `Err`.
pub fn normalize_references(index: Vec<AmaRecord>) -> (r: Result<Vec<AmaRecord>, Vec<AmaRecord>>)
    ensures
        (r is Ok) <==> forall|i: int|
            0 <= i < index@.len() ==> has_reference_segment(#[trigger] index@[i].url_id@),
        r matches Ok(v) ==> records_view(v@) == records_view(index@).map_values(
            |x: RecordView| normalized(x),
        ),
        r matches Err(v) ==> v@ == index@,
{
    let mut i: usize = 0;
    while i < index.len()
        invariant
            i <= index.len(),
            forall|j: int| 0 <= j < i ==> has_reference_segment(#[trigger] index@[j].url_id@),
        decreases index.len() - i,
    {
        if !crate::locator::holds_separator(index[i].url_id.as_str()) {
            return Err(index);
        }
        i = i + 1;
    }
    let mut out: Vec<AmaRecord> = Vec::new();
    let mut k: usize = 0;
    while k < index.len()
        invariant
            k <= index.len(),
            forall|j: int| 0 <= j < index@.len() ==> has_reference_segment(#[trigger] index@[j].url_id@),
            records_view(out@) =~= records_view(index@).map_values(
                |x: RecordView| normalized(x),
            ).take(k as int),
        decreases index.len() - k,
    {
        let record = &index[k];
        let url_id = get_urlid(record.url_id.clone());
        let normal = AmaRecord {
            cc_name: record.cc_name.clone(),
            fan_name: record.fan_name.clone(),
            url_id,
        };
        let ghost before = records_view(out@);
        out.push(normal);
        assert(records_view(out@) =~= before.push(normal@));
        k = k + 1;
    }
    Ok(out)
}

} // verus!
