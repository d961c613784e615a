//! What the archive accepts. The archive itself is a file-backed store kept
//! outside the library; here are the rules on the rows handed to it.
use vstd::prelude::*;
use crate::ama_scraper::AmaQuery;

verus! {

/// Why the archive refused an operation.
#[derive(PartialEq, Eq, Debug, Clone, Copy, Structural)]
pub enum StoreError {
    /// The reply still lacks its question or its answer.
    Incomplete,
    /// A reply with the same reference id is archived already.
    DuplicateKey,
    /// The tables exist already.
    TableExists,
    /// The store failed otherwise.
    Storage,
}

/// The row stored for a reply: reference id, question, answer.
pub struct EnrichedRow {
    pub url_id: String,
    pub question_text: String,
    pub answer_text: String,
}

/// The row for `ama_query`, which is only stored with both its question and
/// its answer.
pub fn enriched_row(ama_query: &AmaQuery) -> (r: Result<EnrichedRow, StoreError>)
    ensures
        match (ama_query.question_text, ama_query.answer_text) {
            (Some(q), Some(a)) => r matches Ok(row) && row.url_id@ == ama_query.url_id@
                && row.question_text@ == q@ && row.answer_text@ == a@,
            _ => r == Err::<EnrichedRow, StoreError>(StoreError::Incomplete),
        },
{
    match (&ama_query.question_text, &ama_query.answer_text) {
        (Some(q), Some(a)) => Ok(
            EnrichedRow {
                url_id: ama_query.url_id.clone(),
                question_text: q.clone(),
                answer_text: a.clone(),
            },
        ),
        _ => Err(StoreError::Incomplete),
    }
}

} // verus!
