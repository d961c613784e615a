//! The decisions of the enrichment run: which references still need their
//! page, when a reply is ready to be stored, and when to try its page again.
//!
//! The run itself (fetching pages, talking to the store) happens outside the
//! library, which hands each decision back as a plain value.
use vstd::prelude::*;
use crate::ama_indexer::{AmaRecord, RecordView, records_view};
use crate::ama_scraper::{AmaQuery, QueryView};
use crate::document::texts_view;

verus! {

/// The reference ids of the index, in index order.
pub open spec fn index_ids(index: Seq<RecordView>) -> Seq<Seq<char>> {
    index.map_values(|r: RecordView| r.url_id)
}

/// The reference ids already stored with their text.
pub open spec fn archived_ids(done: Seq<QueryView>) -> Seq<Seq<char>> {
    done.map_values(|q: QueryView| q.url_id)
}

/// The references of `index` that still need their page: those not in
/// `done`, in index order, once per record.
pub open spec fn pending_of(index: Seq<RecordView>, done: Seq<QueryView>) -> Seq<Seq<char>> {
    index_ids(index).filter(|id: Seq<char>| !archived_ids(done).contains(id))
}

/// The models of a sequence of queries.
pub open spec fn queries_view(v: Seq<AmaQuery>) -> Seq<QueryView> {
    v.map_values(|q: AmaQuery| q@)
}

/// Whether `id` is among `ids`.
fn contains_id(ids: &Vec<String>, id: &String) -> (r: bool)
    ensures
        r == texts_view(ids@).contains(id@),
{
    let ghost iv = texts_view(ids@);
    let mut i: usize = 0;
    while i < ids.len()
        invariant
            i <= ids.len(),
            iv == texts_view(ids@),
            forall|j: int| 0 <= j < i ==> iv[j] != id@,
        decreases ids.len() - i,
    {
        assert(iv[i as int] == ids@[i as int]@);
        if ids[i].eq(id) {
            return true;
        }
        i = i + 1;
    }
    false
}

/// The references of `index` whose replies are not among `enriched` yet, in
/// index order: the pages that a resumed run still has to fetch.
pub fn pending_references(index: &Vec<AmaRecord>, enriched: &Vec<AmaQuery>) -> (r: Vec<String>)
    ensures
        texts_view(r@) == pending_of(records_view(index@), queries_view(enriched@)),
{
    let ghost done = queries_view(enriched@);
    let mut ids: Vec<String> = Vec::new();
    let mut k: usize = 0;
    while k < enriched.len()
        invariant
            k <= enriched.len(),
            done == queries_view(enriched@),
            texts_view(ids@) =~= archived_ids(done).take(k as int),
        decreases enriched.len() - k,
    {
        let id = enriched[k].url_id.clone();
        assert(archived_ids(done)[k as int] == id@);
        assert(archived_ids(done).take(k + 1) =~= archived_ids(done).take(k as int).push(id@));
        let ghost before = texts_view(ids@);
        ids.push(id);
        assert(texts_view(ids@) =~= before.push(id@));
        k = k + 1;
    }
    assert(archived_ids(done).take(k as int) =~= archived_ids(done));
    let ghost all = index_ids(records_view(index@));
    let ghost pred = |id: Seq<char>| !archived_ids(done).contains(id);
    let mut out: Vec<String> = Vec::new();
    let mut i: usize = 0;
    assert(all.take(0) =~= Seq::<Seq<char>>::empty());
    proof {
        reveal(Seq::filter);
    }
    while i < index.len()
        invariant
            i <= index.len(),
            all == index_ids(records_view(index@)),
            texts_view(ids@) == archived_ids(done),
            pred == (|id: Seq<char>| !archived_ids(done).contains(id)),
            texts_view(out@) == all.take(i as int).filter(pred),
        decreases index.len() - i,
    {
        let id = &index[i].url_id;
        assert(all[i as int] == id@);
        assert(all.take(i + 1) =~= all.take(i as int).push(id@));
        proof {
            all.take(i as int).lemma_filter_push(id@, pred);
        }
        if !contains_id(&ids, id) {
            let ghost before = texts_view(out@);
            out.push(id.clone());
            assert(texts_view(out@) =~= before.push(id@));
        }
        i = i + 1;
    }
    assert(all.take(i as int) =~= all);
    out
}

/// Resuming a run fetches exactly the references of the index that are not
/// archived yet: each of those as often as the index lists it, and none of
/// the archived ones.
pub proof fn lemma_resume_fetches_only_missing(index: Seq<RecordView>, done: Seq<QueryView>)
    ensures
        forall|id: Seq<char>| #[trigger]
            pending_of(index, done).to_multiset().count(id) == if archived_ids(done).contains(id) {
                0
            } else {
                index_ids(index).to_multiset().count(id)
            },
    decreases index.len(),
{
    let pred = |id: Seq<char>| !archived_ids(done).contains(id);
    if index.len() == 0 {
        assert(index_ids(index) =~= Seq::<Seq<char>>::empty());
        reveal(Seq::filter);
        assert(pending_of(index, done) =~= Seq::<Seq<char>>::empty());
        index_ids(index).to_multiset_ensures();
        pending_of(index, done).to_multiset_ensures();
        assert forall|id: Seq<char>| #[trigger]
            pending_of(index, done).to_multiset().count(id) == 0 && index_ids(
                index,
            ).to_multiset().count(id) == 0 by {
            assert(!pending_of(index, done).contains(id));
            assert(!index_ids(index).contains(id));
        }
    } else {
        let prev = index.drop_last();
        lemma_resume_fetches_only_missing(prev, done);
        let x = index.last().url_id;
        assert(index_ids(index) =~= index_ids(prev).push(x));
        index_ids(prev).lemma_filter_push(x, pred);
        index_ids(prev).to_multiset_ensures();
        index_ids(prev).filter(pred).to_multiset_ensures();
        assert(pending_of(prev, done) == index_ids(prev).filter(pred));
        assert forall|id: Seq<char>| #[trigger]
            pending_of(index, done).to_multiset().count(id) == if archived_ids(done).contains(id) {
                0
            } else {
                index_ids(index).to_multiset().count(id)
            } by {
            assert(pending_of(prev, done).to_multiset().count(id) == if archived_ids(done).contains(
                id,
            ) {
                0
            } else {
                index_ids(prev).to_multiset().count(id)
            });
        }
    }
}

/// What a run does next for one reply.
#[derive(PartialEq, Eq, Debug, Clone, Copy, Structural)]
pub enum EnrichStep {
    /// Fetch the reply's page (again).
    Fetch,
    /// The answer is there: store the reply.
    Save,
    /// The allowed attempts are spent without an answer.
    GiveUp,
}

/// The step after `attempts` fetches of a reply whose answer is there or not:
/// store it once answered; otherwise fetch again, unless a limit is set and
/// `attempts` has reached it. Without a limit a reply is fetched until it is
/// answered.
pub open spec fn step_for(complete: bool, attempts: nat, max_attempts: Option<nat>) -> EnrichStep {
    if complete {
        EnrichStep::Save
    } else {
        match max_attempts {
            Some(m) => if attempts >= m {
                EnrichStep::GiveUp
            } else {
                EnrichStep::Fetch
            },
            None => EnrichStep::Fetch,
        }
    }
}

/// Decides the next step for `query` after `attempts` fetches of its page.
pub fn next_step(query: &AmaQuery, attempts: u32, max_attempts: Option<u32>) -> (r: EnrichStep)
    ensures
        r == step_for(
            query.complete(),
            attempts as nat,
            match max_attempts {
                Some(m) => Some(m as nat),
                None => None,
            },
        ),
{
    if query.is_complete() {
        EnrichStep::Save
    } else {
        match max_attempts {
            Some(m) => if attempts >= m {
                EnrichStep::GiveUp
            } else {
                EnrichStep::Fetch
            },
            None => EnrichStep::Fetch,
        }
    }
}

} // verus!
