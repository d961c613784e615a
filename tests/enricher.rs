use ama_archiver::ama_indexer::AmaRecord;
use ama_archiver::ama_scraper::AmaQuery;
use ama_archiver::enricher::{next_step, pending_references, EnrichStep};

fn record(id: &str) -> AmaRecord {
    AmaRecord { cc_name: "cc".to_string(), fan_name: "fan".to_string(), url_id: id.to_string() }
}

fn done(id: &str) -> AmaQuery {
    AmaQuery {
        url_id: id.to_string(),
        question_text: Some("q".to_string()),
        answer_text: Some("a".to_string()),
    }
}

#[test]
fn resume_fetches_only_the_missing_reference() {
    let index = vec![record("a"), record("b"), record("c")];
    let enriched = vec![done("a"), done("b")];
    assert_eq!(pending_references(&index, &enriched), vec!["c".to_string()]);
}

#[test]
fn fresh_run_fetches_everything_in_order() {
    let index = vec![record("1"), record("2"), record("1")];
    assert_eq!(
        pending_references(&index, &Vec::new()),
        vec!["1".to_string(), "2".to_string(), "1".to_string()]
    );
}

#[test]
fn finished_run_fetches_nothing() {
    let index = vec![record("1"), record("2")];
    let enriched = vec![done("2"), done("1"), done("9")];
    assert!(pending_references(&index, &enriched).is_empty());
}

#[test]
fn answered_reply_is_saved() {
    assert_eq!(next_step(&done("a"), 1, None), EnrichStep::Save);
    assert_eq!(next_step(&done("a"), 5, Some(3)), EnrichStep::Save);
}

#[test]
fn unanswered_reply_is_fetched_again() {
    let query = AmaQuery::new("a".to_string());
    assert_eq!(next_step(&query, 0, None), EnrichStep::Fetch);
    assert_eq!(next_step(&query, 1000, None), EnrichStep::Fetch);
    assert_eq!(next_step(&query, 2, Some(3)), EnrichStep::Fetch);
}

#[test]
fn spent_attempts_give_up() {
    let query = AmaQuery::new("a".to_string());
    assert_eq!(next_step(&query, 3, Some(3)), EnrichStep::GiveUp);
    assert_eq!(next_step(&query, 0, Some(0)), EnrichStep::GiveUp);
}
