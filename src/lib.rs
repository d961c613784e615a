//! Archives a discussion thread: reconstructs its index of replies from the
//! thread's link page, and enriches each reply with the question and answer
//! text fetched from the reply's own page.
pub mod ama_indexer;
pub mod ama_scraper;
pub mod archive;
pub mod document;
pub mod enricher;
pub mod locator;
