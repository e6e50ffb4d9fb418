//! A bounded-depth, same-host web crawler core.
//!
//! The crate verifies the logic of a concurrent site crawler: the text
//! matcher that extracts a bounded context snippet around the first
//! occurrence of a query, the visited store whose claim operation is the
//! single deduplication gate, the link resolver that enforces the
//! same-host policy, and the crawl engine whose in-flight accounting
//! detects termination exactly. Network fetches, URL parsing and HTML
//! parsing are done by outside crates; the latter two stand behind
//! trusted wrappers, and the fetch is the caller's: the engine hands out
//! one task per claimed URL and takes back the outcome.

use vstd::prelude::*;

mod engine;
mod html;
mod links;
mod matcher;
mod store;

pub use engine::CrawlTask;
pub use engine::Crawler;
pub use engine::FetchOutcome;
pub use engine::Report;
pub use engine::Step;
pub use engine::TaskModel;
pub use engine::child_tasks;
pub use engine::lemma_child_tasks_ok;
pub use engine::lemma_completion_exact;
pub use engine::lemma_frontier_tasks_ok;
pub use html::hrefs_of;
pub use html::visible_text_of;
pub use links::PageUrl;
pub use links::UrlModel;
pub use links::resolve_link;
pub use links::resolve_spec;
pub use matcher::Snippet;
pub use matcher::SnippetModel;
pub use matcher::clip_end;
pub use matcher::clip_start;
pub use matcher::find_match;
pub use matcher::find_spec;
pub use matcher::first_match_at;
pub use matcher::first_match_index;
pub use matcher::has_match;
pub use matcher::lemma_first_match_exists;
pub use matcher::lemma_first_match_unique;
pub use matcher::lemma_snippet_contains_query;
pub use matcher::match_at;
pub use matcher::snippet_spec;
pub use matcher::str_chars;
pub use store::EntryModel;
pub use store::MatchEntry;
pub use store::MatchModel;
pub use store::StoreEntry;
pub use store::VisitedStore;
pub use store::claim_granted;
pub use store::lemma_claim_unique;
pub use store::lemma_matches_from_entries;
pub use store::matches_of;
pub use store::seq_contains_url;

verus! {

} // verus!
