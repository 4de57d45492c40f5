//! Deduplicated search over the full commit history of a git repository.
//!
//! The library enumerates the commits reachable from a starting point, walks
//! each commit's file tree, and guarantees that a content object already
//! searched under one commit and path is never searched again under another.
//! Repository access and pattern matching are outside capabilities, reached
//! through a small set of trusted wrappers; the traversal, path bookkeeping,
//! and deduplication logic are verified.

pub mod dedup;
pub mod gitio;
pub mod grepio;
pub mod oid;
pub mod paths;
pub mod registry;
pub mod searcher;

pub use oid::Oid;
pub use registry::DedupRegistry;
pub use searcher::{GitSearcher, RunCounters, SearchError, TreeEntry, VisitAction, VisitOutcome};
