//! Feed serving and event ingestion for a follow-based social feed.
//!
//! - `store`: the tables (follow edges, posts, reposts, likes, preferences, the seen-post
//!   tiers, stream cursors) and their invariants.
//! - `feed`: which rows a page may hold and in which order; the feed request itself.
//! - `order`: newest-first order with content-identifier tie-break, and top-k selection.
//! - `cursor`: the `"<epochMillis>::<contentId>"` page cursor.
//! - `seen`: the fetched window and its graduation into seen posts.
//! - `ingest`: create and delete events, including likes of sentinel identifiers.
//! - `prefs`: preferences and the sentinel command table.
//! - `bootstrap`: the paging decisions and record decoding of a follow-graph bootstrap.
//! - `api`: stream cursors, preference reads and writes.
//! - `laws`: properties that hold across operations.
//!
//! Times are milliseconds since the epoch; the caller supplies the current time.
pub mod api;
pub mod bootstrap;
pub mod cursor;
pub mod feed;
pub mod ingest;
pub mod laws;
pub mod model;
pub mod order;
pub mod prefs;
pub mod seen;
pub mod store;
pub mod table;
