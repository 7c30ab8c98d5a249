//! Crawl, diff and notify: the decision logic of a watcher for paginated
//! classified-listing searches.
//!
//! The crate decides and the caller acts. Fetching pages, delivering
//! messages, keeping state on disk and running the timer are left to the
//! caller, who drives the types here with plain values: a [`cycle::Cycle`]
//! says which page to fetch and which messages to deliver, and takes in
//! what the fetch returned.
//!
//! All of it is verified except the document queries in [`markup`], which
//! are handed to the `scraper` crate and taken on trust.

pub mod crawl;
pub mod cycle;
pub mod dispatch;
pub mod extract;
pub mod history;
pub mod ledger;
pub mod listing;
pub mod markup;
pub mod novelty;
pub mod registry;
pub mod reply;
pub mod table;
pub mod text;
pub mod tracker;
