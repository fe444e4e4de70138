//! Mirrors a remote content distribution network's file manifest to local
//! disk: an index document names the CDN mirrors and a resource manifest,
//! the manifest lists destination paths and sizes, an optional glob filter
//! selects entries, and a bounded-concurrency pipeline downloads them.
//!
//! This crate holds the verified logic: the data model and URL/path
//! derivation (`cdn`), glob selection (`selection`), and the download
//! pipeline's state machine (`pipeline`). The surrounding process — HTTP,
//! the filesystem, the terminal — drives these through their contracts.
pub mod cdn;
pub mod pipeline;
pub mod selection;
