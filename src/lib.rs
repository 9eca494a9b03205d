//! Crawling a houseplant catalog: the rules that turn fetched pages into records.
//!
//! Fetching, writing images to disk and running work concurrently are left to the
//! caller; this crate decides what to fetch next and what a page means.

pub mod model;
pub mod text;
pub mod classify;
pub mod html;
pub mod pages;
pub mod crawl;
pub mod detail;
