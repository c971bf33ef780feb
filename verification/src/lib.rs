//! A web-crawling and backlink-discovery engine: a prioritized URL frontier,
//! robots.txt rules, HTML metadata extraction, backlink scoring, a clock-driven
//! mode scheduler, and an in-memory catalog of everything that was crawled.
//!
//! Network and disk I/O stay outside this crate; the functions here take the
//! fetched bytes, the clock readings and the parsed values as arguments and
//! are verified against their contracts.

pub mod backlink;
pub mod catalog;
pub mod engine;
pub mod extract;
pub mod frontier;
pub mod models;
pub mod robots;
pub mod scheduler;
pub mod scoring;
pub mod text;
pub mod urls;
