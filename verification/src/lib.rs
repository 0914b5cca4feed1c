//! Verified core of a distributed web crawler: robots.txt rules, link and
//! text extraction, storage keys, and the decisions of the crawl and parse
//! workers.

pub mod clock;
pub mod config;
pub mod document;
pub mod html;
pub mod models;
pub mod records;
pub mod robots;
pub mod storage;
pub mod text;
pub mod worker;
pub mod urls;
