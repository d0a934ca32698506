//! Harvesting of real-estate listings: classification of listing markup into
//! typed records, the record store's row format, the in-memory index that
//! decides which listings are due for a fetch, and the crawl that ties them
//! together one fetch at a time.

pub mod text;
pub mod pattern;
pub mod markup;
pub mod web;
pub mod lookup;
pub mod error;
pub mod area;
pub mod cond;
pub mod site;
pub mod time;
pub mod property;
pub mod plot;
pub mod listing;
pub mod parse;
pub mod row;
pub mod cache;
pub mod urls;
pub mod engine;
pub mod throttle;
pub mod crawl;
