//! A depth-bounded web crawler: link extraction from tokenised HTML pages,
//! resolution of the links against the page's origin, and the level-by-level
//! schedule of a crawl whose fetches are made by the caller.

pub mod web_url;
pub mod token;
pub mod links;
pub mod crawl;
