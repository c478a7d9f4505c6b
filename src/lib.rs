//! Feed ingestion and caching for a portfolio site: RSS items are normalised
//! into articles with a resolved illustration, merged newest first, and served
//! page by page. Around it: contact-form rules, the request screen against
//! MongoDB operators, per-client rate limiting, configuration, and backup
//! decisions.

pub mod text;
pub mod article;
pub mod feed;
pub mod store;
pub mod contact;
pub mod sanitizer;
pub mod config;
pub mod rate_limit;
pub mod backup;
