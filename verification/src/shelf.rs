//! The bookshelf site builder's own logic: configuration validation, the
//! input catalog, generated index pages, site-root links and search
//! composition.
pub mod search;
pub mod ui;
pub mod config;
pub mod root_page;
pub mod doc_index;
pub mod site_links;
pub mod json;
pub mod catalog;
pub mod payload;
