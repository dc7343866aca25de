//! Routing, navigation, search and bookshelf page logic for multi-book
//! documentation sites built on mdBook.
//!
//! Path values are held as `String`s whose meaning is their list of
//! components (see `paths::components`): two paths are the same path when they
//! have the same components, as with `std::path::Path`.
pub mod text;
pub mod paths;
pub mod escape;
pub mod search;
pub mod renderer;
pub mod route_paths;
pub mod render_manifest;
pub mod shelf;
pub mod input_catalog;
pub mod render_html;
pub mod catalog;
pub mod loader;
pub mod numbers;
pub mod site_model;
pub mod navigation;
pub mod search_model;
pub mod reader_site;
pub mod sidebar;
pub mod reader_context;
pub mod page_render;
pub mod json_read;
pub mod search_index;
pub mod return_link;
pub mod html_site;
pub mod site_config;
pub mod serve;
pub mod cli;
pub mod config_projection;
pub mod watch;
