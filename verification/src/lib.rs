//! Extraction pipeline for a paginated game-release catalog: text
//! normalization for titles and sizes, listing and detail extraction from
//! semi-structured HTML, blacklist filtering, popular-list parsing,
//! screenshot-gallery resolution, and the crawl controller's paging and
//! incremental-update rules.

pub mod blacklist;
pub mod constants;
pub mod crawl;
pub mod extract;
pub mod html;
pub mod magnet;
pub mod models;
pub mod popular;
pub mod registry;
pub mod screenshots;
pub mod sizes;
pub mod text;
pub mod title;
