//! Application constants handed to the interface layer in one bundle.

use vstd::prelude::*;

verus! {

pub const LOAD_ALL_GAMES: i32 = 999999;

pub const DEFAULT_OFFSET: i32 = 0;

pub const POLLING_INTERVAL_MS: u64 = 2000;

pub const SEARCH_DEBOUNCE_MS: u64 = 300;

pub const ITEM_HEIGHT: u32 = 30;

pub const OVERSCAN: u32 = 5;

pub const POPULAR_FETCH_LIMIT: i32 = 9999;

pub const POPULAR_REFRESH_INTERVAL_MS: u64 = 3000;

pub const DISK_INFO_REFRESH_INTERVAL_MS: u64 = 30000;

/// Where a ready-made database can be fetched.
pub fn database_url() -> (r: String)
    ensures
        r@ == "http://157.230.16.45/repacks.db"@,
{
    "http://157.230.16.45/repacks.db".to_owned()
}

/// The constants, bundled for the interface layer.
#[derive(Debug, Clone)]
pub struct AppConstants {
    pub load_all_games: i32,
    pub default_offset: i32,
    pub polling_interval_ms: u64,
    pub search_debounce_ms: u64,
    pub item_height: u32,
    pub overscan: u32,
    pub popular_fetch_limit: i32,
    pub popular_refresh_interval_ms: u64,
    pub disk_info_refresh_interval_ms: u64,
    pub database_url: String,
}

impl AppConstants {
    /// The bundle of every constant.
    pub fn new() -> (r: AppConstants)
        ensures
            r.load_all_games == LOAD_ALL_GAMES,
            r.default_offset == DEFAULT_OFFSET,
            r.polling_interval_ms == POLLING_INTERVAL_MS,
            r.search_debounce_ms == SEARCH_DEBOUNCE_MS,
            r.item_height == ITEM_HEIGHT,
            r.overscan == OVERSCAN,
            r.popular_fetch_limit == POPULAR_FETCH_LIMIT,
            r.popular_refresh_interval_ms == POPULAR_REFRESH_INTERVAL_MS,
            r.disk_info_refresh_interval_ms == DISK_INFO_REFRESH_INTERVAL_MS,
            r.database_url@ == "http://157.230.16.45/repacks.db"@,
    {
        AppConstants {
            load_all_games: LOAD_ALL_GAMES,
            default_offset: DEFAULT_OFFSET,
            polling_interval_ms: POLLING_INTERVAL_MS,
            search_debounce_ms: SEARCH_DEBOUNCE_MS,
            item_height: ITEM_HEIGHT,
            overscan: OVERSCAN,
            popular_fetch_limit: POPULAR_FETCH_LIMIT,
            popular_refresh_interval_ms: POPULAR_REFRESH_INTERVAL_MS,
            disk_info_refresh_interval_ms: DISK_INFO_REFRESH_INTERVAL_MS,
            database_url: database_url(),
        }
    }
}

} // verus!
