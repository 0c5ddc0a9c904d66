pub mod account_manager;
pub mod column;
pub mod counts;
pub mod keys;
pub mod route;
pub mod timeline;
pub mod timeline_cache;
