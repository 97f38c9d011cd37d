//! Library core of the weekly-ad recipes server: the rules that turn grocery
//! flyer data into deals, hashes, cache keys and AI prompts.

pub mod ai_deals;
pub mod ai_requests;
pub mod calendar;
pub mod categorize;
pub mod config;
pub mod coordinates;
pub mod deals_cache;
pub mod deals_hash;
pub mod error;
pub mod flipp;
pub mod hmart;
pub mod inflight;
pub mod keyed;
pub mod meals;
pub mod models;
pub mod patterns;
pub mod queries;
pub mod routes;
pub mod text;
pub mod wfm_stores;
pub mod whole_foods;
