//! Dagashi: keystroke statistics, gacha rarity tiers, pull bookkeeping and the
//! text handling around anime titles, character names and search queries.

pub mod gacha;
pub mod anime_db;
pub mod text;
pub mod stats;
pub mod config;
pub mod daemon;
pub mod image_pipeline;
pub mod storage;
pub mod giphy;
pub mod wiki;
pub mod klipy;
pub mod tenor;
pub mod jikan;
pub mod ipfs;
pub mod llm;
pub mod keylogger;
pub mod pull;
