//! myfeed: the logic of a personal feed bot that crawls sites through
//! browser recipes, deduplicates items and delivers them to Telegram
//! and to an Atom feed.

pub mod text;
pub mod telegram;
pub mod scan;
pub mod decimal;
pub mod db;
pub mod scheduler;
pub mod feed;
pub mod config;
pub mod proto;
pub mod json;
pub mod crawler;
pub mod notifier;
pub mod output;
pub mod cli;
