//! A configuration-driven extraction library for manga-hosting web pages.
//!
//! Site behaviour is described by declarative selector rules; the engine
//! resolves those rules against a parsed document and assembles structured
//! records (manga metadata, chapter lists, image URL lists, search results).

pub mod config;
pub mod date;
pub mod dom;
pub mod engine;
pub mod error;
pub mod number;
pub mod outside;
pub mod legacy;
pub mod manager;
pub mod mangadex;
pub mod middleware;
pub mod watcher;
pub mod model;
pub mod rawconf;
pub mod search;
pub mod strutil;
pub mod textpipe;
