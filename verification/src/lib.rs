//! Feed Parrot: turn the entries of RSS, Atom and JSON feeds into posts for
//! Mastodon. This crate holds the verified core: parsing of settings,
//! the model of feeds and their items, the composition of posts, and the
//! decisions taken while crawling feeds.
pub mod delay;

pub use delay::{Delay, ErrorMessage};
pub mod social_network;
pub mod text;
pub mod mastodon;
pub mod feed;
pub mod json_feed;
pub mod models;
pub mod config;
pub mod db;
pub mod time;
pub mod crawler;
pub mod xml;
pub mod plan;
pub mod twitter;
