//! The hub's data: users, messages and the feed.
pub mod feed;
pub mod message;
pub mod user;
