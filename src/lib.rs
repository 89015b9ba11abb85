//! A chat broadcast hub: a registry of joined users, a feed of posted messages, and
//! the addressing of every output event to the clients that must receive it.
pub mod client;
pub mod clock;
pub mod hub;
pub mod ids;
pub mod laws;
pub mod model;
pub mod proto;
pub mod text;
