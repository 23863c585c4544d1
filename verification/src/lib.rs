//! A verified core for a music-library service: user accounts with password
//! login and signed tokens, a song catalog with search, and playlists that
//! keep their songs in order.

pub mod api;
pub mod config;
pub mod error;
pub mod ids;
pub mod laws;
pub mod middleware;
pub mod models;
pub mod order;
pub mod services;
pub mod store;
pub mod text;
pub mod upload;
pub mod utils;
