//! Household memory bank: the verified core of the gunita server.
pub mod text;
pub mod filetype;
pub mod months;
pub mod order;
pub mod browse;
pub mod media;
pub mod cache;
pub mod config;
pub mod models;
pub mod state;
pub mod messages;
pub mod laws;
pub mod url;
