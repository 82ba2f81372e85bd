//! The lore service: caches, results handed to the UI, and errors.
pub mod api;
pub mod cache;
pub mod dto;
pub mod errors;
pub mod service;
