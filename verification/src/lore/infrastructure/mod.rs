//! lore's side of the world: the HTTP gateway, patchset downloads, and the
//! mbox files they produce.
pub mod http_lore_client;
pub mod parsers;
pub mod patchset_fetcher;
pub mod patchset_parser;
pub mod persistence;
