//! lore.kernel.org: patches, feeds and mailing lists.
pub mod application;
pub mod domain;
pub mod infrastructure;
pub mod lore_api_client;
pub mod mailing_list;
pub mod patch;
