//! Mailing lists archived on lore.
pub use crate::mailing_list::{sort_mailing_lists, MailingList};
