//! The blocking lore client, under the lore module.
pub use crate::lore_api_client::{
    AvailableListsRequest, BlockingLoreAPIClient, ClientError, PatchFeedRequest, PatchHTMLRequest,
};
