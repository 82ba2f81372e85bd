//! The blocking lore client: a list's patch feed, the page of archived
//! lists, and a patch's HTML page, over an HTTP client.
use vstd::prelude::*;

use crate::infra::{HttpMethod, NetClientTrait};
use crate::lore::infrastructure::http_lore_client::{
    feed_page_url, feed_url_in, lists_page_url, lists_url_in, lore_domain, patch_html_url,
    patch_url_in,
};
use crate::text::str_eq;

verus! {

/// Why a request to lore failed.
#[derive(Debug, Clone, PartialEq, Eq)]
pub enum ClientError {
    /// The HTTP client's error message.
    Net(String),
    /// The feed has no more entries.
    EndOfFeed,
}

impl ClientError {
    pub fn message(&self) -> (r: String)
        ensures
            match self {
                ClientError::Net(s) => r@ == s@,
                ClientError::EndOfFeed => r@ == "Feed ended"@,
            },
    {
        match self {
            ClientError::Net(s) => s.clone(),
            ClientError::EndOfFeed => String::from_str("Feed ended"),
        }
    }
}

pub trait PatchFeedRequest {
    fn request_patch_feed(&self, target_list: &str, min_index: usize) -> Result<
        String,
        ClientError,
    >;
}

pub trait AvailableListsRequest {
    fn request_available_lists(&self, min_index: usize) -> Result<String, ClientError>;
}

pub trait PatchHTMLRequest {
    fn request_patch_html(&self, target_list: &str, message_id: &str) -> Result<
        String,
        ClientError,
    >;
}

/// The lore client over an HTTP client; requests go to `lore_domain`.
pub struct BlockingLoreAPIClient<C: NetClientTrait> {
    pub lore_domain: String,
    net_client: C,
}

impl<C: NetClientTrait> BlockingLoreAPIClient<C> {
    pub fn new(net_client: C) -> (r: Self)
        ensures
            r.domain() == lore_domain(),
    {
        BlockingLoreAPIClient {
            lore_domain: String::from_str("https://lore.kernel.org"),
            net_client,
        }
    }

    /// The address requests go to.
    pub closed spec fn domain(&self) -> Seq<char> {
        self.lore_domain@
    }

    /// A GET of `url`, the client's error kept as its message.
    fn get(&self, url: &str) -> (r: Result<String, ClientError>)
        ensures
            r is Err ==> r->Err_0 is Net,
    {
        match self.net_client.request(HttpMethod::Get, url) {
            Ok(body) => Ok(body),
            Err(e) => Err(ClientError::Net(e)),
        }
    }

    /// Where the feed page of `target_list` starting at `min_index` is.
    pub fn feed_url(&self, target_list: &str, min_index: usize) -> (r: String)
        ensures
            r@ == feed_page_url(self.domain(), target_list@, min_index as nat),
    {
        feed_url_in(self.lore_domain.as_str(), target_list, min_index)
    }

    /// Where the page of lists starting at `min_index` is.
    pub fn lists_url(&self, min_index: usize) -> (r: String)
        ensures
            r@ == lists_page_url(self.domain(), min_index as nat),
    {
        lists_url_in(self.lore_domain.as_str(), min_index)
    }

    /// Where a message's page is.
    pub fn patch_url(&self, target_list: &str, message_id: &str) -> (r: String)
        ensures
            r@ == patch_html_url(self.domain(), target_list@, message_id@),
    {
        patch_url_in(self.lore_domain.as_str(), target_list, message_id)
    }
}

impl<C: NetClientTrait> PatchFeedRequest for BlockingLoreAPIClient<C> {
    /// The feed page; a body that is only `</feed>` means the feed ended.
    fn request_patch_feed(&self, target_list: &str, min_index: usize) -> (r: Result<
        String,
        ClientError,
    >)
        ensures
            r matches Ok(body) ==> body@ != "</feed>"@,
    {
        let url = self.feed_url(target_list, min_index);
        match self.get(url.as_str()) {
            Ok(body) => {
                if str_eq(body.as_str(), "</feed>") {
                    Err(ClientError::EndOfFeed)
                } else {
                    Ok(body)
                }
            },
            Err(e) => Err(e),
        }
    }
}

impl<C: NetClientTrait> AvailableListsRequest for BlockingLoreAPIClient<C> {
    fn request_available_lists(&self, min_index: usize) -> (r: Result<String, ClientError>)
        ensures
            r matches Err(e) ==> e is Net,
    {
        let url = self.lists_url(min_index);
        self.get(url.as_str())
    }
}

impl<C: NetClientTrait> PatchHTMLRequest for BlockingLoreAPIClient<C> {
    fn request_patch_html(&self, target_list: &str, message_id: &str) -> (r: Result<
        String,
        ClientError,
    >)
        ensures
            r matches Err(e) ==> e is Net,
    {
        let url = self.patch_url(target_list, message_id);
        self.get(url.as_str())
    }
}

} // verus!
