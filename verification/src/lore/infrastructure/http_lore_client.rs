//! The lore.kernel.org endpoints: the list of archived lists, a list's
//! patch feed, and a patch's HTML page.
use vstd::prelude::*;

use crate::infra::{HttpMethod, NetClientTrait};
use crate::text::{decimal, decimal_chars, str_eq, str_to_string, string_from_chars};

verus! {

#[derive(Debug, Clone, PartialEq, Eq)]
pub enum LoreHttpError {
    /// The request failed; the text is the client's message.
    Net(String),
    /// The feed has no more entries.
    EndOfFeed,
}

pub trait ListsGateway {
    fn fetch_available_lists_page(&self, offset: usize) -> Result<String, LoreHttpError>;
}

pub trait FeedGateway {
    fn fetch_patch_feed_page(&self, target_list: &str, offset: usize) -> Result<
        String,
        LoreHttpError,
    >;
}

pub trait PatchHtmlGateway {
    /// Whether `r` is an answer this gateway may give for the page of the
    /// message `message_id` in `target_list`.
    /// A gateway that tells nothing of its answers may give any.
    open spec fn page_answer(
        &self,
        target_list: Seq<char>,
        message_id: Seq<char>,
        r: Result<Seq<char>, LoreHttpError>,
    ) -> bool {
        true
    }

    /// The HTML page of a message, as this gateway answers for that list
    /// and message.
    fn fetch_patch_html(&self, target_list: &str, message_id: &str) -> (r: Result<
        String,
        LoreHttpError,
    >)
        ensures
            self.page_answer(target_list@, message_id@, page_view(r)),
    ;
}

pub open spec fn page_view(r: Result<String, LoreHttpError>) -> Result<Seq<char>, LoreHttpError> {
    match r {
        Ok(h) => Ok(h@),
        Err(e) => Err(e),
    }
}

pub open spec fn lore_domain() -> Seq<char> {
    "https://lore.kernel.org"@
}

/// The query selecting a list's patches and RFCs, without replies.
pub open spec fn feed_query() -> Seq<char> {
    "?x=A&q=((s:patch+OR+s:rfc)+AND+NOT+s:re:)"@
}

/// `{domain}/?&o={offset}`.
pub open spec fn lists_page_url(domain: Seq<char>, offset: nat) -> Seq<char> {
    domain + "/?&o="@ + decimal(offset)
}

/// `{domain}/{list}/{query}&o={offset}`.
pub open spec fn feed_page_url(domain: Seq<char>, list: Seq<char>, offset: nat) -> Seq<char> {
    domain + "/"@ + list + "/"@ + feed_query() + "&o="@ + decimal(offset)
}

/// `{domain}/{list}/{message id}/`.
pub open spec fn patch_html_url(domain: Seq<char>, list: Seq<char>, message_id: Seq<char>) -> Seq<
    char,
> {
    domain + "/"@ + list + "/"@ + message_id + "/"@
}

/// The gateway over an HTTP client.
pub struct HttpLoreGateway<C: NetClientTrait> {
    client: C,
    lore_domain: String,
}

impl<C: NetClientTrait> HttpLoreGateway<C> {
    pub fn new(client: C) -> (r: Self)
        ensures
            r.domain() == lore_domain(),
    {
        HttpLoreGateway { client, lore_domain: String::from_str("https://lore.kernel.org") }
    }

    pub closed spec fn domain(&self) -> Seq<char> {
        self.lore_domain@
    }

    pub fn lists_url(&self, offset: usize) -> (r: String)
        ensures
            r@ == lists_page_url(self.domain(), offset as nat),
    {
        lists_url_in(self.lore_domain.as_str(), offset)
    }

    pub fn feed_url(&self, target_list: &str, offset: usize) -> (r: String)
        ensures
            r@ == feed_page_url(self.domain(), target_list@, offset as nat),
    {
        feed_url_in(self.lore_domain.as_str(), target_list, offset)
    }

    pub fn patch_url(&self, target_list: &str, message_id: &str) -> (r: String)
        ensures
            r@ == patch_html_url(self.domain(), target_list@, message_id@),
    {
        patch_url_in(self.lore_domain.as_str(), target_list, message_id)
    }
}

/// The URL of the page of lore's list that starts at `offset`.
pub fn lists_url_in(domain: &str, offset: usize) -> (r: String)
    ensures
        r@ == lists_page_url(domain@, offset as nat),
{
    let mut url = str_to_string(domain);
    url.append("/?&o=");
    let d = decimal_chars(offset as u64);
    url.append(string_from_chars(d.as_slice()).as_str());
    url
}

/// The URL of the feed page of `target_list` that starts at `offset`.
pub fn feed_url_in(domain: &str, target_list: &str, offset: usize) -> (r: String)
    ensures
        r@ == feed_page_url(domain@, target_list@, offset as nat),
{
    let mut url = str_to_string(domain);
    url.append("/");
    url.append(target_list);
    url.append("/");
    url.append("?x=A&q=((s:patch+OR+s:rfc)+AND+NOT+s:re:)");
    url.append("&o=");
    let d = decimal_chars(offset as u64);
    url.append(string_from_chars(d.as_slice()).as_str());
    url
}

/// The URL of a message's page in `target_list`.
pub fn patch_url_in(domain: &str, target_list: &str, message_id: &str) -> (r: String)
    ensures
        r@ == patch_html_url(domain@, target_list@, message_id@),
{
    let mut url = str_to_string(domain);
    url.append("/");
    url.append(target_list);
    url.append("/");
    url.append(message_id);
    url.append("/");
    url
}

/// A feed page whose whole body is `</feed>` has no entries: the feed
/// ended.
pub fn feed_page_result(body: String) -> (r: Result<String, LoreHttpError>)
    ensures
        body@ == "</feed>"@ ==> r matches Err(LoreHttpError::EndOfFeed),
        body@ != "</feed>"@ ==> r == Ok::<String, LoreHttpError>(body),
{
    if str_eq(body.as_str(), "</feed>") {
        Err(LoreHttpError::EndOfFeed)
    } else {
        Ok(body)
    }
}

impl<C: NetClientTrait> ListsGateway for HttpLoreGateway<C> {
    fn fetch_available_lists_page(&self, offset: usize) -> (r: Result<String, LoreHttpError>)
        ensures
            r matches Err(e) ==> e is Net,
    {
        let url = self.lists_url(offset);
        match self.client.request(HttpMethod::Get, url.as_str()) {
            Ok(body) => Ok(body),
            Err(e) => Err(LoreHttpError::Net(e)),
        }
    }
}

impl<C: NetClientTrait> FeedGateway for HttpLoreGateway<C> {
    fn fetch_patch_feed_page(&self, target_list: &str, offset: usize) -> (r: Result<
        String,
        LoreHttpError,
    >)
        ensures
            r matches Ok(body) ==> body@ != "</feed>"@,
    {
        let url = self.feed_url(target_list, offset);
        match self.client.request(HttpMethod::Get, url.as_str()) {
            Ok(body) => feed_page_result(body),
            Err(e) => Err(LoreHttpError::Net(e)),
        }
    }
}

impl<C: NetClientTrait> PatchHtmlGateway for HttpLoreGateway<C> {
    /// Whatever the HTTP client answered for the page's URL
    /// ([`patch_html_url`]); its failures are `Net` errors.
    open spec fn page_answer(
        &self,
        target_list: Seq<char>,
        message_id: Seq<char>,
        r: Result<Seq<char>, LoreHttpError>,
    ) -> bool {
        r matches Err(e) ==> e is Net
    }

    fn fetch_patch_html(&self, target_list: &str, message_id: &str) -> (r: Result<
        String,
        LoreHttpError,
    >)
        ensures
            r matches Err(e) ==> e is Net,
    {
        let url = self.patch_url(target_list, message_id);
        match self.client.request(HttpMethod::Get, url.as_str()) {
            Ok(body) => Ok(body),
            Err(e) => Err(LoreHttpError::Net(e)),
        }
    }
}

} // verus!
