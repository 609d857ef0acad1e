//! Requests to the storage API that keeps the links.

use vstd::prelude::*;
use vstd::string::*;

use crate::state::Link;
use crate::util::text::{concat, concat3};

verus! {

/// Where the storage API is and how to authenticate to it.
pub struct ApiClient {
    pub jil_api_url: String,
    pub jil_api_admin_bearer_token: String,
}

/// The error the storage API answers with.
#[derive(Debug)]
pub struct ApiError {
    pub error: bool,
    pub code: String,
    pub message: String,
}

/// The storage API's answer to a request to create a link.
#[derive(Debug)]
pub enum CreateEntryApiResponse {
    Success(Link),
    Error(ApiError),
}

/// The path of the collection of links.
pub open spec fn entries_path_text() -> Seq<char> {
    "shortener/entries"@
}

pub fn entries_path() -> (r: String)
    ensures
        r@ == entries_path_text(),
{
    String::from_str("shortener/entries")
}

/// The path of the request that deletes the link `shortname`.
pub fn delete_entry_path(shortname: &str) -> (r: String)
    ensures
        r@ == "shortener/entries/"@ + shortname@ + "/delete"@,
{
    concat3("shortener/entries/", shortname, "/delete")
}

/// The `User-Agent` the service sends.
pub fn user_agent() -> (r: String)
    ensures
        r@ == "jil-im/0.1.0"@,
{
    String::from_str("jil-im/0.1.0")
}

impl ApiClient {
    pub fn new(jil_api_url: String, jil_api_admin_bearer_token: String) -> (c: ApiClient)
        ensures
            c.jil_api_url == jil_api_url,
            c.jil_api_admin_bearer_token == jil_api_admin_bearer_token,
    {
        ApiClient { jil_api_url, jil_api_admin_bearer_token }
    }

    /// The URL of `path` on the storage API.
    pub fn url(&self, path: &str) -> (r: String)
        ensures
            r@ == self.jil_api_url@ + "/"@ + path@,
    {
        concat3(self.jil_api_url.as_str(), "/", path)
    }

    /// The `Authorization` header sent with each request.
    pub fn authorization(&self) -> (r: String)
        ensures
            r@ == "Bearer "@ + self.jil_api_admin_bearer_token@,
    {
        concat("Bearer ", self.jil_api_admin_bearer_token.as_str())
    }

    /// The created link, or the message of the storage API's error.
    pub fn create_entry_result(response: CreateEntryApiResponse) -> (r: Result<Link, String>)
        ensures
            match response {
                CreateEntryApiResponse::Success(link) => r == Ok::<Link, String>(link),
                CreateEntryApiResponse::Error(e) => r == Err::<Link, String>(e.message),
            },
    {
        match response {
            CreateEntryApiResponse::Success(link) => Ok(link),
            CreateEntryApiResponse::Error(e) => Err(e.message),
        }
    }
}

} // verus!
