//! Sending the click counts back to the storage API.

use vstd::prelude::*;
use vstd::string::*;

use super::store::{lists_shortname, lists_stored_links};
use super::{Link, State};

verus! {

impl State {
    /// The links whose counts are sent to the storage API: every stored link, once.
    pub fn links_to_sync(&self) -> (r: Vec<Link>)
        ensures
            lists_stored_links(self.links_view(), r@),
            forall|k: Seq<char>| #[trigger] self.links_view().contains_key(k) ==> lists_shortname(r@, k),
    {
        self.links.values()
    }
}

/// The status and body answered to a request to sync the counts, given how
/// the call to the storage API went (its error as text).
pub fn sync_stats_reply(result: Result<(), String>) -> (r: (u16, String))
    ensures
        match result {
            Ok(()) => r.0 == 200 && r.1@ == "success"@,
            Err(e) => r.0 == 500 && r.1@ == e@,
        },
{
    match result {
        Ok(()) => (200, String::from_str("success")),
        Err(e) => (500, e),
    }
}

} // verus!
