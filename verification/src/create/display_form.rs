//! The links listed beside the creation form.

use vstd::prelude::*;

use crate::state::store::{is_top, RankKey};
use crate::state::{Link, State};

verus! {

/// How many links each list beside the form shows.
pub const LISTED_LINKS: usize = 5;

impl State {
    /// The most recently created links, newest first.
    pub fn recent_links(&self) -> (r: Vec<Link>)
        ensures
            self.links_view().dom().finite(),
            is_top(self.links_view(), RankKey::CreatedAt, LISTED_LINKS as int, r@),
    {
        self.links.top(RankKey::CreatedAt, LISTED_LINKS)
    }

    /// The most visited links, the most visited first.
    pub fn popular_links(&self) -> (r: Vec<Link>)
        ensures
            self.links_view().dom().finite(),
            is_top(self.links_view(), RankKey::Clicks, LISTED_LINKS as int, r@),
    {
        self.links.top(RankKey::Clicks, LISTED_LINKS)
    }
}

} // verus!
