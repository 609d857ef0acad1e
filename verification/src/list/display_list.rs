//! Listing every link.

use vstd::prelude::*;

use crate::state::store::{is_ranking, RankKey};
use crate::state::{Link, State};

verus! {

impl State {
    /// Every link, newest first.
    pub fn links_newest_first(&self) -> (r: Vec<Link>)
        ensures
            self.links_view().dom().finite(),
            is_ranking(self.links_view(), RankKey::CreatedAt, r@),
    {
        self.links.ranked(RankKey::CreatedAt)
    }
}

} // verus!
