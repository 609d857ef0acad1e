//! Filling the state from what the storage API lists when the service starts.

use vstd::prelude::*;

use super::store::inserted_all;
use super::{bcrypt_verdict, is_default_cost_hash, Link, PasswordError, State};

verus! {

impl State {
    /// Takes in the links that the storage API listed, each filed under its
    /// shortname in the order given (a later one replaces an earlier one with
    /// the same shortname), then hashes and stores the web password.
    pub fn load(&mut self, items: &Vec<Link>, web_password: &str) -> (r: Result<(), PasswordError>)
        ensures
            final(self).links_view() == inserted_all(old(self).links_view(), items@.map_values(|l: Link| l@)),
            r is Ok ==> bcrypt_verdict(web_password@, final(self).password_hash_view()) == Some(true),
            r is Ok ==> is_default_cost_hash(final(self).password_hash_view()),
            r is Err ==> r == Err::<(), PasswordError>(PasswordError::Hashing) && final(self).password_hash_view()
                == old(self).password_hash_view(),
    {
        self.links.insert_all(items);
        self.set_password(web_password)
    }
}

} // verus!
