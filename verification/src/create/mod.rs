//! The front page: the form that creates a link, with the most recent and the
//! most visited links beside it.

pub mod display_form;
pub mod submit_form;

use vstd::prelude::*;
use vstd::string::*;

verus! {

/// What the creation form shows in its fields.
#[derive(Debug)]
pub struct FormValues {
    pub shortname: String,
    pub longurl: String,
    pub shortname_is_disabled: bool,
}

impl Default for FormValues {
    fn default() -> (v: FormValues)
        ensures
            v.shortname@ == Seq::<char>::empty(),
            v.longurl@ == Seq::<char>::empty(),
            !v.shortname_is_disabled,
    {
        FormValues { shortname: String::new(), longurl: String::new(), shortname_is_disabled: false }
    }
}

} // verus!
