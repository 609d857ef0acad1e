//! The page that lists every link, with its edit and delete buttons.

pub mod display_list;
pub mod submit_form;
