//! Core logic of the jil.im link shortener: the in-memory link store, the
//! ranking of links for display, shortlink resolution, flash messages, the
//! form workflows and the requests sent to the storage API.

pub mod api_client;
pub mod create;
pub mod list;
pub mod redirect;
pub mod state;
pub mod util;
